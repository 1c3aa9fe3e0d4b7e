//! Mutable maps: versioned key/value objects.
//!
//! Each entry carries its own version counter; the map's top-level version
//! governs permission changes. Entry mutations arrive in batches that apply
//! atomically: either every action succeeds or nothing is persisted.

use vstd::prelude::*;

use crate::chunk_store::Chunk;
use crate::sequence::User;
use crate::types::{bytes_eq, clone_bytes, clone_copy_vec, AddrKey, Address, Error, ErrorV, Kind, Scope};

verus! {

/// What a policy grants a user on a mutable map.
#[derive(Clone, Copy, PartialEq, Eq, Structural, Debug)]
pub struct MapPermSet {
    pub read: bool,
    pub insert: bool,
    pub update: bool,
    pub delete: bool,
    pub manage: bool,
}

impl MapPermSet {
    /// Grants nothing.
    pub open spec fn spec_none() -> MapPermSet {
        MapPermSet { read: false, insert: false, update: false, delete: false, manage: false }
    }

    /// Grants everything; the owner's effective set.
    pub open spec fn spec_full() -> MapPermSet {
        MapPermSet { read: true, insert: true, update: true, delete: true, manage: true }
    }

    /// The union of two grants.
    pub open spec fn spec_union(a: MapPermSet, b: MapPermSet) -> MapPermSet {
        MapPermSet {
            read: a.read || b.read,
            insert: a.insert || b.insert,
            update: a.update || b.update,
            delete: a.delete || b.delete,
            manage: a.manage || b.manage,
        }
    }
}

/// One user's grant within a map's policy.
#[derive(Clone, Copy, PartialEq, Eq, Structural, Debug)]
pub struct MapUserPerm {
    pub user: User,
    pub perms: MapPermSet,
}

/// One entry of a mutable map.
#[derive(Debug, Clone, PartialEq, Eq)]
pub struct MapEntry {
    pub key: Vec<u8>,
    pub value: Vec<u8>,
    pub version: u64,
}

/// Mathematical view of a [`MapEntry`].
pub struct MapEntryV {
    pub key: Seq<u8>,
    pub value: Seq<u8>,
    pub version: u64,
}

impl View for MapEntry {
    type V = MapEntryV;

    open spec fn view(&self) -> MapEntryV {
        MapEntryV { key: self.key@, value: self.value@, version: self.version }
    }
}

/// One action of an entry-mutation batch.
#[derive(Debug, Clone, PartialEq, Eq)]
pub enum EntryAction {
    Insert { key: Vec<u8>, value: Vec<u8> },
    Update { key: Vec<u8>, value: Vec<u8>, version: u64 },
    Delete { key: Vec<u8>, version: u64 },
}

/// Mathematical view of an [`EntryAction`].
pub enum EntryActionV {
    Insert { key: Seq<u8>, value: Seq<u8> },
    Update { key: Seq<u8>, value: Seq<u8>, version: u64 },
    Delete { key: Seq<u8>, version: u64 },
}

impl View for EntryAction {
    type V = EntryActionV;

    open spec fn view(&self) -> EntryActionV {
        match self {
            EntryAction::Insert { key, value } => EntryActionV::Insert { key: key@, value: value@ },
            EntryAction::Update { key, value, version } => EntryActionV::Update {
                key: key@,
                value: value@,
                version: *version,
            },
            EntryAction::Delete { key, version } => EntryActionV::Delete {
                key: key@,
                version: *version,
            },
        }
    }
}

/// The position of the entry keyed `k`, scanning from the front.
pub open spec fn find_idx(entries: Seq<MapEntryV>, k: Seq<u8>) -> Option<int>
    decreases entries.len(),
{
    if entries.len() == 0 {
        None
    } else if entries[0].key == k {
        Some(0)
    } else {
        match find_idx(entries.drop_first(), k) {
            Some(i) => Some(i + 1),
            None => None,
        }
    }
}

/// The entry keyed `k`, if present.
pub open spec fn find_entry(entries: Seq<MapEntryV>, k: Seq<u8>) -> Option<MapEntryV> {
    match find_idx(entries, k) {
        Some(i) => Some(entries[i]),
        None => None,
    }
}

/// No two entries share a key.
pub open spec fn entry_keys_unique(entries: Seq<MapEntryV>) -> bool {
    forall|i: int, j: int|
        0 <= i < j < entries.len() ==> (#[trigger] entries[i]).key != (#[trigger] entries[j]).key
}

/// No two grants name the same user.
pub open spec fn perm_users_unique(users: Seq<MapUserPerm>) -> bool {
    forall|i: int, j: int|
        0 <= i < j < users.len() ==> (#[trigger] users[i]).user != (#[trigger] users[j]).user
}

/// The first grant recorded for `u`, if any.
pub open spec fn lookup_map_user(users: Seq<MapUserPerm>, u: User) -> Option<MapPermSet>
    decreases users.len(),
{
    if users.len() == 0 {
        None
    } else if users[0].user == u {
        Some(users[0].perms)
    } else {
        lookup_map_user(users.drop_first(), u)
    }
}

/// The effective grant of identity `pk`: the owner may do anything; anyone
/// else gets the union of their explicit entry with the anyone fallback.
pub open spec fn effective_map_perms(users: Seq<MapUserPerm>, owner: u64, pk: u64) -> MapPermSet {
    if pk == owner {
        MapPermSet::spec_full()
    } else {
        MapPermSet::spec_union(
            match lookup_map_user(users, User::Key(pk)) {
                Some(p) => p,
                None => MapPermSet::spec_none(),
            },
            match lookup_map_user(users, User::Anyone) {
                Some(p) => p,
                None => MapPermSet::spec_none(),
            },
        )
    }
}

/// What one action does to the entries, under the grant `allowed`.
pub open spec fn apply_action(
    entries: Seq<MapEntryV>,
    a: EntryActionV,
    allowed: MapPermSet,
) -> Result<Seq<MapEntryV>, ErrorV> {
    match a {
        EntryActionV::Insert { key, value } => if !allowed.insert {
            Err(ErrorV::AccessDenied)
        } else {
            match find_idx(entries, key) {
                Some(_) => Err(ErrorV::EntryExists),
                None => Ok(entries.push(MapEntryV { key, value, version: 0 })),
            }
        },
        EntryActionV::Update { key, value, version } => if !allowed.update {
            Err(ErrorV::AccessDenied)
        } else {
            match find_idx(entries, key) {
                None => Err(ErrorV::NoSuchEntry),
                Some(i) => if version == entries[i].version + 1 {
                    Ok(entries.update(i, MapEntryV { key, value, version }))
                } else {
                    Err(ErrorV::InvalidSuccessor(entries[i].version))
                },
            }
        },
        EntryActionV::Delete { key, version } => if !allowed.delete {
            Err(ErrorV::AccessDenied)
        } else {
            match find_idx(entries, key) {
                None => Err(ErrorV::NoSuchEntry),
                Some(i) => if version == entries[i].version + 1 {
                    Ok(entries.remove(i))
                } else {
                    Err(ErrorV::InvalidSuccessor(entries[i].version))
                },
            }
        },
    }
}

/// What a whole batch does: the first failing action decides, and nothing
/// is kept of a failed batch.
pub open spec fn apply_actions(
    entries: Seq<MapEntryV>,
    actions: Seq<EntryActionV>,
    allowed: MapPermSet,
) -> Result<Seq<MapEntryV>, ErrorV>
    decreases actions.len(),
{
    if actions.len() == 0 {
        Ok(entries)
    } else {
        match apply_action(entries, actions[0], allowed) {
            Err(e) => Err(e),
            Ok(e2) => apply_actions(e2, actions.drop_first(), allowed),
        }
    }
}

/// The bytes a map's entries weigh: each key with its value.
pub open spec fn mdata_bytes(entries: Seq<MapEntryV>) -> nat
    decreases entries.len(),
{
    if entries.len() == 0 {
        0
    } else {
        mdata_bytes(entries.drop_last()) + entries.last().key.len() + entries.last().value.len()
    }
}

proof fn lemma_find_idx_at(entries: Seq<MapEntryV>, k: Seq<u8>, i: int)
    requires
        0 <= i < entries.len(),
        entries[i].key == k,
        forall|j: int| 0 <= j < i ==> entries[j].key != k,
    ensures
        find_idx(entries, k) == Some(i),
    decreases i,
{
    if i > 0 {
        assert(entries.drop_first()[i - 1] == entries[i]);
        lemma_find_idx_at(entries.drop_first(), k, i - 1);
    }
}

proof fn lemma_find_idx_none(entries: Seq<MapEntryV>, k: Seq<u8>)
    requires
        forall|j: int| 0 <= j < entries.len() ==> (#[trigger] entries[j]).key != k,
    ensures
        find_idx(entries, k) is None,
    decreases entries.len(),
{
    if entries.len() > 0 {
        lemma_find_idx_none(entries.drop_first(), k);
    }
}

proof fn lemma_find_idx_props(entries: Seq<MapEntryV>, k: Seq<u8>)
    ensures
        match find_idx(entries, k) {
            Some(i) => 0 <= i < entries.len() && entries[i].key == k && forall|j: int|
                0 <= j < i ==> (#[trigger] entries[j]).key != k,
            None => forall|j: int| 0 <= j < entries.len() ==> (#[trigger] entries[j]).key != k,
        },
    decreases entries.len(),
{
    if entries.len() > 0 {
        lemma_find_idx_props(entries.drop_first(), k);
        if entries[0].key == k {
        } else {
            match find_idx(entries.drop_first(), k) {
                Some(i) => {
                    assert(entries.drop_first()[i] == entries[i + 1]);
                    assert forall|j: int| 0 <= j < i + 1 implies (#[trigger] entries[j]).key != k by {
                        if j > 0 {
                            assert(entries.drop_first()[j - 1] == entries[j]);
                        }
                    }
                }
                None => {
                    assert forall|j: int|
                        0 <= j < entries.len() implies (#[trigger] entries[j]).key != k by {
                        if j > 0 {
                            assert(entries.drop_first()[j - 1] == entries[j]);
                        }
                    }
                }
            }
        }
    }
}

proof fn lemma_lookup_map_user_at(users: Seq<MapUserPerm>, u: User, i: int)
    requires
        0 <= i < users.len(),
        users[i].user == u,
        forall|j: int| 0 <= j < i ==> users[j].user != u,
    ensures
        lookup_map_user(users, u) == Some(users[i].perms),
    decreases i,
{
    if i > 0 {
        assert(users.drop_first()[i - 1] == users[i]);
        lemma_lookup_map_user_at(users.drop_first(), u, i - 1);
    }
}

proof fn lemma_lookup_map_user_none(users: Seq<MapUserPerm>, u: User)
    requires
        forall|j: int| 0 <= j < users.len() ==> (#[trigger] users[j]).user != u,
    ensures
        lookup_map_user(users, u) is None,
    decreases users.len(),
{
    if users.len() > 0 {
        lemma_lookup_map_user_none(users.drop_first(), u);
    }
}

/// Changing the grant at position `i` leaves every other user's lookup alone.
proof fn lemma_lookup_update_other(users: Seq<MapUserPerm>, i: int, x: MapUserPerm, u: User)
    requires
        0 <= i < users.len(),
        users[i].user == x.user,
        u != x.user,
    ensures
        lookup_map_user(users.update(i, x), u) == lookup_map_user(users, u),
    decreases users.len(),
{
    if i == 0 {
        assert(users.update(i, x).drop_first() =~= users.drop_first());
    } else {
        assert(users.update(i, x).drop_first() =~= users.drop_first().update(i - 1, x));
        assert(users.update(i, x)[0] == users[0]);
        lemma_lookup_update_other(users.drop_first(), i - 1, x, u);
    }
}

/// Removing the grant at position `i` leaves every other user's lookup alone,
/// provided no later position repeats the removed user.
proof fn lemma_lookup_remove_other(users: Seq<MapUserPerm>, i: int, u: User)
    requires
        0 <= i < users.len(),
        u != users[i].user,
    ensures
        lookup_map_user(users.remove(i), u) == lookup_map_user(users, u),
    decreases users.len(),
{
    if i == 0 {
        assert(users.remove(i) =~= users.drop_first());
    } else {
        assert(users.remove(i).drop_first() =~= users.drop_first().remove(i - 1));
        assert(users.remove(i)[0] == users[0]);
        lemma_lookup_remove_other(users.drop_first(), i - 1, u);
    }
}

/// Appending a grant leaves every other user's lookup alone.
proof fn lemma_lookup_push_other(users: Seq<MapUserPerm>, x: MapUserPerm, u: User)
    requires
        u != x.user,
    ensures
        lookup_map_user(users.push(x), u) == lookup_map_user(users, u),
    decreases users.len(),
{
    if users.len() == 0 {
        assert(users.push(x)[0] == x);
        assert(users.push(x).drop_first() =~= users);
    } else {
        assert(users.push(x).drop_first() =~= users.drop_first().push(x));
        assert(users.push(x)[0] == users[0]);
        lemma_lookup_push_other(users.drop_first(), x, u);
    }
}

proof fn lemma_lookup_update_self(users: Seq<MapUserPerm>, i: int, x: MapUserPerm)
    requires
        0 <= i < users.len(),
        users[i].user == x.user,
        forall|j: int| 0 <= j < i ==> users[j].user != x.user,
    ensures
        lookup_map_user(users.update(i, x), x.user) == Some(x.perms),
{
    let updated = users.update(i, x);
    assert(updated[i] == x);
    assert forall|j: int| 0 <= j < i implies updated[j].user != x.user by {
        assert(updated[j] == users[j]);
    }
    lemma_lookup_map_user_at(updated, x.user, i);
}

/// A mutable map object.
#[derive(Debug, Clone, PartialEq, Eq)]
pub struct MutableMap {
    address: Address,
    tag: u64,
    version: u64,
    owner: u64,
    permissions: Vec<MapUserPerm>,
    entries: Vec<MapEntry>,
}

/// Mathematical view of a [`MutableMap`].
pub struct MutableMapV {
    pub addr: AddrKey,
    pub tag: u64,
    pub version: u64,
    pub owner: u64,
    pub permissions: Seq<MapUserPerm>,
    pub entries: Seq<MapEntryV>,
}

impl View for MutableMap {
    type V = MutableMapV;

    closed spec fn view(&self) -> MutableMapV {
        MutableMapV {
            addr: self.address.key(),
            tag: self.tag,
            version: self.version,
            owner: self.owner,
            permissions: self.permissions@,
            entries: self.entries@.map_values(|e: MapEntry| e@),
        }
    }
}

impl MutableMapV {
    /// The effective grant of identity `pk` on this map.
    pub open spec fn effective(self, pk: u64) -> MapPermSet {
        effective_map_perms(self.permissions, self.owner, pk)
    }
}

impl MutableMap {
    /// A fresh, empty map owned by `owner`.
    pub fn new(name: Vec<u8>, scope: Scope, tag: u64, owner: u64) -> (m: MutableMap)
        ensures
            m@.addr == (Kind::Mutable, name@, scope),
            m@.tag == tag,
            m@.version == 0,
            m@.owner == owner,
            m@.permissions.len() == 0,
            m@.entries.len() == 0,
            m.valid(),
    {
        let m = MutableMap {
            address: Address::new(Kind::Mutable, name, scope),
            tag,
            version: 0,
            owner,
            permissions: Vec::new(),
            entries: Vec::new(),
        };
        proof {
            assert(m@.entries =~= Seq::<MapEntryV>::empty());
        }
        m
    }

    /// The map's address.
    pub fn address(&self) -> (a: Address)
        ensures
            a.key() == self@.addr,
    {
        self.address.clone_addr()
    }

    /// The map's top-level version.
    pub fn version(&self) -> (v: u64)
        ensures
            v == self@.version,
    {
        self.version
    }

    /// The map's type tag.
    pub fn tag(&self) -> (t: u64)
        ensures
            t == self@.tag,
    {
        self.tag
    }

    /// The map's owner key.
    pub fn owner(&self) -> (o: u64)
        ensures
            o == self@.owner,
    {
        self.owner
    }

    fn find_entry_exec(&self, key: &Vec<u8>) -> (r: Option<usize>)
        ensures
            match r {
                Some(i) => i < self@.entries.len() && self@.entries[i as int].key == key@
                    && find_idx(self@.entries, key@) == Some(i as int),
                None => find_idx(self@.entries, key@) is None,
            },
    {
        find_entry_in(&self.entries, key)
    }

    /// The value stored under `key`, or `NoSuchEntry`.
    pub fn get_value(&self, key: &Vec<u8>) -> (r: Result<Vec<u8>, Error>)
        ensures
            match r {
                Ok(v) => match find_entry(self@.entries, key@) {
                    Some(e) => v@ == e.value,
                    None => false,
                },
                Err(e) => e@ == ErrorV::NoSuchEntry && find_entry(self@.entries, key@) is None,
            },
    {
        match self.find_entry_exec(key) {
            Some(i) => Ok(clone_bytes(&self.entries[i].value)),
            None => Err(Error::NoSuchEntry),
        }
    }

    /// The version of the entry under `key`, or `NoSuchEntry`.
    pub fn entry_version(&self, key: &Vec<u8>) -> (r: Result<u64, Error>)
        ensures
            match r {
                Ok(v) => match find_entry(self@.entries, key@) {
                    Some(e) => v == e.version,
                    None => false,
                },
                Err(e) => e@ == ErrorV::NoSuchEntry && find_entry(self@.entries, key@) is None,
            },
    {
        match self.find_entry_exec(key) {
            Some(i) => Ok(self.entries[i].version),
            None => Err(Error::NoSuchEntry),
        }
    }

    /// All entries, in storage order.
    pub fn list_entries(&self) -> (r: Vec<MapEntry>)
        ensures
            r@.map_values(|e: MapEntry| e@) == self@.entries,
    {
        let mut r: Vec<MapEntry> = Vec::new();
        let mut i: usize = 0;
        while i < self.entries.len()
            invariant
                i <= self.entries@.len(),
                r@.len() == i,
                forall|j: int| 0 <= j < i ==> r@[j]@ == self.entries@[j]@,
            decreases self.entries.len() - i,
        {
            let e = &self.entries[i];
            r.push(MapEntry {
                key: clone_bytes(&e.key),
                value: clone_bytes(&e.value),
                version: e.version,
            });
            i += 1;
        }
        proof {
            assert(r@.map_values(|e: MapEntry| e@) =~= self@.entries);
        }
        r
    }

    /// All keys, in storage order.
    pub fn list_keys(&self) -> (r: Vec<Vec<u8>>)
        ensures
            r@.len() == self@.entries.len(),
            forall|j: int| 0 <= j < r@.len() ==> (#[trigger] r@[j])@ == self@.entries[j].key,
    {
        let mut r: Vec<Vec<u8>> = Vec::new();
        let mut i: usize = 0;
        while i < self.entries.len()
            invariant
                i <= self.entries@.len(),
                r@.len() == i,
                forall|j: int| 0 <= j < i ==> (#[trigger] r@[j])@ == self.entries@[j]@.key,
            decreases self.entries.len() - i,
        {
            r.push(clone_bytes(&self.entries[i].key));
            i += 1;
        }
        r
    }

    /// All values, in storage order.
    pub fn list_values(&self) -> (r: Vec<Vec<u8>>)
        ensures
            r@.len() == self@.entries.len(),
            forall|j: int| 0 <= j < r@.len() ==> (#[trigger] r@[j])@ == self@.entries[j].value,
    {
        let mut r: Vec<Vec<u8>> = Vec::new();
        let mut i: usize = 0;
        while i < self.entries.len()
            invariant
                i <= self.entries@.len(),
                r@.len() == i,
                forall|j: int| 0 <= j < i ==> (#[trigger] r@[j])@ == self.entries@[j]@.value,
            decreases self.entries.len() - i,
        {
            r.push(clone_bytes(&self.entries[i].value));
            i += 1;
        }
        r
    }

    /// The whole permission policy, in storage order.
    pub fn list_permissions(&self) -> (r: Vec<MapUserPerm>)
        ensures
            r@ == self@.permissions,
    {
        clone_copy_vec(&self.permissions)
    }

    /// The grant recorded for `user`, or `NoSuchEntry`.
    pub fn user_permissions(&self, user: User) -> (r: Result<MapPermSet, Error>)
        ensures
            match r {
                Ok(p) => lookup_map_user(self@.permissions, user) == Some(p),
                Err(e) => e@ == ErrorV::NoSuchEntry
                    && lookup_map_user(self@.permissions, user) is None,
            },
    {
        let mut i: usize = 0;
        while i < self.permissions.len()
            invariant
                i <= self.permissions@.len(),
                forall|j: int| 0 <= j < i ==> self.permissions@[j].user != user,
            decreases self.permissions.len() - i,
        {
            if self.permissions[i].user == user {
                proof {
                    lemma_lookup_map_user_at(self@.permissions, user, i as int);
                }
                return Ok(self.permissions[i].perms);
            }
            i += 1;
        }
        proof {
            lemma_lookup_map_user_none(self@.permissions, user);
        }
        Err(Error::NoSuchEntry)
    }

    /// A copy of the map without its entries: the shell.
    pub fn shell(&self) -> (m: MutableMap)
        requires
            self.valid(),
        ensures
            m@.addr == self@.addr,
            m@.tag == self@.tag,
            m@.version == self@.version,
            m@.owner == self@.owner,
            m@.permissions == self@.permissions,
            m@.entries.len() == 0,
            m.valid(),
    {
        let m = MutableMap {
            address: self.address.clone_addr(),
            tag: self.tag,
            version: self.version,
            owner: self.owner,
            permissions: clone_copy_vec(&self.permissions),
            entries: Vec::new(),
        };
        proof {
            assert(m@.entries =~= Seq::<MapEntryV>::empty());
        }
        m
    }

    /// Whether `pk` may perform the action named by the chosen bit of its
    /// effective grant; `AccessDenied` otherwise.
    pub fn check_read(&self, pk: u64) -> (r: Result<(), Error>)
        ensures
            match r {
                Ok(()) => self@.effective(pk).read,
                Err(e) => e@ == ErrorV::AccessDenied && !self@.effective(pk).read,
            },
    {
        let eff = self.effective_exec(pk);
        if eff.read {
            Ok(())
        } else {
            Err(Error::AccessDenied)
        }
    }

    /// The effective grant of `pk` on this map.
    pub fn effective_exec(&self, pk: u64) -> (r: MapPermSet)
        ensures
            r == self@.effective(pk),
    {
        if pk == self.owner {
            return MapPermSet { read: true, insert: true, update: true, delete: true, manage: true };
        }
        let explicit = match self.lookup_exec(User::Key(pk)) {
            Some(p) => p,
            None => MapPermSet { read: false, insert: false, update: false, delete: false, manage: false },
        };
        let anyone = match self.lookup_exec(User::Anyone) {
            Some(p) => p,
            None => MapPermSet { read: false, insert: false, update: false, delete: false, manage: false },
        };
        MapPermSet {
            read: explicit.read || anyone.read,
            insert: explicit.insert || anyone.insert,
            update: explicit.update || anyone.update,
            delete: explicit.delete || anyone.delete,
            manage: explicit.manage || anyone.manage,
        }
    }

    fn lookup_exec(&self, user: User) -> (r: Option<MapPermSet>)
        ensures
            r == lookup_map_user(self@.permissions, user),
    {
        let mut i: usize = 0;
        while i < self.permissions.len()
            invariant
                i <= self.permissions@.len(),
                forall|j: int| 0 <= j < i ==> self.permissions@[j].user != user,
            decreases self.permissions.len() - i,
        {
            if self.permissions[i].user == user {
                proof {
                    lemma_lookup_map_user_at(self@.permissions, user, i as int);
                }
                return Some(self.permissions[i].perms);
            }
            i += 1;
        }
        proof {
            lemma_lookup_map_user_none(self@.permissions, user);
        }
        None
    }

    /// Record `perms` for `user`. Demands the manage grant and the exact
    /// successor of the map's version; on a version mismatch the current
    /// version is reported and nothing changes.
    pub fn set_user_permissions(
        &mut self,
        user: User,
        perms: MapPermSet,
        expected_version: u64,
        pk: u64,
    ) -> (r: Result<(), Error>)
        requires
            old(self).valid(),
        ensures
            final(self).valid(),
            match r {
                Ok(()) => {
                    &&& old(self)@.effective(pk).manage
                    &&& expected_version == old(self)@.version + 1
                    &&& final(self)@.version == expected_version
                    &&& lookup_map_user(final(self)@.permissions, user) == Some(perms)
                    &&& forall|u: User|
                        u != user ==> #[trigger] lookup_map_user(final(self)@.permissions, u)
                            == lookup_map_user(old(self)@.permissions, u)
                    &&& final(self)@.addr == old(self)@.addr
                    &&& final(self)@.entries == old(self)@.entries
                    &&& final(self)@.owner == old(self)@.owner
                    &&& final(self)@.tag == old(self)@.tag
                },
                Err(e) => {
                    &&& *final(self) == *old(self)
                    &&& if !old(self)@.effective(pk).manage {
                        e@ == ErrorV::AccessDenied
                    } else {
                        e@ == ErrorV::InvalidSuccessor(old(self)@.version)
                            && expected_version != old(self)@.version + 1
                    }
                },
            },
    {
        let eff = self.effective_exec(pk);
        if !eff.manage {
            return Err(Error::AccessDenied);
        }
        if !(expected_version > 0 && expected_version - 1 == self.version) {
            return Err(Error::InvalidSuccessor(self.version));
        }
        let entry = MapUserPerm { user, perms };
        let mut i: usize = 0;
        let n = self.permissions.len();
        while i < n
            invariant
                i <= n,
                *self == *old(self),
                old(self).valid(),
                n == self.permissions@.len(),
                entry == (MapUserPerm { user, perms }),
                expected_version == old(self)@.version + 1,
                old(self)@.effective(pk).manage,
                forall|j: int| 0 <= j < i ==> self.permissions@[j].user != user,
            decreases n - i,
        {
            if self.permissions[i].user == user {
                let ghost pre = self.permissions@;
                proof {
                    assert(pre[i as int].user == user);
                }
                self.permissions.set(i, entry);
                self.version = expected_version;
                proof {
                    lemma_lookup_update_self(pre, i as int, entry);
                    assert forall|u: User| u != user implies #[trigger] lookup_map_user(
                        self@.permissions,
                        u,
                    ) == lookup_map_user(pre, u) by {
                        lemma_lookup_update_other(pre, i as int, entry, u);
                    }
                    assert forall|p: int, q: int|
                        0 <= p < q < self@.permissions.len() implies (
                    #[trigger] self@.permissions[p]).user != (
                    #[trigger] self@.permissions[q]).user by {
                        assert(self@.permissions[p].user == pre[p].user);
                        assert(self@.permissions[q].user == pre[q].user);
                    }
                }
                return Ok(());
            }
            i += 1;
        }
        let ghost pre = self.permissions@;
        self.permissions.push(entry);
        self.version = expected_version;
        proof {
            lemma_lookup_map_user_at(self@.permissions, user, pre.len() as int);
            assert forall|u: User| u != user implies #[trigger] lookup_map_user(
                self@.permissions,
                u,
            ) == lookup_map_user(pre, u) by {
                lemma_lookup_push_other(pre, entry, u);
            }
            assert forall|p: int, q: int|
                0 <= p < q < self@.permissions.len() implies (
            #[trigger] self@.permissions[p]).user != (#[trigger] self@.permissions[q]).user by {
                if q < pre.len() {
                } else {
                    assert(self@.permissions[q].user == user);
                    assert(self@.permissions[p] == pre[p]);
                }
            }
        }
        Ok(())
    }

    /// Drop the grant recorded for `user`. Demands the manage grant, the
    /// exact successor version, and an existing grant.
    pub fn del_user_permissions(&mut self, user: User, expected_version: u64, pk: u64) -> (r:
        Result<(), Error>)
        requires
            old(self).valid(),
        ensures
            final(self).valid(),
            match r {
                Ok(()) => {
                    &&& old(self)@.effective(pk).manage
                    &&& expected_version == old(self)@.version + 1
                    &&& lookup_map_user(old(self)@.permissions, user) is Some
                    &&& final(self)@.version == expected_version
                    &&& lookup_map_user(final(self)@.permissions, user) is None
                    &&& forall|u: User|
                        u != user ==> #[trigger] lookup_map_user(final(self)@.permissions, u)
                            == lookup_map_user(old(self)@.permissions, u)
                    &&& final(self)@.addr == old(self)@.addr
                    &&& final(self)@.entries == old(self)@.entries
                    &&& final(self)@.owner == old(self)@.owner
                    &&& final(self)@.tag == old(self)@.tag
                },
                Err(e) => {
                    &&& *final(self) == *old(self)
                    &&& if !old(self)@.effective(pk).manage {
                        e@ == ErrorV::AccessDenied
                    } else if expected_version != old(self)@.version + 1 {
                        e@ == ErrorV::InvalidSuccessor(old(self)@.version)
                    } else {
                        e@ == ErrorV::NoSuchEntry
                            && lookup_map_user(old(self)@.permissions, user) is None
                    }
                },
            },
    {
        let eff = self.effective_exec(pk);
        if !eff.manage {
            return Err(Error::AccessDenied);
        }
        if !(expected_version > 0 && expected_version - 1 == self.version) {
            return Err(Error::InvalidSuccessor(self.version));
        }
        let mut i: usize = 0;
        let n = self.permissions.len();
        while i < n
            invariant
                i <= n,
                *self == *old(self),
                old(self).valid(),
                n == self.permissions@.len(),
                expected_version == old(self)@.version + 1,
                old(self)@.effective(pk).manage,
                forall|j: int| 0 <= j < i ==> self.permissions@[j].user != user,
            decreases n - i,
        {
            if self.permissions[i].user == user {
                let ghost pre = self.permissions@;
                proof {
                    assert(pre[i as int].user == user);
                    lemma_lookup_map_user_at(pre, user, i as int);
                }
                let _ = self.permissions.remove(i);
                self.version = expected_version;
                proof {
                    assert forall|u: User| u != user implies #[trigger] lookup_map_user(
                        self@.permissions,
                        u,
                    ) == lookup_map_user(pre, u) by {
                        lemma_lookup_remove_other(pre, i as int, u);
                    }
                    assert forall|j: int|
                        0 <= j < self@.permissions.len() implies (
                    #[trigger] self@.permissions[j]).user != user by {
                        let j0 = if j < i as int { j } else { j + 1 };
                        assert(self@.permissions[j] == pre[j0]);
                    }
                    lemma_lookup_map_user_none(self@.permissions, user);
                    assert forall|p: int, q: int|
                        0 <= p < q < self@.permissions.len() implies (
                    #[trigger] self@.permissions[p]).user != (
                    #[trigger] self@.permissions[q]).user by {
                        let p0 = if p < i as int { p } else { p + 1 };
                        let q0 = if q < i as int { q } else { q + 1 };
                        assert(self@.permissions[p] == pre[p0]);
                        assert(self@.permissions[q] == pre[q0]);
                    }
                }
                return Ok(());
            }
            i += 1;
        }
        proof {
            lemma_lookup_map_user_none(self@.permissions, user);
        }
        Err(Error::NoSuchEntry)
    }

    /// Apply a batch of entry actions atomically under `pk`'s effective
    /// grant: either the whole batch is persisted, or nothing is and the
    /// first failure is reported.
    pub fn mutate_entries(&mut self, actions: &Vec<EntryAction>, pk: u64) -> (r: Result<(), Error>)
        requires
            old(self).valid(),
        ensures
            final(self).valid(),
            final(self)@.addr == old(self)@.addr,
            final(self)@.tag == old(self)@.tag,
            final(self)@.version == old(self)@.version,
            final(self)@.owner == old(self)@.owner,
            final(self)@.permissions == old(self)@.permissions,
            match r {
                Ok(()) => {
                    &&& apply_actions(
                        old(self)@.entries,
                        actions@.map_values(|a: EntryAction| a@),
                        old(self)@.effective(pk),
                    ) == Ok::<Seq<MapEntryV>, ErrorV>(final(self)@.entries)
                    &&& mdata_bytes(final(self)@.entries) <= u64::MAX as nat
                },
                Err(e) => {
                    &&& *final(self) == *old(self)
                    &&& match apply_actions(
                        old(self)@.entries,
                        actions@.map_values(|a: EntryAction| a@),
                        old(self)@.effective(pk),
                    ) {
                        Err(e2) => e@ == e2,
                        Ok(e2) => e@ == ErrorV::NotEnoughSpace && mdata_bytes(e2) > u64::MAX as nat,
                    }
                },
            },
    {
        let eff = self.effective_exec(pk);
        let ghost acts = actions@.map_values(|a: EntryAction| a@);
        let ghost orig = self@.entries;
        let mut work = clone_entries(&self.entries);
        let mut i: usize = 0;
        proof {
            assert(acts.skip(0) =~= acts);
        }
        while i < actions.len()
            invariant
                i <= actions@.len(),
                acts == actions@.map_values(|a: EntryAction| a@),
                acts.len() == actions@.len(),
                *self == *old(self),
                old(self).valid(),
                eff == self@.effective(pk),
                orig == self@.entries,
                entry_keys_unique(work@.map_values(|e: MapEntry| e@)),
                apply_actions(orig, acts, eff) == apply_actions(
                    work@.map_values(|e: MapEntry| e@),
                    acts.skip(i as int),
                    eff,
                ),
            decreases actions.len() - i,
        {
            let ghost workview = work@.map_values(|e: MapEntry| e@);
            proof {
                lemma_acts_skip(acts, i as int);
            }
            let step: Result<(), Error> = match &actions[i] {
                EntryAction::Insert { key, value } => {
                    if !eff.insert {
                        Err(Error::AccessDenied)
                    } else {
                        match find_entry_in(&work, key) {
                            Some(_) => Err(Error::EntryExists),
                            None => {
                                work.push(MapEntry {
                                    key: clone_bytes(key),
                                    value: clone_bytes(value),
                                    version: 0,
                                });
                                proof {
                                    assert(work@.map_values(|e: MapEntry| e@) =~= workview.push(
                                        MapEntryV { key: key@, value: value@, version: 0 },
                                    ));
                                }
                                Ok(())
                            }
                        }
                    }
                }
                EntryAction::Update { key, value, version } => {
                    if !eff.update {
                        Err(Error::AccessDenied)
                    } else {
                        match find_entry_in(&work, key) {
                            None => Err(Error::NoSuchEntry),
                            Some(j) => {
                                let cur = work[j].version;
                                if *version > 0 && *version - 1 == cur {
                                    work.set(j, MapEntry {
                                        key: clone_bytes(key),
                                        value: clone_bytes(value),
                                        version: *version,
                                    });
                                    proof {
                                        assert(work@.map_values(|e: MapEntry| e@)
                                            =~= workview.update(
                                            j as int,
                                            MapEntryV {
                                                key: key@,
                                                value: value@,
                                                version: *version,
                                            },
                                        ));
                                    }
                                    Ok(())
                                } else {
                                    Err(Error::InvalidSuccessor(cur))
                                }
                            }
                        }
                    }
                }
                EntryAction::Delete { key, version } => {
                    if !eff.delete {
                        Err(Error::AccessDenied)
                    } else {
                        match find_entry_in(&work, key) {
                            None => Err(Error::NoSuchEntry),
                            Some(j) => {
                                let cur = work[j].version;
                                if *version > 0 && *version - 1 == cur {
                                    let _ = work.remove(j);
                                    proof {
                                        assert(work@.map_values(|e: MapEntry| e@)
                                            =~= workview.remove(j as int));
                                    }
                                    Ok(())
                                } else {
                                    Err(Error::InvalidSuccessor(cur))
                                }
                            }
                        }
                    }
                }
            };
            match step {
                Ok(()) => {
                    proof {
                        let stepped = apply_action(workview, acts[i as int], eff);
                        assert(stepped == Ok::<Seq<MapEntryV>, ErrorV>(
                            work@.map_values(|e: MapEntry| e@),
                        ));
                        lemma_apply_action_unique(
                            workview,
                            acts[i as int],
                            eff,
                            work@.map_values(|e: MapEntry| e@),
                        );
                    }
                }
                Err(e) => {
                    proof {
                        assert(apply_action(workview, acts[i as int], eff) == Err::<
                            Seq<MapEntryV>,
                            ErrorV,
                        >(e@));
                    }
                    return Err(e);
                }
            }
            i += 1;
        }
        proof {
            assert(acts.skip(acts.len() as int) =~= Seq::<EntryActionV>::empty());
        }
        match mdata_size_checked(&work) {
            Some(_) => {
                self.entries = work;
                Ok(())
            }
            None => Err(Error::NotEnoughSpace),
        }
    }
}

/// For one applied action of a batch: no entry that stays present has its
/// version lowered, and an update raises exactly its key's version by one,
/// to the version the action declared.
pub proof fn lemma_entry_versions_monotonic(
    entries: Seq<MapEntryV>,
    a: EntryActionV,
    allowed: MapPermSet,
    result: Seq<MapEntryV>,
)
    requires
        entry_keys_unique(entries),
        apply_action(entries, a, allowed) == Ok::<Seq<MapEntryV>, ErrorV>(result),
    ensures
        forall|k: Seq<u8>|
            (#[trigger] find_entry(entries, k)) is Some && find_entry(result, k) is Some
                ==> find_entry(result, k).unwrap().version >= find_entry(
                entries,
                k,
            ).unwrap().version,
        a matches EntryActionV::Update { key, value, version } ==> {
            &&& find_entry(result, key) == Some(MapEntryV { key, value, version })
            &&& version == find_entry(entries, key).unwrap().version + 1
        },
{
    match a {
        EntryActionV::Insert { key, value } => {
            lemma_find_idx_props(entries, key);
            assert forall|k: Seq<u8>|
                (#[trigger] find_entry(entries, k)) is Some && find_entry(result, k) is Some
                    implies find_entry(result, k).unwrap().version >= find_entry(
                entries,
                k,
            ).unwrap().version by {
                lemma_find_idx_props(entries, k);
                if k != key {
                    lemma_find_push_other(entries, MapEntryV { key, value, version: 0 }, k);
                }
            }
        }
        EntryActionV::Update { key, value, version } => {
            let i = find_idx(entries, key).unwrap();
            lemma_find_idx_props(entries, key);
            let x = MapEntryV { key, value, version };
            lemma_find_update_self(entries, i, x);
            assert forall|k: Seq<u8>|
                (#[trigger] find_entry(entries, k)) is Some && find_entry(result, k) is Some
                    implies find_entry(result, k).unwrap().version >= find_entry(
                entries,
                k,
            ).unwrap().version by {
                if k != key {
                    lemma_find_update_other(entries, i, x, k);
                }
            }
        }
        EntryActionV::Delete { key, version } => {
            let i = find_idx(entries, key).unwrap();
            lemma_find_idx_props(entries, key);
            assert forall|k: Seq<u8>|
                (#[trigger] find_entry(entries, k)) is Some && find_entry(result, k) is Some
                    implies find_entry(result, k).unwrap().version >= find_entry(
                entries,
                k,
            ).unwrap().version by {
                if k != key {
                    lemma_find_remove_other(entries, i, k);
                } else {
                    assert forall|j: int|
                        0 <= j < result.len() implies (#[trigger] result[j]).key != key by {
                        let j0 = if j < i { j } else { j + 1 };
                        assert(result[j] == entries[j0]);
                    }
                    lemma_find_idx_none(result, key);
                }
            }
        }
    }
}

proof fn lemma_find_idx_push_other(entries: Seq<MapEntryV>, x: MapEntryV, k: Seq<u8>)
    requires
        k != x.key,
    ensures
        find_idx(entries.push(x), k) == find_idx(entries, k),
    decreases entries.len(),
{
    if entries.len() == 0 {
        assert(entries.push(x)[0] == x);
        assert(entries.push(x).drop_first() =~= entries);
    } else {
        assert(entries.push(x)[0] == entries[0]);
        assert(entries.push(x).drop_first() =~= entries.drop_first().push(x));
        lemma_find_idx_push_other(entries.drop_first(), x, k);
    }
}

/// Across any whole batch of successful actions, an entry's version never
/// decreases, as long as no action of the batch deletes its key: a delete
/// removes the entry, and a later insert starts a fresh one at version
/// zero.
pub proof fn lemma_batch_versions_monotonic(
    entries: Seq<MapEntryV>,
    actions: Seq<EntryActionV>,
    allowed: MapPermSet,
    result: Seq<MapEntryV>,
    k: Seq<u8>,
)
    requires
        entry_keys_unique(entries),
        apply_actions(entries, actions, allowed) == Ok::<Seq<MapEntryV>, ErrorV>(result),
        forall|i: int|
            0 <= i < actions.len() ==> !((#[trigger] actions[i]) matches EntryActionV::Delete {
                key,
                ..
            } && key == k),
    ensures
        find_entry(entries, k) is Some ==> find_entry(result, k) is Some && find_entry(
            result,
            k,
        ).unwrap().version >= find_entry(entries, k).unwrap().version,
    decreases actions.len(),
{
    if actions.len() == 0 {
    } else {
        let e2 = apply_action(entries, actions[0], allowed)->Ok_0;
        lemma_apply_action_unique(entries, actions[0], allowed, e2);
        lemma_entry_versions_monotonic(entries, actions[0], allowed, e2);
        if find_entry(entries, k) is Some {
            match actions[0] {
                EntryActionV::Insert { key, value } => {
                    if key != k {
                        lemma_find_push_other(entries, MapEntryV { key, value, version: 0 }, k);
                    }
                }
                EntryActionV::Update { key, value, version } => {
                    let i = find_idx(entries, key).unwrap();
                    lemma_find_idx_props(entries, key);
                    let x = MapEntryV { key, value, version };
                    if key == k {
                        lemma_find_update_self(entries, i, x);
                    } else {
                        lemma_find_update_other(entries, i, x, k);
                    }
                }
                EntryActionV::Delete { key, version } => {
                    let i = find_idx(entries, key).unwrap();
                    lemma_find_idx_props(entries, key);
                    lemma_find_remove_other(entries, i, k);
                }
            }
        }
        assert forall|i: int|
            0 <= i < actions.drop_first().len() implies !((#[trigger] actions.drop_first()[i])
            matches EntryActionV::Delete { key, .. } && key == k) by {
            assert(actions.drop_first()[i] == actions[i + 1]);
        }
        lemma_batch_versions_monotonic(e2, actions.drop_first(), allowed, result, k);
    }
}

proof fn lemma_find_push_other(entries: Seq<MapEntryV>, x: MapEntryV, k: Seq<u8>)
    requires
        k != x.key,
    ensures
        find_entry(entries.push(x), k) == find_entry(entries, k),
{
    lemma_find_idx_push_other(entries, x, k);
    lemma_find_idx_props(entries, k);
    match find_idx(entries, k) {
        Some(i) => {
            assert(entries.push(x)[i] == entries[i]);
        }
        None => {}
    }
}

proof fn lemma_find_idx_update_other(entries: Seq<MapEntryV>, i: int, x: MapEntryV, k: Seq<u8>)
    requires
        0 <= i < entries.len(),
        entries[i].key == x.key,
        k != x.key,
    ensures
        find_idx(entries.update(i, x), k) == find_idx(entries, k),
    decreases entries.len(),
{
    if i == 0 {
        assert(entries.update(i, x)[0] == x);
        assert(entries.update(i, x).drop_first() =~= entries.drop_first());
    } else {
        assert(entries.update(i, x).drop_first() =~= entries.drop_first().update(i - 1, x));
        assert(entries.update(i, x)[0] == entries[0]);
        lemma_find_idx_update_other(entries.drop_first(), i - 1, x, k);
    }
}

proof fn lemma_find_update_other(entries: Seq<MapEntryV>, i: int, x: MapEntryV, k: Seq<u8>)
    requires
        0 <= i < entries.len(),
        entries[i].key == x.key,
        k != x.key,
    ensures
        find_entry(entries.update(i, x), k) == find_entry(entries, k),
{
    lemma_find_idx_update_other(entries, i, x, k);
    lemma_find_idx_props(entries, k);
    match find_idx(entries, k) {
        Some(j) => {
            assert(entries[j].key == k);
            assert(j != i);
            assert(entries.update(i, x)[j] == entries[j]);
        }
        None => {}
    }
}

proof fn lemma_find_update_self(entries: Seq<MapEntryV>, i: int, x: MapEntryV)
    requires
        0 <= i < entries.len(),
        entries[i].key == x.key,
        forall|j: int| 0 <= j < i ==> (#[trigger] entries[j]).key != x.key,
    ensures
        find_entry(entries.update(i, x), x.key) == Some(x),
{
    let updated = entries.update(i, x);
    assert(updated[i] == x);
    assert forall|j: int| 0 <= j < i implies (#[trigger] updated[j]).key != x.key by {
        assert(updated[j] == entries[j]);
    }
    lemma_find_idx_at(updated, x.key, i);
}

proof fn lemma_find_idx_remove_other(entries: Seq<MapEntryV>, i: int, k: Seq<u8>)
    requires
        0 <= i < entries.len(),
        k != entries[i].key,
    ensures
        match find_idx(entries, k) {
            None => find_idx(entries.remove(i), k) is None,
            Some(j) => if j < i {
                find_idx(entries.remove(i), k) == Some(j)
            } else {
                find_idx(entries.remove(i), k) == Some(j - 1)
            },
        },
    decreases entries.len(),
{
    lemma_find_idx_props(entries, k);
    if i == 0 {
        assert(entries.remove(i) =~= entries.drop_first());
    } else {
        assert(entries.remove(i)[0] == entries[0]);
        assert(entries.remove(i).drop_first() =~= entries.drop_first().remove(i - 1));
        if entries[0].key == k {
        } else {
            assert(entries.drop_first()[i - 1] == entries[i]);
            lemma_find_idx_remove_other(entries.drop_first(), i - 1, k);
        }
    }
}

proof fn lemma_find_remove_other(entries: Seq<MapEntryV>, i: int, k: Seq<u8>)
    requires
        0 <= i < entries.len(),
        k != entries[i].key,
    ensures
        find_entry(entries.remove(i), k) == find_entry(entries, k),
{
    lemma_find_idx_remove_other(entries, i, k);
    lemma_find_idx_props(entries, k);
    match find_idx(entries, k) {
        Some(j) => {
            assert(entries[j].key == k);
            assert(j != i);
            if j < i {
                assert(entries.remove(i)[j] == entries[j]);
            } else {
                assert(entries.remove(i)[j - 1] == entries[j]);
            }
        }
        None => {}
    }
}

proof fn lemma_mdata_take_step(s: Seq<MapEntryV>, i: int)
    requires
        0 <= i < s.len(),
    ensures
        mdata_bytes(s.take(i + 1)) == mdata_bytes(s.take(i)) + s[i].key.len() + s[i].value.len(),
{
    assert(s.take(i + 1).drop_last() =~= s.take(i));
    assert(s.take(i + 1).last() == s[i]);
}

proof fn lemma_mdata_take_le(s: Seq<MapEntryV>, i: int)
    requires
        0 <= i <= s.len(),
    ensures
        mdata_bytes(s.take(i)) <= mdata_bytes(s),
    decreases s.len() - i,
{
    if i == s.len() {
        assert(s.take(i) =~= s);
    } else {
        lemma_mdata_take_step(s, i);
        lemma_mdata_take_le(s, i + 1);
    }
}

/// The entries' weight in bytes, or nothing when it exceeds the machine's
/// accounting range.
fn mdata_size_checked(entries: &Vec<MapEntry>) -> (r: Option<u64>)
    ensures
        match r {
            Some(n) => n as nat == mdata_bytes(entries@.map_values(|e: MapEntry| e@)),
            None => mdata_bytes(entries@.map_values(|e: MapEntry| e@)) > u64::MAX as nat,
        },
{
    let ghost view = entries@.map_values(|e: MapEntry| e@);
    let mut acc: u64 = 0;
    let mut i: usize = 0;
    proof {
        assert(view.take(0) =~= Seq::<MapEntryV>::empty());
    }
    while i < entries.len()
        invariant
            i <= entries@.len(),
            view == entries@.map_values(|e: MapEntry| e@),
            acc as nat == mdata_bytes(view.take(i as int)),
        decreases entries.len() - i,
    {
        proof {
            lemma_mdata_take_step(view, i as int);
        }
        let kl = entries[i].key.len() as u64;
        if kl > u64::MAX - acc {
            proof {
                lemma_mdata_take_le(view, i as int + 1);
            }
            return None;
        }
        let acc2 = acc + kl;
        let vl = entries[i].value.len() as u64;
        if vl > u64::MAX - acc2 {
            proof {
                lemma_mdata_take_le(view, i as int + 1);
            }
            return None;
        }
        acc = acc2 + vl;
        i += 1;
    }
    proof {
        assert(view.take(view.len() as int) =~= view);
    }
    Some(acc)
}

impl Chunk for MutableMap {
    open spec fn key_spec(&self) -> AddrKey {
        self@.addr
    }

    open spec fn size_spec(&self) -> nat {
        mdata_bytes(self@.entries)
    }

    open spec fn valid(&self) -> bool {
        &&& self@.addr.0 == Kind::Mutable
        &&& entry_keys_unique(self@.entries)
        &&& perm_users_unique(self@.permissions)
        &&& mdata_bytes(self@.entries) <= u64::MAX as nat
    }

    fn matches_addr(&self, addr: &Address) -> (r: bool)
        ensures
            r == (self.key_spec() == addr.key()),
    {
        self.address.matches(addr)
    }

    fn stored_size(&self) -> (n: u64)
        ensures
            n as nat == self.size_spec(),
    {
        match mdata_size_checked(&self.entries) {
            Some(n) => n,
            None => {
                proof {
                    assert(false);
                }
                0
            }
        }
    }

    fn chunk_addr(&self) -> (a: Address)
        ensures
            a.key() == self.key_spec(),
    {
        self.address.clone_addr()
    }

    fn clone_chunk(&self) -> (c: Self)
        ensures
            c@ == self@,
            c.key_spec() == self.key_spec(),
            c.size_spec() == self.size_spec(),
            c.valid(),
    {
        let c = MutableMap {
            address: self.address.clone_addr(),
            tag: self.tag,
            version: self.version,
            owner: self.owner,
            permissions: clone_copy_vec(&self.permissions),
            entries: clone_entries(&self.entries),
        };
        proof {
            assert(c@.entries =~= self@.entries);
            assert(c@ == self@);
        }
        c
    }
}

/// An entry-for-entry copy of a map's entries.
fn clone_entries(entries: &Vec<MapEntry>) -> (r: Vec<MapEntry>)
    ensures
        r@.map_values(|e: MapEntry| e@) == entries@.map_values(|e: MapEntry| e@),
{
    let mut r: Vec<MapEntry> = Vec::new();
    let mut i: usize = 0;
    while i < entries.len()
        invariant
            i <= entries@.len(),
            r@.len() == i,
            forall|j: int| 0 <= j < i ==> r@[j]@ == entries@[j]@,
        decreases entries.len() - i,
    {
        let e = &entries[i];
        r.push(MapEntry {
            key: clone_bytes(&e.key),
            value: clone_bytes(&e.value),
            version: e.version,
        });
        i += 1;
    }
    proof {
        assert(r@.map_values(|e: MapEntry| e@) =~= entries@.map_values(|e: MapEntry| e@));
    }
    r
}

/// One action keeps entry keys unique.
proof fn lemma_apply_action_unique(
    entries: Seq<MapEntryV>,
    a: EntryActionV,
    allowed: MapPermSet,
    result: Seq<MapEntryV>,
)
    requires
        entry_keys_unique(entries),
        apply_action(entries, a, allowed) == Ok::<Seq<MapEntryV>, ErrorV>(result),
    ensures
        entry_keys_unique(result),
{
    match a {
        EntryActionV::Insert { key, value } => {
            lemma_find_idx_props(entries, key);
            assert forall|i: int, j: int|
                0 <= i < j < result.len() implies (#[trigger] result[i]).key != (
            #[trigger] result[j]).key by {
                if j < entries.len() {
                } else {
                    assert(result[j].key == key);
                    assert(result[i] == entries[i]);
                }
            }
        }
        EntryActionV::Update { key, value, version } => {
            let i = find_idx(entries, key).unwrap();
            lemma_find_idx_props(entries, key);
            assert forall|p: int, q: int|
                0 <= p < q < result.len() implies (#[trigger] result[p]).key != (
            #[trigger] result[q]).key by {
                assert(result[p].key == entries[p].key);
                assert(result[q].key == entries[q].key);
            }
        }
        EntryActionV::Delete { key, version } => {
            let i = find_idx(entries, key).unwrap();
            lemma_find_idx_props(entries, key);
            assert forall|p: int, q: int|
                0 <= p < q < result.len() implies (#[trigger] result[p]).key != (
            #[trigger] result[q]).key by {
                let p0 = if p < i { p } else { p + 1 };
                let q0 = if q < i { q } else { q + 1 };
                assert(result[p] == entries[p0]);
                assert(result[q] == entries[q0]);
            }
        }
    }
}

proof fn lemma_acts_skip(acts: Seq<EntryActionV>, i: int)
    requires
        0 <= i < acts.len(),
    ensures
        acts.skip(i).len() == acts.len() - i,
        acts.skip(i)[0] == acts[i],
        acts.skip(i).drop_first() =~= acts.skip(i + 1),
{
}

/// The entry keyed `key`, scanning from the front.
fn find_entry_in(entries: &Vec<MapEntry>, key: &Vec<u8>) -> (r: Option<usize>)
    ensures
        match r {
            Some(i) => i < entries@.len()
                && entries@.map_values(|e: MapEntry| e@)[i as int].key == key@
                && find_idx(entries@.map_values(|e: MapEntry| e@), key@) == Some(i as int),
            None => find_idx(entries@.map_values(|e: MapEntry| e@), key@) is None,
        },
{
    let ghost view = entries@.map_values(|e: MapEntry| e@);
    let mut i: usize = 0;
    while i < entries.len()
        invariant
            i <= entries@.len(),
            view == entries@.map_values(|e: MapEntry| e@),
            forall|j: int| 0 <= j < i ==> view[j].key != key@,
        decreases entries.len() - i,
    {
        if bytes_eq(&entries[i].key, key) {
            proof {
                lemma_find_idx_at(view, key@, i as int);
            }
            return Some(i);
        }
        i += 1;
    }
    proof {
        lemma_find_idx_none(view, key@);
    }
    None
}

} // verus!
