//! Append-only sequence objects.
//!
//! A sequence holds an ordered log of entries together with append-only
//! histories of its owners and its permission policies; any read selects a
//! history position by index. Mutations only ever append, so indices are
//! dense and each `*_index` equals the length of its list.

use vstd::prelude::*;

use crate::chunk_store::Chunk;
use crate::types::{bytes_eq, clone_bytes, clone_copy_vec, AddrKey, Address, Error, Kind, Scope};

verus! {

/// A subject of a permission policy: one identity, or anyone at all.
#[derive(Clone, Copy, PartialEq, Eq, Structural, Debug)]
pub enum User {
    Anyone,
    Key(u64),
}

/// What a policy grants a user on a sequence.
#[derive(Clone, Copy, PartialEq, Eq, Structural, Debug)]
pub struct SeqPermSet {
    pub read: bool,
    pub append: bool,
    pub manage: bool,
}

impl SeqPermSet {
    /// Grants nothing.
    pub open spec fn spec_none() -> SeqPermSet {
        SeqPermSet { read: false, append: false, manage: false }
    }

    /// The union of two grants.
    pub open spec fn spec_union(a: SeqPermSet, b: SeqPermSet) -> SeqPermSet {
        SeqPermSet { read: a.read || b.read, append: a.append || b.append, manage: a.manage || b.manage }
    }

    /// Whether this grant covers the action.
    pub open spec fn allows(self, action: SeqAction) -> bool {
        match action {
            SeqAction::Read => self.read,
            SeqAction::Append => self.append,
            SeqAction::ManagePermissions => self.manage,
        }
    }
}

/// The actions the permission predicate distinguishes.
#[derive(Clone, Copy, PartialEq, Eq, Structural, Debug)]
pub enum SeqAction {
    Read,
    Append,
    ManagePermissions,
}

/// One owner record; the indices snapshot the histories at the handover.
#[derive(Clone, Copy, PartialEq, Eq, Structural, Debug)]
pub struct Owner {
    pub public_key: u64,
    pub entries_index: u64,
    pub permissions_index: u64,
}

/// One user's grant within a policy.
#[derive(Clone, Copy, PartialEq, Eq, Structural, Debug)]
pub struct SeqUserPerm {
    pub user: User,
    pub perms: SeqPermSet,
}

/// One permission policy; the indices snapshot the histories when it was set.
#[derive(Debug, Clone, PartialEq, Eq)]
pub struct SeqPermissions {
    pub entries_index: u64,
    pub owners_index: u64,
    pub users: Vec<SeqUserPerm>,
}

/// Mathematical view of [`SeqPermissions`].
pub struct SeqPermissionsV {
    pub entries_index: u64,
    pub owners_index: u64,
    pub users: Seq<SeqUserPerm>,
}

impl View for SeqPermissions {
    type V = SeqPermissionsV;

    open spec fn view(&self) -> SeqPermissionsV {
        SeqPermissionsV {
            entries_index: self.entries_index,
            owners_index: self.owners_index,
            users: self.users@,
        }
    }
}

impl SeqPermissions {
    pub fn clone_perms(&self) -> (r: SeqPermissions)
        ensures
            r@ == self@,
    {
        SeqPermissions {
            entries_index: self.entries_index,
            owners_index: self.owners_index,
            users: clone_copy_vec(&self.users),
        }
    }
}

/// An index into a sequence, absolute or relative to its end.
#[derive(Clone, Copy, PartialEq, Eq, Structural, Debug)]
pub enum SeqIndex {
    FromStart(u64),
    FromEnd(u64),
}

/// The absolute position an index denotes in a log of length `len`.
pub open spec fn resolve_index(i: SeqIndex, len: nat) -> Option<int> {
    match i {
        SeqIndex::FromStart(n) => if n <= len { Some(n as int) } else { None },
        SeqIndex::FromEnd(n) => if n <= len { Some(len - n) } else { None },
    }
}

/// The first grant recorded for `u`, if any.
pub open spec fn lookup_user(users: Seq<SeqUserPerm>, u: User) -> Option<SeqPermSet>
    decreases users.len(),
{
    if users.len() == 0 {
        None
    } else if users[0].user == u {
        Some(users[0].perms)
    } else {
        lookup_user(users.drop_first(), u)
    }
}

/// The effective grant of identity `pk` under a policy: the union of the
/// user's explicit entry with the anyone fallback.
pub open spec fn effective_perms(users: Seq<SeqUserPerm>, pk: u64) -> SeqPermSet {
    SeqPermSet::spec_union(
        match lookup_user(users, User::Key(pk)) {
            Some(p) => p,
            None => SeqPermSet::spec_none(),
        },
        match lookup_user(users, User::Anyone) {
            Some(p) => p,
            None => SeqPermSet::spec_none(),
        },
    )
}

/// The sum of the entries' byte lengths.
pub open spec fn bytes_total(s: Seq<Seq<u8>>) -> nat
    decreases s.len(),
{
    if s.len() == 0 {
        0
    } else {
        s[0].len() + bytes_total(s.drop_first())
    }
}

/// An append-only sequence object.
#[derive(Debug, Clone, PartialEq, Eq)]
pub struct Sequence {
    address: Address,
    entries: Vec<Vec<u8>>,
    owners: Vec<Owner>,
    permissions: Vec<SeqPermissions>,
}

/// Mathematical view of a [`Sequence`].
pub struct SequenceV {
    pub addr: AddrKey,
    pub entries: Seq<Seq<u8>>,
    pub owners: Seq<Owner>,
    pub permissions: Seq<SeqPermissionsV>,
}

impl View for Sequence {
    type V = SequenceV;

    closed spec fn view(&self) -> SequenceV {
        SequenceV {
            addr: self.address.key(),
            entries: self.entries@.map_values(|e: Vec<u8>| e@),
            owners: self.owners@,
            permissions: self.permissions@.map_values(|p: SeqPermissions| p@),
        }
    }
}

impl SequenceV {
    /// The owner currently in charge: the last of the history.
    pub open spec fn current_owner(self) -> Option<Owner> {
        if self.owners.len() == 0 {
            None
        } else {
            Some(self.owners.last())
        }
    }

    /// The policy currently in force: the last of the history.
    pub open spec fn current_perms(self) -> Option<SeqPermissionsV> {
        if self.permissions.len() == 0 {
            None
        } else {
            Some(self.permissions.last())
        }
    }

    /// Whether `pk` is the current last owner.
    pub open spec fn is_last_owner(self, pk: u64) -> bool {
        match self.current_owner() {
            Some(o) => o.public_key == pk,
            None => false,
        }
    }

    /// The scope of the sequence's address.
    pub open spec fn scope(self) -> Scope {
        self.addr.2
    }

    /// The permission predicate. The current owner may do anything; anyone
    /// may read a public sequence; otherwise the effective grant of the
    /// current policy decides.
    pub open spec fn is_permitted(self, pk: u64, action: SeqAction) -> bool {
        if self.is_last_owner(pk) {
            true
        } else if self.scope() == Scope::Public && action == SeqAction::Read {
            true
        } else {
            match self.current_perms() {
                Some(p) => effective_perms(p.users, pk).allows(action),
                None => false,
            }
        }
    }

    /// What a ranged read returns: the log between two resolved positions,
    /// or nothing when the range is empty or out of bounds.
    pub open spec fn spec_in_range(self, from: SeqIndex, to: SeqIndex) -> Option<Seq<Seq<u8>>> {
        match (resolve_index(from, self.entries.len()), resolve_index(to, self.entries.len())) {
            (Some(s), Some(e)) => if s < e {
                Some(self.entries.subrange(s, e))
            } else {
                None
            },
            _ => None,
        }
    }
}

proof fn lemma_lookup_user_skip(users: Seq<SeqUserPerm>, u: User, i: int)
    requires
        0 <= i < users.len(),
        users[i].user == u,
        forall|j: int| 0 <= j < i ==> users[j].user != u,
    ensures
        lookup_user(users, u) == Some(users[i].perms),
    decreases i,
{
    if i == 0 {
    } else {
        assert(users.drop_first()[i - 1] == users[i]);
        lemma_lookup_user_skip(users.drop_first(), u, i - 1);
    }
}

proof fn lemma_lookup_user_none(users: Seq<SeqUserPerm>, u: User)
    requires
        forall|j: int| 0 <= j < users.len() ==> users[j].user != u,
    ensures
        lookup_user(users, u) is None,
    decreases users.len(),
{
    if users.len() > 0 {
        lemma_lookup_user_none(users.drop_first(), u);
    }
}

/// The first grant recorded for `u` in a policy's user list.
fn lookup_user_exec(users: &Vec<SeqUserPerm>, u: User) -> (r: Option<SeqPermSet>)
    ensures
        r == lookup_user(users@, u),
{
    let mut i: usize = 0;
    while i < users.len()
        invariant
            i <= users.len(),
            forall|j: int| 0 <= j < i ==> users@[j].user != u,
        decreases users.len() - i,
    {
        if users[i].user == u {
            proof {
                lemma_lookup_user_skip(users@, u, i as int);
            }
            return Some(users[i].perms);
        }
        i += 1;
    }
    proof {
        lemma_lookup_user_none(users@, u);
    }
    None
}

impl Sequence {
    /// A fresh, empty sequence at the given name and scope.
    pub fn new(name: Vec<u8>, scope: Scope) -> (s: Sequence)
        ensures
            s@.addr == (Kind::Sequence, name@, scope),
            s@.entries.len() == 0,
            s@.owners.len() == 0,
            s@.permissions.len() == 0,
            s.valid(),
    {
        let s = Sequence {
            address: Address::new(Kind::Sequence, name, scope),
            entries: Vec::new(),
            owners: Vec::new(),
            permissions: Vec::new(),
        };
        proof {
            assert(s@.entries =~= Seq::<Seq<u8>>::empty());
            assert(s@.permissions =~= Seq::<SeqPermissionsV>::empty());
        }
        s
    }

    /// The sequence's address.
    pub fn address(&self) -> (a: Address)
        ensures
            a.key() == self@.addr,
    {
        self.address.clone_addr()
    }

    /// Whether the sequence is public (published).
    pub fn is_public(&self) -> (r: bool)
        ensures
            r == (self@.scope() == Scope::Public),
    {
        self.address.scope.is_public()
    }

    /// The number of entries, which is also the next entry index.
    pub fn entries_index(&self) -> (n: u64)
        ensures
            n as nat == self@.entries.len(),
    {
        self.entries.len() as u64
    }

    /// The length of the owners history.
    pub fn owners_index(&self) -> (n: u64)
        ensures
            n as nat == self@.owners.len(),
    {
        self.owners.len() as u64
    }

    /// The length of the permissions history.
    pub fn permissions_index(&self) -> (n: u64)
        ensures
            n as nat == self@.permissions.len(),
    {
        self.permissions.len() as u64
    }

    /// The last entry of the log, if any.
    pub fn last_entry(&self) -> (r: Option<Vec<u8>>)
        ensures
            match r {
                Some(e) => self@.entries.len() > 0 && e@ == self@.entries.last(),
                None => self@.entries.len() == 0,
            },
    {
        if self.entries.len() == 0 {
            None
        } else {
            Some(clone_bytes(&self.entries[self.entries.len() - 1]))
        }
    }

    /// The owner record at a history position.
    pub fn owner(&self, index: u64) -> (r: Option<Owner>)
        ensures
            match r {
                Some(o) => index < self@.owners.len() && o == self@.owners[index as int],
                None => index >= self@.owners.len(),
            },
    {
        if index < self.owners.len() as u64 {
            Some(self.owners[index as usize])
        } else {
            None
        }
    }

    /// The policy at a history position.
    pub fn permissions_at(&self, index: u64) -> (r: Option<SeqPermissions>)
        ensures
            match r {
                Some(p) => index < self@.permissions.len() && p@ == self@.permissions[index as int],
                None => index >= self@.permissions.len(),
            },
    {
        if index < self.permissions.len() as u64 {
            Some(self.permissions[index as usize].clone_perms())
        } else {
            None
        }
    }

    /// The grant recorded for `user` in the policy at a history position.
    /// `NoSuchEntry` when the position or the user is not recorded.
    pub fn user_permissions(&self, user: User, index: u64) -> (r: Result<SeqPermSet, Error>)
        ensures
            match r {
                Ok(p) => index < self@.permissions.len()
                    && lookup_user(self@.permissions[index as int].users, user) == Some(p),
                Err(e) => e@ == crate::types::ErrorV::NoSuchEntry
                    && (index >= self@.permissions.len()
                        || lookup_user(self@.permissions[index as int].users, user) is None),
            },
    {
        if index < self.permissions.len() as u64 {
            match lookup_user_exec(&self.permissions[index as usize].users, user) {
                Some(p) => Ok(p),
                None => Err(Error::NoSuchEntry),
            }
        } else {
            Err(Error::NoSuchEntry)
        }
    }

    /// The log between two resolved positions; see `spec_in_range`.
    pub fn in_range(&self, from: SeqIndex, to: SeqIndex) -> (r: Option<Vec<Vec<u8>>>)
        ensures
            match (r, self@.spec_in_range(from, to)) {
                (Some(v), Some(s)) => v@.map_values(|e: Vec<u8>| e@) == s,
                (None, None) => true,
                _ => false,
            },
    {
        let len = self.entries.len();
        let s: usize = match from {
            SeqIndex::FromStart(n) => {
                if n <= len as u64 {
                    n as usize
                } else {
                    return None;
                }
            }
            SeqIndex::FromEnd(n) => {
                if n <= len as u64 {
                    len - n as usize
                } else {
                    return None;
                }
            }
        };
        let e: usize = match to {
            SeqIndex::FromStart(n) => {
                if n <= len as u64 {
                    n as usize
                } else {
                    return None;
                }
            }
            SeqIndex::FromEnd(n) => {
                if n <= len as u64 {
                    len - n as usize
                } else {
                    return None;
                }
            }
        };
        if s >= e {
            return None;
        }
        let mut out: Vec<Vec<u8>> = Vec::new();
        let mut i: usize = s;
        while i < e
            invariant
                s <= i <= e <= self.entries@.len(),
                out@.len() == i - s,
                forall|j: int| 0 <= j < out@.len() ==> out@[j]@ == self@.entries[s + j],
            decreases e - i,
        {
            proof {
                assert(self@.entries[i as int] == self.entries@[i as int]@);
            }
            out.push(clone_bytes(&self.entries[i]));
            i += 1;
        }
        proof {
            let shown = self@.spec_in_range(from, to);
            assert(shown == Some(self@.entries.subrange(s as int, e as int)));
            assert(out@.map_values(|e2: Vec<u8>| e2@) =~= self@.entries.subrange(
                s as int,
                e as int,
            ));
        }
        Some(out)
    }

    /// Whether `pk` may perform `action`; `AccessDenied` otherwise.
    pub fn check_permission(&self, action: SeqAction, pk: u64) -> (r: Result<(), Error>)
        ensures
            match r {
                Ok(()) => self@.is_permitted(pk, action),
                Err(e) => e@ == crate::types::ErrorV::AccessDenied && !self@.is_permitted(pk, action),
            },
    {
        if self.is_last_owner_check(pk) {
            return Ok(());
        }
        if self.address.scope.is_public() && matches!(action, SeqAction::Read) {
            return Ok(());
        }
        if self.permissions.len() == 0 {
            return Err(Error::AccessDenied);
        }
        let users = &self.permissions[self.permissions.len() - 1].users;
        proof {
            assert(self@.current_perms() == Some(self@.permissions.last()));
            assert(self@.permissions.last().users == users@);
        }
        let explicit = match lookup_user_exec(users, User::Key(pk)) {
            Some(p) => p,
            None => SeqPermSet { read: false, append: false, manage: false },
        };
        let anyone = match lookup_user_exec(users, User::Anyone) {
            Some(p) => p,
            None => SeqPermSet { read: false, append: false, manage: false },
        };
        let eff = SeqPermSet {
            read: explicit.read || anyone.read,
            append: explicit.append || anyone.append,
            manage: explicit.manage || anyone.manage,
        };
        proof {
            assert(eff == effective_perms(self@.permissions.last().users, pk));
        }
        let allowed = match action {
            SeqAction::Read => eff.read,
            SeqAction::Append => eff.append,
            SeqAction::ManagePermissions => eff.manage,
        };
        if allowed {
            Ok(())
        } else {
            Err(Error::AccessDenied)
        }
    }

    fn is_last_owner_check(&self, pk: u64) -> (r: bool)
        ensures
            r == self@.is_last_owner(pk),
    {
        if self.owners.len() == 0 {
            false
        } else {
            self.owners[self.owners.len() - 1].public_key == pk
        }
    }

    /// Whether `pk` is the current last owner; `InvalidOwners` otherwise.
    pub fn check_is_last_owner(&self, pk: u64) -> (r: Result<(), Error>)
        ensures
            match r {
                Ok(()) => self@.is_last_owner(pk),
                Err(e) => e@ == crate::types::ErrorV::InvalidOwners && !self@.is_last_owner(pk),
            },
    {
        if self.is_last_owner_check(pk) {
            Ok(())
        } else {
            Err(Error::InvalidOwners)
        }
    }

    /// Append one entry to the log. Fails only where the object's total
    /// size would no longer fit the machine's accounting.
    pub fn append_entry(&mut self, entry: Vec<u8>) -> (r: Result<(), Error>)
        requires
            old(self).valid(),
        ensures
            final(self).valid(),
            match r {
                Ok(()) => {
                    &&& final(self)@.entries == old(self)@.entries.push(entry@)
                    &&& final(self)@.addr == old(self)@.addr
                    &&& final(self)@.owners == old(self)@.owners
                    &&& final(self)@.permissions == old(self)@.permissions
                },
                Err(e) => {
                    &&& *final(self) == *old(self)
                    &&& e@ == crate::types::ErrorV::NotEnoughSpace
                    &&& bytes_total(old(self)@.entries) + entry@.len() > u64::MAX as nat
                },
            },
    {
        let current = self.stored_size();
        if entry.len() as u64 > u64::MAX - current {
            return Err(Error::NotEnoughSpace);
        }
        let ghost pre = self@.entries;
        self.entries.push(entry);
        proof {
            assert(self@.entries =~= pre.push(self.entries@.last()@));
            lemma_bytes_total_push(pre, self@.entries.last());
        }
        Ok(())
    }

    /// Append one owner record to the owners history.
    pub fn append_owner(&mut self, owner: Owner)
        requires
            old(self).valid(),
        ensures
            final(self).valid(),
            final(self)@.owners == old(self)@.owners.push(owner),
            final(self)@.addr == old(self)@.addr,
            final(self)@.entries == old(self)@.entries,
            final(self)@.permissions == old(self)@.permissions,
    {
        self.owners.push(owner);
    }

    /// Append one policy to the permissions history.
    pub fn append_permissions(&mut self, perms: SeqPermissions)
        requires
            old(self).valid(),
        ensures
            final(self).valid(),
            final(self)@.permissions == old(self)@.permissions.push(perms@),
            final(self)@.addr == old(self)@.addr,
            final(self)@.entries == old(self)@.entries,
            final(self)@.owners == old(self)@.owners,
    {
        let ghost pre = self@.permissions;
        let ghost pv = perms@;
        self.permissions.push(perms);
        proof {
            assert(self@.permissions =~= pre.push(pv));
        }
    }
}

pub proof fn lemma_bytes_total_push(s: Seq<Seq<u8>>, x: Seq<u8>)
    ensures
        bytes_total(s.push(x)) == bytes_total(s) + x.len(),
    decreases s.len(),
{
    if s.len() == 0 {
        assert(s.push(x).drop_first() =~= s);
    } else {
        assert(s.push(x).drop_first() =~= s.drop_first().push(x));
        lemma_bytes_total_push(s.drop_first(), x);
    }
}

proof fn lemma_bytes_total_skip(s: Seq<Seq<u8>>, i: int)
    requires
        0 <= i < s.len(),
    ensures
        bytes_total(s.skip(i)) == s[i].len() + bytes_total(s.skip(i + 1)),
{
    assert(s.skip(i).drop_first() =~= s.skip(i + 1));
    assert(s.skip(i)[0] == s[i]);
}

impl Chunk for Sequence {
    open spec fn key_spec(&self) -> AddrKey {
        self@.addr
    }

    open spec fn size_spec(&self) -> nat {
        bytes_total(self@.entries)
    }

    open spec fn valid(&self) -> bool {
        &&& self@.addr.0 == Kind::Sequence
        &&& bytes_total(self@.entries) <= u64::MAX as nat
    }

    fn matches_addr(&self, addr: &Address) -> (r: bool)
        ensures
            r == (self.key_spec() == addr.key()),
    {
        self.address.matches(addr)
    }

    fn stored_size(&self) -> (n: u64)
        ensures
            n as nat == self.size_spec(),
    {
        let ghost view = self@.entries;
        let mut acc: u64 = 0;
        let mut i: usize = 0;
        proof {
            assert(view.skip(0) =~= view);
        }
        while i < self.entries.len()
            invariant
                i <= self.entries@.len(),
                view == self@.entries,
                view.len() == self.entries@.len(),
                forall|j: int| 0 <= j < view.len() ==> view[j] == self.entries@[j]@,
                acc as nat + bytes_total(view.skip(i as int)) == bytes_total(view),
                bytes_total(view) <= u64::MAX as nat,
            decreases self.entries.len() - i,
        {
            proof {
                lemma_bytes_total_skip(view, i as int);
            }
            acc = acc + self.entries[i].len() as u64;
            i += 1;
        }
        proof {
            assert(view.skip(view.len() as int) =~= Seq::<Seq<u8>>::empty());
        }
        acc
    }

    fn chunk_addr(&self) -> (a: Address)
        ensures
            a.key() == self.key_spec(),
    {
        self.address.clone_addr()
    }

    fn clone_chunk(&self) -> (c: Self)
        ensures
            c@ == self@,
            c.key_spec() == self.key_spec(),
            c.size_spec() == self.size_spec(),
            c.valid(),
    {
        let mut entries: Vec<Vec<u8>> = Vec::new();
        let mut i: usize = 0;
        while i < self.entries.len()
            invariant
                i <= self.entries@.len(),
                entries@.len() == i,
                forall|j: int| 0 <= j < i ==> entries@[j]@ == self.entries@[j]@,
            decreases self.entries.len() - i,
        {
            entries.push(clone_bytes(&self.entries[i]));
            i += 1;
        }
        let mut permissions: Vec<SeqPermissions> = Vec::new();
        let mut i: usize = 0;
        while i < self.permissions.len()
            invariant
                i <= self.permissions@.len(),
                permissions@.len() == i,
                forall|j: int| 0 <= j < i ==> permissions@[j]@ == self.permissions@[j]@,
            decreases self.permissions.len() - i,
        {
            permissions.push(self.permissions[i].clone_perms());
            i += 1;
        }
        let c = Sequence {
            address: self.address.clone_addr(),
            entries,
            owners: clone_copy_vec(&self.owners),
            permissions,
        };
        proof {
            assert(c@.entries =~= self@.entries);
            assert(c@.permissions =~= self@.permissions);
            assert(c@ == self@);
        }
        c
    }
}

} // verus!
