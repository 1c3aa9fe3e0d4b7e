//! The elder-side authoritative store for mutable maps.
//!
//! Reads demand the read grant; permission changes demand the manage grant
//! and the exact successor of the map's version; entry mutations apply as
//! an atomic batch; deletion is the sole owner's privilege. Every request
//! is answered with exactly one response to the origin. The store shares
//! the node's capacity: every write carries the bytes the node holds in
//! its other stores, and the cap applies to the sum.

use vstd::prelude::*;

use crate::chunk_store::{Chunk, ChunkStore};
use crate::mdata::{
    apply_actions, find_entry, lookup_map_user, mdata_bytes, EntryAction, MapPermSet, MutableMap,
    MutableMapV,
};
use crate::rpc::{Action, Message, Response};
use crate::sequence::User;
use crate::types::{AddrKey, Address, Error, ErrorV, PublicId};

verus! {

/// The authoritative mutable-map store of one elder.
pub struct MDataHandler {
    id: u64,
    chunks: ChunkStore<MutableMap>,
}

impl MDataHandler {
    /// The maps this elder holds.
    pub closed spec fn store(self) -> ChunkStore<MutableMap> {
        self.chunks
    }

    pub open spec fn wf(self) -> bool {
        self.store().wf()
    }

    /// Whether a map is held under key `k`.
    pub open spec fn spec_has(self, k: AddrKey) -> bool {
        self.store().spec_has(k)
    }

    /// The mathematical view of the map held under key `k`.
    pub open spec fn spec_at(self, k: AddrKey) -> MutableMapV {
        self.store().spec_get(k)@
    }

    /// Every address but `k` holds exactly what it held, and the capacity
    /// stands.
    pub open spec fn frame_except(pre: MDataHandler, post: MDataHandler, k: AddrKey) -> bool {
        &&& post.store().spec_capacity() == pre.store().spec_capacity()
        &&& forall|k2: AddrKey| k2 != k ==> #[trigger] post.spec_has(k2) == pre.spec_has(k2)
        &&& forall|k2: AddrKey|
            k2 != k && pre.spec_has(k2) ==> #[trigger] post.store().spec_get(k2) == pre.store()
                .spec_get(k2)
    }

    /// One query response to the origin, correlated with `msg_id`.
    pub open spec fn reply_to(origin: PublicId, response: Response, msg_id: u64) -> Option<Action> {
        Some(
            Action::SendToClient {
                client: origin,
                message: Message::QueryResponse { response, correlation_id: msg_id },
            },
        )
    }

    /// A fresh handler with an empty store of the given capacity.
    pub fn new(id: u64, max_capacity: u64) -> (h: MDataHandler)
        ensures
            h.wf(),
            h.store().objects().len() == 0,
            h.store().spec_used() == 0,
            h.store().spec_capacity() == max_capacity as nat,
    {
        MDataHandler { id, chunks: ChunkStore::new(max_capacity) }
    }

    fn respond(&self, origin: &PublicId, response: Response, msg_id: u64) -> (r: Option<Action>)
        ensures
            r == Self::reply_to(*origin, response, msg_id),
    {
        Some(
            Action::SendToClient {
                client: *origin,
                message: Message::QueryResponse { response, correlation_id: msg_id },
            },
        )
    }

    /// What creating a map does: it must not exist yet, the requester's key
    /// must be the map's owner, and the node must have room for it; one
    /// mutation response reports the outcome.
    pub open spec fn put_post(
        pre: MDataHandler,
        post: MDataHandler,
        origin: PublicId,
        data: MutableMap,
        message_id: u64,
        outside_used: nat,
        r: Option<Action>,
    ) -> bool {
        match r {
            Some(Action::SendToClient { client, message }) => {
                &&& client == origin
                &&& match message {
                    Message::QueryResponse { response: Response::Mutation(result), correlation_id } => {
                        &&& correlation_id == message_id
                        &&& match result {
                            Ok(()) => {
                                &&& !pre.spec_has(data.key_spec())
                                &&& data@.owner == origin.spec_public_key()
                                &&& post.spec_has(data.key_spec())
                                &&& post.spec_at(data.key_spec()) == data@
                                &&& post.store().spec_used() == pre.store().spec_used()
                                    + data.size_spec()
                                &&& outside_used + post.store().spec_used() <= post.store()
                                    .spec_capacity()
                                &&& Self::frame_except(pre, post, data.key_spec())
                            },
                            Err(e) => {
                                &&& post == pre
                                &&& if pre.spec_has(data.key_spec()) {
                                    e@ == ErrorV::DataExists
                                } else if data@.owner != origin.spec_public_key() {
                                    e@ == ErrorV::InvalidOwners
                                } else {
                                    e@ == ErrorV::NotEnoughSpace && outside_used + pre.store()
                                        .spec_used() + data.size_spec() > pre.store()
                                        .spec_capacity()
                                }
                            },
                        }
                    },
                    _ => false,
                }
            },
            _ => false,
        }
    }

    /// Create a map; see `put_post`.
    pub fn handle_put_mdata_req(
        &mut self,
        origin: &PublicId,
        data: MutableMap,
        message_id: u64,
        outside_used: u64,
    ) -> (r: Option<Action>)
        requires
            old(self).wf(),
            outside_used + old(self).store().spec_used() <= old(self).store().spec_capacity(),
            data.valid(),
        ensures
            final(self).wf(),
            Self::put_post(
                *old(self),
                *final(self),
                *origin,
                data,
                message_id,
                outside_used as nat,
                r,
            ),
    {
        let addr = data.address();
        let result: Result<(), Error> = if self.chunks.has(&addr) {
            Err(Error::DataExists)
        } else if data.owner() != origin.public_key() {
            Err(Error::InvalidOwners)
        } else {
            match self.chunks.put(data, outside_used) {
                Ok(()) => Ok(()),
                Err(_) => Err(Error::NotEnoughSpace),
            }
        };
        self.respond(origin, Response::Mutation(result), message_id)
    }

    /// Load a map for reading: it must exist and grant the origin's key
    /// the read bit.
    fn read_chunk(&self, address: &Address, pk: u64) -> (r: Result<MutableMap, Error>)
        requires
            self.wf(),
        ensures
            match r {
                Ok(m) => {
                    &&& self.spec_has(address.key())
                    &&& self.spec_at(address.key()).effective(pk).read
                    &&& m@ == self.spec_at(address.key())
                    &&& m.valid()
                },
                Err(e) => if !self.spec_has(address.key()) {
                    e@ == ErrorV::NoSuchData
                } else {
                    e@ == ErrorV::AccessDenied && !self.spec_at(address.key()).effective(pk).read
                },
            },
    {
        let data = match self.chunks.get(address) {
            Ok(m) => m,
            Err(_) => {
                return Err(Error::NoSuchData);
            }
        };
        match data.check_read(pk) {
            Ok(()) => Ok(data),
            Err(e) => Err(e),
        }
    }

    /// The two errors every map read shares: the missing chunk, then the
    /// missing read grant.
    pub open spec fn read_err(h: MDataHandler, address: Address, origin: PublicId, e: Error) -> bool {
        if !h.spec_has(address.key()) {
            e@ == ErrorV::NoSuchData
        } else {
            e@ == ErrorV::AccessDenied && !h.spec_at(address.key()).effective(
                origin.spec_public_key(),
            ).read
        }
    }

    /// What a whole-map read answers.
    pub open spec fn get_post(
        h: MDataHandler,
        address: Address,
        origin: PublicId,
        message_id: u64,
        r: Option<Action>,
    ) -> bool {
        match r {
            Some(Action::SendToClient { client, message }) => {
                &&& client == origin
                &&& match message {
                    Message::QueryResponse { response: Response::GetMData(result), correlation_id } => {
                        &&& correlation_id == message_id
                        &&& match result {
                            Ok(m) => h.spec_has(address.key()) && m@ == h.spec_at(address.key())
                                && h.spec_at(address.key()).effective(
                                origin.spec_public_key(),
                            ).read,
                            Err(e) => Self::read_err(h, address, origin, e),
                        }
                    },
                    _ => false,
                }
            },
            _ => false,
        }
    }

    /// Answer a whole-map read; see `get_post`.
    pub fn handle_get_mdata_req(&self, origin: &PublicId, address: &Address, message_id: u64)
        -> (r: Option<Action>)
        requires
            self.wf(),
        ensures
            Self::get_post(*self, *address, *origin, message_id, r),
    {
        let result = self.read_chunk(address, origin.public_key());
        self.respond(origin, Response::GetMData(result), message_id)
    }

    /// What a shell read answers: the map without its entries.
    pub open spec fn shell_post(
        h: MDataHandler,
        address: Address,
        origin: PublicId,
        message_id: u64,
        r: Option<Action>,
    ) -> bool {
        match r {
            Some(Action::SendToClient { client, message }) => {
                &&& client == origin
                &&& match message {
                    Message::QueryResponse { response: Response::GetMDataShell(result), correlation_id } => {
                        &&& correlation_id == message_id
                        &&& match result {
                            Ok(m) => {
                                &&& h.spec_has(address.key())
                                &&& m@.addr == h.spec_at(address.key()).addr
                                &&& m@.version == h.spec_at(address.key()).version
                                &&& m@.owner == h.spec_at(address.key()).owner
                                &&& m@.permissions == h.spec_at(address.key()).permissions
                                &&& m@.entries.len() == 0
                            },
                            Err(e) => Self::read_err(h, address, origin, e),
                        }
                    },
                    _ => false,
                }
            },
            _ => false,
        }
    }

    /// Answer a shell read; see `shell_post`.
    pub fn handle_get_mdata_shell_req(&self, origin: &PublicId, address: &Address, message_id: u64)
        -> (r: Option<Action>)
        requires
            self.wf(),
        ensures
            Self::shell_post(*self, *address, *origin, message_id, r),
    {
        let result: Result<MutableMap, Error> = match self.read_chunk(
            address,
            origin.public_key(),
        ) {
            Ok(m) => Ok(m.shell()),
            Err(e) => Err(e),
        };
        self.respond(origin, Response::GetMDataShell(result), message_id)
    }

    /// What a version read answers: the map's top-level version.
    pub open spec fn version_post(
        h: MDataHandler,
        address: Address,
        origin: PublicId,
        message_id: u64,
        r: Option<Action>,
    ) -> bool {
        match r {
            Some(Action::SendToClient { client, message }) => {
                &&& client == origin
                &&& match message {
                    Message::QueryResponse { response: Response::GetMDataVersion(result), correlation_id } => {
                        &&& correlation_id == message_id
                        &&& match result {
                            Ok(v) => h.spec_has(address.key()) && v == h.spec_at(
                                address.key(),
                            ).version && h.spec_at(address.key()).effective(
                                origin.spec_public_key(),
                            ).read,
                            Err(e) => Self::read_err(h, address, origin, e),
                        }
                    },
                    _ => false,
                }
            },
            _ => false,
        }
    }

    /// Answer a version read; see `version_post`.
    pub fn handle_get_mdata_version_req(
        &self,
        origin: &PublicId,
        address: &Address,
        message_id: u64,
    ) -> (r: Option<Action>)
        requires
            self.wf(),
        ensures
            Self::version_post(*self, *address, *origin, message_id, r),
    {
        let result: Result<u64, Error> = match self.read_chunk(address, origin.public_key()) {
            Ok(m) => Ok(m.version()),
            Err(e) => Err(e),
        };
        self.respond(origin, Response::GetMDataVersion(result), message_id)
    }

    /// What a single-value read answers: the value under the key,
    /// `NoSuchEntry` when the key is absent.
    pub open spec fn value_post(
        h: MDataHandler,
        address: Address,
        key: Seq<u8>,
        origin: PublicId,
        message_id: u64,
        r: Option<Action>,
    ) -> bool {
        match r {
            Some(Action::SendToClient { client, message }) => {
                &&& client == origin
                &&& match message {
                    Message::QueryResponse { response: Response::GetMDataValue(result), correlation_id } => {
                        &&& correlation_id == message_id
                        &&& match result {
                            Ok(v) => {
                                &&& h.spec_has(address.key())
                                &&& match find_entry(h.spec_at(address.key()).entries, key) {
                                    Some(e) => v@ == e.value,
                                    None => false,
                                }
                            },
                            Err(e) => if !h.spec_has(address.key()) {
                                e@ == ErrorV::NoSuchData
                            } else if !h.spec_at(address.key()).effective(
                                origin.spec_public_key(),
                            ).read {
                                e@ == ErrorV::AccessDenied
                            } else {
                                e@ == ErrorV::NoSuchEntry && find_entry(
                                    h.spec_at(address.key()).entries,
                                    key,
                                ) is None
                            },
                        }
                    },
                    _ => false,
                }
            },
            _ => false,
        }
    }

    /// Answer a single-value read; see `value_post`.
    pub fn handle_get_mdata_value_req(
        &self,
        origin: &PublicId,
        address: &Address,
        key: &Vec<u8>,
        message_id: u64,
    ) -> (r: Option<Action>)
        requires
            self.wf(),
        ensures
            Self::value_post(*self, *address, key@, *origin, message_id, r),
    {
        let result: Result<Vec<u8>, Error> = match self.read_chunk(address, origin.public_key()) {
            Ok(m) => m.get_value(key),
            Err(e) => Err(e),
        };
        self.respond(origin, Response::GetMDataValue(result), message_id)
    }

    /// What an entries listing answers.
    pub open spec fn list_entries_post(
        h: MDataHandler,
        address: Address,
        origin: PublicId,
        message_id: u64,
        r: Option<Action>,
    ) -> bool {
        match r {
            Some(Action::SendToClient { client, message }) => {
                &&& client == origin
                &&& match message {
                    Message::QueryResponse { response: Response::ListMDataEntries(result), correlation_id } => {
                        &&& correlation_id == message_id
                        &&& match result {
                            Ok(v) => h.spec_has(address.key()) && v@.map_values(
                                |e: crate::mdata::MapEntry| e@,
                            ) == h.spec_at(address.key()).entries,
                            Err(e) => Self::read_err(h, address, origin, e),
                        }
                    },
                    _ => false,
                }
            },
            _ => false,
        }
    }

    /// Answer an entries listing; see `list_entries_post`.
    pub fn handle_list_mdata_entries_req(
        &self,
        origin: &PublicId,
        address: &Address,
        message_id: u64,
    ) -> (r: Option<Action>)
        requires
            self.wf(),
        ensures
            Self::list_entries_post(*self, *address, *origin, message_id, r),
    {
        let result = match self.read_chunk(address, origin.public_key()) {
            Ok(m) => Ok(m.list_entries()),
            Err(e) => Err(e),
        };
        self.respond(origin, Response::ListMDataEntries(result), message_id)
    }

    /// What a keys listing answers.
    pub open spec fn list_keys_post(
        h: MDataHandler,
        address: Address,
        origin: PublicId,
        message_id: u64,
        r: Option<Action>,
    ) -> bool {
        match r {
            Some(Action::SendToClient { client, message }) => {
                &&& client == origin
                &&& match message {
                    Message::QueryResponse { response: Response::ListMDataKeys(result), correlation_id } => {
                        &&& correlation_id == message_id
                        &&& match result {
                            Ok(v) => h.spec_has(address.key()) && v@.len() == h.spec_at(
                                address.key(),
                            ).entries.len() && forall|j: int|
                                0 <= j < v@.len() ==> (#[trigger] v@[j])@ == h.spec_at(
                                    address.key(),
                                ).entries[j].key,
                            Err(e) => Self::read_err(h, address, origin, e),
                        }
                    },
                    _ => false,
                }
            },
            _ => false,
        }
    }

    /// Answer a keys listing; see `list_keys_post`.
    pub fn handle_list_mdata_keys_req(
        &self,
        origin: &PublicId,
        address: &Address,
        message_id: u64,
    ) -> (r: Option<Action>)
        requires
            self.wf(),
        ensures
            Self::list_keys_post(*self, *address, *origin, message_id, r),
    {
        let result = match self.read_chunk(address, origin.public_key()) {
            Ok(m) => Ok(m.list_keys()),
            Err(e) => Err(e),
        };
        self.respond(origin, Response::ListMDataKeys(result), message_id)
    }

    /// What a values listing answers.
    pub open spec fn list_values_post(
        h: MDataHandler,
        address: Address,
        origin: PublicId,
        message_id: u64,
        r: Option<Action>,
    ) -> bool {
        match r {
            Some(Action::SendToClient { client, message }) => {
                &&& client == origin
                &&& match message {
                    Message::QueryResponse { response: Response::ListMDataValues(result), correlation_id } => {
                        &&& correlation_id == message_id
                        &&& match result {
                            Ok(v) => h.spec_has(address.key()) && v@.len() == h.spec_at(
                                address.key(),
                            ).entries.len() && forall|j: int|
                                0 <= j < v@.len() ==> (#[trigger] v@[j])@ == h.spec_at(
                                    address.key(),
                                ).entries[j].value,
                            Err(e) => Self::read_err(h, address, origin, e),
                        }
                    },
                    _ => false,
                }
            },
            _ => false,
        }
    }

    /// Answer a values listing; see `list_values_post`.
    pub fn handle_list_mdata_values_req(
        &self,
        origin: &PublicId,
        address: &Address,
        message_id: u64,
    ) -> (r: Option<Action>)
        requires
            self.wf(),
        ensures
            Self::list_values_post(*self, *address, *origin, message_id, r),
    {
        let result = match self.read_chunk(address, origin.public_key()) {
            Ok(m) => Ok(m.list_values()),
            Err(e) => Err(e),
        };
        self.respond(origin, Response::ListMDataValues(result), message_id)
    }

    /// What a permissions listing answers: the whole policy.
    pub open spec fn list_permissions_post(
        h: MDataHandler,
        address: Address,
        origin: PublicId,
        message_id: u64,
        r: Option<Action>,
    ) -> bool {
        match r {
            Some(Action::SendToClient { client, message }) => {
                &&& client == origin
                &&& match message {
                    Message::QueryResponse { response: Response::ListMDataPermissions(result), correlation_id } => {
                        &&& correlation_id == message_id
                        &&& match result {
                            Ok(v) => h.spec_has(address.key()) && v@ == h.spec_at(
                                address.key(),
                            ).permissions,
                            Err(e) => Self::read_err(h, address, origin, e),
                        }
                    },
                    _ => false,
                }
            },
            _ => false,
        }
    }

    /// Answer a permissions listing; see `list_permissions_post`.
    pub fn handle_list_mdata_permissions_req(
        &self,
        origin: &PublicId,
        address: &Address,
        message_id: u64,
    ) -> (r: Option<Action>)
        requires
            self.wf(),
        ensures
            Self::list_permissions_post(*self, *address, *origin, message_id, r),
    {
        let result = match self.read_chunk(address, origin.public_key()) {
            Ok(m) => Ok(m.list_permissions()),
            Err(e) => Err(e),
        };
        self.respond(origin, Response::ListMDataPermissions(result), message_id)
    }

    /// What a user-permissions read answers: the grant recorded for the
    /// user, `NoSuchEntry` when none is.
    pub open spec fn list_user_permissions_post(
        h: MDataHandler,
        address: Address,
        user: User,
        origin: PublicId,
        message_id: u64,
        r: Option<Action>,
    ) -> bool {
        match r {
            Some(Action::SendToClient { client, message }) => {
                &&& client == origin
                &&& match message {
                    Message::QueryResponse { response: Response::ListMDataUserPermissions(result), correlation_id } => {
                        &&& correlation_id == message_id
                        &&& match result {
                            Ok(p) => h.spec_has(address.key()) && lookup_map_user(
                                h.spec_at(address.key()).permissions,
                                user,
                            ) == Some(p),
                            Err(e) => if !h.spec_has(address.key()) {
                                e@ == ErrorV::NoSuchData
                            } else if !h.spec_at(address.key()).effective(
                                origin.spec_public_key(),
                            ).read {
                                e@ == ErrorV::AccessDenied
                            } else {
                                e@ == ErrorV::NoSuchEntry && lookup_map_user(
                                    h.spec_at(address.key()).permissions,
                                    user,
                                ) is None
                            },
                        }
                    },
                    _ => false,
                }
            },
            _ => false,
        }
    }

    /// Answer a user-permissions read; see `list_user_permissions_post`.
    pub fn handle_list_mdata_user_permissions_req(
        &self,
        origin: &PublicId,
        address: &Address,
        user: User,
        message_id: u64,
    ) -> (r: Option<Action>)
        requires
            self.wf(),
        ensures
            Self::list_user_permissions_post(*self, *address, user, *origin, message_id, r),
    {
        let result: Result<MapPermSet, Error> = match self.read_chunk(
            address,
            origin.public_key(),
        ) {
            Ok(m) => m.user_permissions(user),
            Err(e) => Err(e),
        };
        self.respond(origin, Response::ListMDataUserPermissions(result), message_id)
    }

    /// What recording a grant does: demands the manage grant and the exact
    /// successor of the map's version; on success only that user's lookup
    /// changes, the entries and the account stand, and nothing else moves.
    pub open spec fn set_perms_post(
        pre: MDataHandler,
        post: MDataHandler,
        address: Address,
        user: User,
        permissions: MapPermSet,
        version: u64,
        origin: PublicId,
        message_id: u64,
        outside_used: nat,
        r: Option<Action>,
    ) -> bool {
        match r {
            Some(Action::SendToClient { client, message }) => {
                &&& client == origin
                &&& match message {
                    Message::QueryResponse { response: Response::Mutation(result), correlation_id } => {
                        &&& correlation_id == message_id
                        &&& match result {
                            Ok(()) => {
                                &&& pre.spec_has(address.key())
                                &&& pre.spec_at(address.key()).effective(
                                    origin.spec_public_key(),
                                ).manage
                                &&& version == pre.spec_at(address.key()).version + 1
                                &&& post.spec_has(address.key())
                                &&& post.spec_at(address.key()).version == version
                                &&& lookup_map_user(
                                    post.spec_at(address.key()).permissions,
                                    user,
                                ) == Some(permissions)
                                &&& forall|u: User|
                                    u != user ==> #[trigger] lookup_map_user(
                                        post.spec_at(address.key()).permissions,
                                        u,
                                    ) == lookup_map_user(pre.spec_at(address.key()).permissions, u)
                                &&& post.spec_at(address.key()).entries == pre.spec_at(
                                    address.key(),
                                ).entries
                                &&& post.store().spec_used() == pre.store().spec_used()
                                &&& outside_used + post.store().spec_used() <= post.store()
                                    .spec_capacity()
                                &&& Self::frame_except(pre, post, address.key())
                            },
                            Err(e) => {
                                &&& post == pre
                                &&& if !pre.spec_has(address.key()) {
                                    e@ == ErrorV::NoSuchData
                                } else if !pre.spec_at(address.key()).effective(
                                    origin.spec_public_key(),
                                ).manage {
                                    e@ == ErrorV::AccessDenied
                                } else if version != pre.spec_at(address.key()).version + 1 {
                                    e@ == ErrorV::InvalidSuccessor(
                                        pre.spec_at(address.key()).version,
                                    )
                                } else {
                                    e@ == ErrorV::NotEnoughSpace && outside_used + pre.store()
                                        .spec_used() + mdata_bytes(
                                        pre.spec_at(address.key()).entries,
                                    ) > pre.store().spec_capacity()
                                }
                            },
                        }
                    },
                    _ => false,
                }
            },
            _ => false,
        }
    }

    /// Record a grant for `user`; see `set_perms_post`.
    pub fn handle_set_mdata_user_permissions_req(
        &mut self,
        origin: &PublicId,
        address: &Address,
        user: User,
        permissions: MapPermSet,
        version: u64,
        message_id: u64,
        outside_used: u64,
    ) -> (r: Option<Action>)
        requires
            old(self).wf(),
            outside_used + old(self).store().spec_used() <= old(self).store().spec_capacity(),
        ensures
            final(self).wf(),
            Self::set_perms_post(
                *old(self),
                *final(self),
                *address,
                user,
                permissions,
                version,
                *origin,
                message_id,
                outside_used as nat,
                r,
            ),
    {
        let result: Result<(), Error> = match self.chunks.get(address) {
            Err(_) => Err(Error::NoSuchData),
            Ok(mut m) => match m.set_user_permissions(user, permissions, version, origin.public_key()) {
                Err(e) => Err(e),
                Ok(()) => match self.chunks.put(m, outside_used) {
                    Ok(()) => Ok(()),
                    Err(_) => Err(Error::NotEnoughSpace),
                },
            },
        };
        self.respond(origin, Response::Mutation(result), message_id)
    }

    /// What dropping a grant does: demands the manage grant, the exact
    /// successor version, and an existing grant; on success that user's
    /// lookup is empty, the entries and the account stand, and nothing
    /// else moves.
    pub open spec fn del_perms_post(
        pre: MDataHandler,
        post: MDataHandler,
        address: Address,
        user: User,
        version: u64,
        origin: PublicId,
        message_id: u64,
        outside_used: nat,
        r: Option<Action>,
    ) -> bool {
        match r {
            Some(Action::SendToClient { client, message }) => {
                &&& client == origin
                &&& match message {
                    Message::QueryResponse { response: Response::Mutation(result), correlation_id } => {
                        &&& correlation_id == message_id
                        &&& match result {
                            Ok(()) => {
                                &&& pre.spec_has(address.key())
                                &&& pre.spec_at(address.key()).effective(
                                    origin.spec_public_key(),
                                ).manage
                                &&& version == pre.spec_at(address.key()).version + 1
                                &&& post.spec_has(address.key())
                                &&& post.spec_at(address.key()).version == version
                                &&& lookup_map_user(
                                    post.spec_at(address.key()).permissions,
                                    user,
                                ) is None
                                &&& forall|u: User|
                                    u != user ==> #[trigger] lookup_map_user(
                                        post.spec_at(address.key()).permissions,
                                        u,
                                    ) == lookup_map_user(pre.spec_at(address.key()).permissions, u)
                                &&& post.spec_at(address.key()).entries == pre.spec_at(
                                    address.key(),
                                ).entries
                                &&& post.store().spec_used() == pre.store().spec_used()
                                &&& outside_used + post.store().spec_used() <= post.store()
                                    .spec_capacity()
                                &&& Self::frame_except(pre, post, address.key())
                            },
                            Err(e) => {
                                &&& post == pre
                                &&& if !pre.spec_has(address.key()) {
                                    e@ == ErrorV::NoSuchData
                                } else if !pre.spec_at(address.key()).effective(
                                    origin.spec_public_key(),
                                ).manage {
                                    e@ == ErrorV::AccessDenied
                                } else if version != pre.spec_at(address.key()).version + 1 {
                                    e@ == ErrorV::InvalidSuccessor(
                                        pre.spec_at(address.key()).version,
                                    )
                                } else if lookup_map_user(
                                    pre.spec_at(address.key()).permissions,
                                    user,
                                ) is None {
                                    e@ == ErrorV::NoSuchEntry
                                } else {
                                    e@ == ErrorV::NotEnoughSpace && outside_used + pre.store()
                                        .spec_used() + mdata_bytes(
                                        pre.spec_at(address.key()).entries,
                                    ) > pre.store().spec_capacity()
                                }
                            },
                        }
                    },
                    _ => false,
                }
            },
            _ => false,
        }
    }

    /// Drop the grant recorded for `user`; see `del_perms_post`.
    pub fn handle_del_mdata_user_permissions_req(
        &mut self,
        origin: &PublicId,
        address: &Address,
        user: User,
        version: u64,
        message_id: u64,
        outside_used: u64,
    ) -> (r: Option<Action>)
        requires
            old(self).wf(),
            outside_used + old(self).store().spec_used() <= old(self).store().spec_capacity(),
        ensures
            final(self).wf(),
            Self::del_perms_post(
                *old(self),
                *final(self),
                *address,
                user,
                version,
                *origin,
                message_id,
                outside_used as nat,
                r,
            ),
    {
        let result: Result<(), Error> = match self.chunks.get(address) {
            Err(_) => Err(Error::NoSuchData),
            Ok(mut m) => match m.del_user_permissions(user, version, origin.public_key()) {
                Err(e) => Err(e),
                Ok(()) => match self.chunks.put(m, outside_used) {
                    Ok(()) => Ok(()),
                    Err(_) => Err(Error::NotEnoughSpace),
                },
            },
        };
        self.respond(origin, Response::Mutation(result), message_id)
    }

    /// What an atomic batch of entry actions does: the whole batch or
    /// nothing, under the origin's effective grant; the account follows
    /// the entries' bytes, and nothing else moves.
    pub open spec fn mutate_post(
        pre: MDataHandler,
        post: MDataHandler,
        address: Address,
        actions: Seq<crate::mdata::EntryActionV>,
        origin: PublicId,
        message_id: u64,
        outside_used: nat,
        r: Option<Action>,
    ) -> bool {
        match r {
            Some(Action::SendToClient { client, message }) => {
                &&& client == origin
                &&& match message {
                    Message::QueryResponse { response: Response::Mutation(result), correlation_id } => {
                        &&& correlation_id == message_id
                        &&& match result {
                            Ok(()) => {
                                &&& pre.spec_has(address.key())
                                &&& post.spec_has(address.key())
                                &&& apply_actions(
                                    pre.spec_at(address.key()).entries,
                                    actions,
                                    pre.spec_at(address.key()).effective(origin.spec_public_key()),
                                ) == Ok::<_, ErrorV>(post.spec_at(address.key()).entries)
                                &&& post.spec_at(address.key()).version == pre.spec_at(
                                    address.key(),
                                ).version
                                &&& post.spec_at(address.key()).permissions == pre.spec_at(
                                    address.key(),
                                ).permissions
                                &&& post.store().spec_used() + mdata_bytes(
                                    pre.spec_at(address.key()).entries,
                                ) == pre.store().spec_used() + mdata_bytes(
                                    post.spec_at(address.key()).entries,
                                )
                                &&& outside_used + post.store().spec_used() <= post.store()
                                    .spec_capacity()
                                &&& Self::frame_except(pre, post, address.key())
                            },
                            Err(e) => {
                                &&& post == pre
                                &&& if !pre.spec_has(address.key()) {
                                    e@ == ErrorV::NoSuchData
                                } else {
                                    match apply_actions(
                                        pre.spec_at(address.key()).entries,
                                        actions,
                                        pre.spec_at(address.key()).effective(
                                            origin.spec_public_key(),
                                        ),
                                    ) {
                                        Err(e2) => e@ == e2,
                                        Ok(e2) => e@ == ErrorV::NotEnoughSpace && (mdata_bytes(e2)
                                            > u64::MAX as nat || outside_used + pre.store()
                                            .spec_used() + mdata_bytes(e2) > pre.store()
                                            .spec_capacity()),
                                    }
                                }
                            },
                        }
                    },
                    _ => false,
                }
            },
            _ => false,
        }
    }

    /// Apply a batch of entry actions atomically; see `mutate_post`.
    pub fn handle_mutate_mdata_entries_req(
        &mut self,
        origin: &PublicId,
        address: &Address,
        actions: &Vec<EntryAction>,
        message_id: u64,
        outside_used: u64,
    ) -> (r: Option<Action>)
        requires
            old(self).wf(),
            outside_used + old(self).store().spec_used() <= old(self).store().spec_capacity(),
        ensures
            final(self).wf(),
            Self::mutate_post(
                *old(self),
                *final(self),
                *address,
                actions@.map_values(|a: EntryAction| a@),
                *origin,
                message_id,
                outside_used as nat,
                r,
            ),
    {
        let result: Result<(), Error> = match self.chunks.get(address) {
            Err(_) => Err(Error::NoSuchData),
            Ok(mut m) => match m.mutate_entries(actions, origin.public_key()) {
                Err(e) => Err(e),
                Ok(()) => match self.chunks.put(m, outside_used) {
                    Ok(()) => Ok(()),
                    Err(_) => Err(Error::NotEnoughSpace),
                },
            },
        };
        self.respond(origin, Response::Mutation(result), message_id)
    }

    /// What deleting a map does: the sole owner's privilege; on success the
    /// map is gone, its bytes come off the account, and nothing else moves.
    pub open spec fn delete_post(
        pre: MDataHandler,
        post: MDataHandler,
        address: Address,
        origin: PublicId,
        message_id: u64,
        r: Option<Action>,
    ) -> bool {
        match r {
            Some(Action::SendToClient { client, message }) => {
                &&& client == origin
                &&& match message {
                    Message::QueryResponse { response: Response::Mutation(result), correlation_id } => {
                        &&& correlation_id == message_id
                        &&& match result {
                            Ok(()) => {
                                &&& pre.spec_has(address.key())
                                &&& pre.spec_at(address.key()).owner == origin.spec_public_key()
                                &&& !post.spec_has(address.key())
                                &&& post.store().spec_used() + mdata_bytes(
                                    pre.spec_at(address.key()).entries,
                                ) == pre.store().spec_used()
                                &&& Self::frame_except(pre, post, address.key())
                            },
                            Err(e) => {
                                &&& post == pre
                                &&& if !pre.spec_has(address.key()) {
                                    e@ == ErrorV::NoSuchData
                                } else {
                                    e@ == ErrorV::InvalidOwners && pre.spec_at(
                                        address.key(),
                                    ).owner != origin.spec_public_key()
                                }
                            },
                        }
                    },
                    _ => false,
                }
            },
            _ => false,
        }
    }

    /// Delete a map; see `delete_post`.
    pub fn handle_delete_mdata_req(&mut self, origin: &PublicId, address: &Address, message_id: u64)
        -> (r: Option<Action>)
        requires
            old(self).wf(),
        ensures
            final(self).wf(),
            Self::delete_post(*old(self), *final(self), *address, *origin, message_id, r),
    {
        let result: Result<(), Error> = match self.chunks.get(address) {
            Err(_) => Err(Error::NoSuchData),
            Ok(m) => {
                if m.owner() != origin.public_key() {
                    Err(Error::InvalidOwners)
                } else {
                    match self.chunks.delete(address) {
                        Ok(()) => Ok(()),
                        Err(_) => {
                            proof {
                                assert(false);
                            }
                            Err(Error::NoSuchData)
                        }
                    }
                }
            }
        };
        self.respond(origin, Response::Mutation(result), message_id)
    }

    /// The bytes currently held.
    pub fn used_space(&self) -> (n: u64)
        ensures
            n as nat == self.store().spec_used(),
    {
        self.chunks.used_space()
    }
}

} // verus!
