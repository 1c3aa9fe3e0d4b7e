//! The elder-side authoritative store for append-only sequence objects.
//!
//! Every write is load, permission check, apply, store; reads answer with a
//! query response, writes answer only on failure, with a command error.
//! Deleting a public sequence is forbidden: published data is permanent.
//! The store shares the node's capacity: every write carries the bytes the
//! node holds in its other stores, and the cap applies to the sum.

use vstd::prelude::*;

use crate::chunk_store::{Chunk, ChunkStore};
use crate::rpc::{
    Action, IndexedEntry, Message, OwnerWriteOp, PermsWriteOp, Response, SequenceRead,
    SequenceWrite, SequenceWriteOp,
};
use crate::sequence::{bytes_total, lookup_user, Owner, SeqAction, SeqIndex, SeqPermSet,
    SeqPermissions, Sequence, SequenceV, User};
use crate::types::{AddrKey, Address, Error, ErrorV, PublicId, Scope};

verus! {

/// The authoritative sequence store of one elder.
pub struct SequenceStorage {
    id: u64,
    chunks: ChunkStore<Sequence>,
}

impl SequenceStorage {
    /// The sequences this elder holds.
    pub closed spec fn store(self) -> ChunkStore<Sequence> {
        self.chunks
    }

    pub open spec fn wf(self) -> bool {
        self.store().wf()
    }

    /// Whether a sequence is held under key `k`.
    pub open spec fn spec_has(self, k: AddrKey) -> bool {
        self.store().spec_has(k)
    }

    /// The mathematical view of the sequence held under key `k`.
    pub open spec fn spec_at(self, k: AddrKey) -> SequenceV {
        self.store().spec_get(k)@
    }

    /// Every address but `k` holds exactly what it held, and the capacity
    /// stands.
    pub open spec fn frame_except(pre: SequenceStorage, post: SequenceStorage, k: AddrKey) -> bool {
        &&& post.store().spec_capacity() == pre.store().spec_capacity()
        &&& forall|k2: AddrKey| k2 != k ==> #[trigger] post.spec_has(k2) == pre.spec_has(k2)
        &&& forall|k2: AddrKey|
            k2 != k && pre.spec_has(k2) ==> #[trigger] post.store().spec_get(k2) == pre.store()
                .spec_get(k2)
    }

    /// A fresh storage with an empty store of the given capacity.
    pub fn new(id: u64, max_capacity: u64) -> (s: SequenceStorage)
        ensures
            s.wf(),
            s.store().objects().len() == 0,
            s.store().spec_used() == 0,
            s.store().spec_capacity() == max_capacity as nat,
    {
        SequenceStorage { id, chunks: ChunkStore::new(max_capacity) }
    }

    /// Route one read to its handler; the reply is the handler's reply.
    pub fn read(&self, read: &SequenceRead, msg_id: u64, origin: &PublicId) -> (r: Option<Action>)
        requires
            self.wf(),
        ensures
            match *read {
                SequenceRead::Get(address) => Self::get_post(*self, address, msg_id, *origin, r),
                SequenceRead::GetRange { address, from, to } => Self::get_range_post(
                    *self,
                    address,
                    from,
                    to,
                    msg_id,
                    *origin,
                    r,
                ),
                SequenceRead::GetLastEntry(address) => Self::get_last_entry_post(
                    *self,
                    address,
                    msg_id,
                    *origin,
                    r,
                ),
                SequenceRead::GetOwner { address, index } => Self::get_owner_post(
                    *self,
                    address,
                    index,
                    msg_id,
                    *origin,
                    r,
                ),
                SequenceRead::GetUserPermissions { address, user, index } => Self::get_user_permissions_post(
                    *self,
                    address,
                    user,
                    index,
                    msg_id,
                    *origin,
                    r,
                ),
                SequenceRead::GetPermissions { address, index } => Self::get_permissions_post(
                    *self,
                    address,
                    index,
                    msg_id,
                    *origin,
                    r,
                ),
            },
    {
        match read {
            SequenceRead::Get(address) => self.get(address, msg_id, origin),
            SequenceRead::GetRange { address, from, to } => self.get_range(
                address,
                *from,
                *to,
                msg_id,
                origin,
            ),
            SequenceRead::GetLastEntry(address) => self.get_last_entry(address, msg_id, origin),
            SequenceRead::GetOwner { address, index } => self.get_owner(
                address,
                *index,
                msg_id,
                origin,
            ),
            SequenceRead::GetUserPermissions { address, user, index } => self.get_user_permissions(
                address,
                *user,
                *index,
                msg_id,
                origin,
            ),
            SequenceRead::GetPermissions { address, index } => self.get_permissions(
                address,
                *index,
                msg_id,
                origin,
            ),
        }
    }

    /// Route one write to its handler; the outcome is the handler's
    /// outcome. `outside_used` is what the node's other stores hold.
    pub fn write(&mut self, write: SequenceWrite, msg_id: u64, origin: &PublicId, outside_used: u64)
        -> (r: Option<Action>)
        requires
            old(self).wf(),
            outside_used + old(self).store().spec_used() <= old(self).store().spec_capacity(),
            write matches SequenceWrite::New(data) ==> data.valid(),
        ensures
            final(self).wf(),
            match write {
                SequenceWrite::New(data) => Self::store_new_post(
                    *old(self),
                    *final(self),
                    data,
                    msg_id,
                    *origin,
                    outside_used as nat,
                    r,
                ),
                SequenceWrite::Edit(op) => Self::edit_post(
                    *old(self),
                    *final(self),
                    op,
                    msg_id,
                    *origin,
                    outside_used as nat,
                    r,
                ),
                SequenceWrite::Delete(address) => Self::delete_write_post(
                    *old(self),
                    *final(self),
                    address,
                    msg_id,
                    *origin,
                    r,
                ),
                SequenceWrite::SetOwner(op) => Self::set_owner_post(
                    *old(self),
                    *final(self),
                    op,
                    msg_id,
                    *origin,
                    outside_used as nat,
                    r,
                ),
                SequenceWrite::SetPubPermissions(op) => Self::perms_write_post(
                    *old(self),
                    *final(self),
                    op,
                    msg_id,
                    *origin,
                    outside_used as nat,
                    r,
                ),
                SequenceWrite::SetPrivPermissions(op) => Self::perms_write_post(
                    *old(self),
                    *final(self),
                    op,
                    msg_id,
                    *origin,
                    outside_used as nat,
                    r,
                ),
            },
    {
        match write {
            SequenceWrite::New(data) => self.store_new(data, msg_id, origin, outside_used),
            SequenceWrite::Edit(op) => self.edit(op, msg_id, origin, outside_used),
            SequenceWrite::Delete(address) => self.delete(&address, msg_id, origin),
            SequenceWrite::SetOwner(op) => self.set_owner(op, msg_id, origin, outside_used),
            SequenceWrite::SetPubPermissions(op) => self.set_public_permissions(
                op,
                msg_id,
                origin,
                outside_used,
            ),
            SequenceWrite::SetPrivPermissions(op) => self.set_private_permissions(
                op,
                msg_id,
                origin,
                outside_used,
            ),
        }
    }

    /// One command-error reply to the origin, or nothing on success.
    fn ok_or_error(&self, result: Result<(), Error>, msg_id: u64, origin: &PublicId) -> (r: Option<
        Action,
    >)
        ensures
            match result {
                Ok(()) => r is None,
                Err(e) => match r {
                    Some(Action::SendToClient { client, message }) => client == *origin && (message
                        matches Message::CmdError { error, correlation_id } && error@ == e@
                        && correlation_id == msg_id),
                    _ => false,
                },
            },
    {
        match result {
            Ok(()) => None,
            Err(error) => Some(
                Action::SendToClient {
                    client: *origin,
                    message: Message::CmdError { error, correlation_id: msg_id },
                },
            ),
        }
    }

    /// Load a chunk for the given action: the sequence if it is present and
    /// the origin's key may act on it; `NoSuchData` or `AccessDenied` if not.
    fn get_chunk(&self, address: &Address, action: SeqAction, pk: u64) -> (r: Result<
        Sequence,
        Error,
    >)
        requires
            self.wf(),
        ensures
            match r {
                Ok(s) => {
                    &&& self.spec_has(address.key())
                    &&& self.spec_at(address.key()).is_permitted(pk, action)
                    &&& s@ == self.spec_at(address.key())
                    &&& s.valid()
                    &&& s.size_spec() == self.store().spec_get(address.key()).size_spec()
                    &&& s.key_spec() == address.key()
                },
                Err(e) => if !self.spec_has(address.key()) {
                    e@ == ErrorV::NoSuchData
                } else {
                    e@ == ErrorV::AccessDenied && !self.spec_at(address.key()).is_permitted(
                        pk,
                        action,
                    )
                },
            },
    {
        let data = match self.chunks.get(address) {
            Ok(s) => s,
            Err(_) => {
                return Err(Error::NoSuchData);
            }
        };
        match data.check_permission(action, pk) {
            Ok(()) => Ok(data),
            Err(e) => Err(e),
        }
    }

    /// What creating a sequence does: held from now on under its address —
    /// weighing its size on the shared account — unless one already exists
    /// there (`DataExists`) or the node has no room (`NotEnoughSpace`).
    /// Success is silent.
    pub open spec fn store_new_post(
        pre: SequenceStorage,
        post: SequenceStorage,
        data: Sequence,
        msg_id: u64,
        origin: PublicId,
        outside_used: nat,
        r: Option<Action>,
    ) -> bool {
        match r {
            None => {
                &&& !pre.spec_has(data.key_spec())
                &&& post.spec_has(data.key_spec())
                &&& post.spec_at(data.key_spec()) == data@
                &&& post.store().spec_used() == pre.store().spec_used() + data.size_spec()
                &&& outside_used + post.store().spec_used() <= post.store().spec_capacity()
                &&& Self::frame_except(pre, post, data.key_spec())
            },
            Some(Action::SendToClient { client, message }) => {
                &&& post == pre
                &&& client == origin
                &&& match message {
                    Message::CmdError { error, correlation_id } => {
                        &&& correlation_id == msg_id
                        &&& if pre.spec_has(data.key_spec()) {
                            error@ == ErrorV::DataExists
                        } else {
                            error@ == ErrorV::NotEnoughSpace && outside_used + pre.store()
                                .spec_used() + data.size_spec() > pre.store().spec_capacity()
                        }
                    },
                    _ => false,
                }
            },
            _ => false,
        }
    }

    fn store_new(&mut self, data: Sequence, msg_id: u64, origin: &PublicId, outside_used: u64)
        -> (r: Option<Action>)
        requires
            old(self).wf(),
            outside_used + old(self).store().spec_used() <= old(self).store().spec_capacity(),
            data.valid(),
        ensures
            final(self).wf(),
            Self::store_new_post(
                *old(self),
                *final(self),
                data,
                msg_id,
                *origin,
                outside_used as nat,
                r,
            ),
    {
        let addr = data.address();
        let result: Result<(), Error> = if self.chunks.has(&addr) {
            Err(Error::DataExists)
        } else {
            match self.chunks.put(data, outside_used) {
                Ok(()) => Ok(()),
                Err(_) => Err(Error::NotEnoughSpace),
            }
        };
        self.ok_or_error(result, msg_id, origin)
    }

    /// What a whole-sequence read answers.
    pub open spec fn get_post(
        h: SequenceStorage,
        address: Address,
        msg_id: u64,
        origin: PublicId,
        r: Option<Action>,
    ) -> bool {
        match r {
            Some(Action::SendToClient { client, message }) => {
                &&& client == origin
                &&& match message {
                    Message::QueryResponse { response: Response::GetSequence(result), correlation_id } => {
                        &&& correlation_id == msg_id
                        &&& match result {
                            Ok(s) => {
                                &&& h.spec_has(address.key())
                                &&& h.spec_at(address.key()).is_permitted(
                                    origin.spec_public_key(),
                                    SeqAction::Read,
                                )
                                &&& s@ == h.spec_at(address.key())
                            },
                            Err(e) => if !h.spec_has(address.key()) {
                                e@ == ErrorV::NoSuchData
                            } else {
                                e@ == ErrorV::AccessDenied && !h.spec_at(
                                    address.key(),
                                ).is_permitted(origin.spec_public_key(), SeqAction::Read)
                            },
                        }
                    },
                    _ => false,
                }
            },
            _ => false,
        }
    }

    fn get(&self, address: &Address, msg_id: u64, origin: &PublicId) -> (r: Option<Action>)
        requires
            self.wf(),
        ensures
            Self::get_post(*self, *address, msg_id, *origin, r),
    {
        let result = self.get_chunk(address, SeqAction::Read, origin.public_key());
        Some(
            Action::SendToClient {
                client: *origin,
                message: Message::QueryResponse {
                    response: Response::GetSequence(result),
                    correlation_id: msg_id,
                },
            },
        )
    }

    /// What a ranged read answers: the entries between the two resolved
    /// positions, `NoSuchEntry` when the range is empty or out of bounds.
    pub open spec fn get_range_post(
        h: SequenceStorage,
        address: Address,
        from: SeqIndex,
        to: SeqIndex,
        msg_id: u64,
        origin: PublicId,
        r: Option<Action>,
    ) -> bool {
        match r {
            Some(Action::SendToClient { client, message }) => {
                &&& client == origin
                &&& match message {
                    Message::QueryResponse { response: Response::GetSequenceRange(result), correlation_id } => {
                        &&& correlation_id == msg_id
                        &&& match result {
                            Ok(v) => {
                                &&& h.spec_has(address.key())
                                &&& h.spec_at(address.key()).is_permitted(
                                    origin.spec_public_key(),
                                    SeqAction::Read,
                                )
                                &&& match h.spec_at(address.key()).spec_in_range(from, to) {
                                    Some(s) => v@.map_values(|e: Vec<u8>| e@) == s,
                                    None => false,
                                }
                            },
                            Err(e) => if !h.spec_has(address.key()) {
                                e@ == ErrorV::NoSuchData
                            } else if !h.spec_at(address.key()).is_permitted(
                                origin.spec_public_key(),
                                SeqAction::Read,
                            ) {
                                e@ == ErrorV::AccessDenied
                            } else {
                                e@ == ErrorV::NoSuchEntry && h.spec_at(address.key()).spec_in_range(
                                    from,
                                    to,
                                ) is None
                            },
                        }
                    },
                    _ => false,
                }
            },
            _ => false,
        }
    }

    fn get_range(
        &self,
        address: &Address,
        from: SeqIndex,
        to: SeqIndex,
        msg_id: u64,
        origin: &PublicId,
    ) -> (r: Option<Action>)
        requires
            self.wf(),
        ensures
            Self::get_range_post(*self, *address, from, to, msg_id, *origin, r),
    {
        let result: Result<Vec<Vec<u8>>, Error> = match self.get_chunk(
            address,
            SeqAction::Read,
            origin.public_key(),
        ) {
            Ok(data) => match data.in_range(from, to) {
                Some(v) => Ok(v),
                None => Err(Error::NoSuchEntry),
            },
            Err(e) => Err(e),
        };
        Some(
            Action::SendToClient {
                client: *origin,
                message: Message::QueryResponse {
                    response: Response::GetSequenceRange(result),
                    correlation_id: msg_id,
                },
            },
        )
    }

    /// What a last-entry read answers: the final position and its entry,
    /// `NoSuchEntry` on an empty log.
    pub open spec fn get_last_entry_post(
        h: SequenceStorage,
        address: Address,
        msg_id: u64,
        origin: PublicId,
        r: Option<Action>,
    ) -> bool {
        match r {
            Some(Action::SendToClient { client, message }) => {
                &&& client == origin
                &&& match message {
                    Message::QueryResponse { response: Response::GetSequenceLastEntry(result), correlation_id } => {
                        &&& correlation_id == msg_id
                        &&& match result {
                            Ok(ie) => {
                                &&& h.spec_has(address.key())
                                &&& h.spec_at(address.key()).is_permitted(
                                    origin.spec_public_key(),
                                    SeqAction::Read,
                                )
                                &&& h.spec_at(address.key()).entries.len() > 0
                                &&& ie.index as nat == h.spec_at(address.key()).entries.len() - 1
                                &&& ie.entry@ == h.spec_at(address.key()).entries.last()
                            },
                            Err(e) => if !h.spec_has(address.key()) {
                                e@ == ErrorV::NoSuchData
                            } else if !h.spec_at(address.key()).is_permitted(
                                origin.spec_public_key(),
                                SeqAction::Read,
                            ) {
                                e@ == ErrorV::AccessDenied
                            } else {
                                e@ == ErrorV::NoSuchEntry && h.spec_at(
                                    address.key(),
                                ).entries.len() == 0
                            },
                        }
                    },
                    _ => false,
                }
            },
            _ => false,
        }
    }

    fn get_last_entry(&self, address: &Address, msg_id: u64, origin: &PublicId) -> (r: Option<
        Action,
    >)
        requires
            self.wf(),
        ensures
            Self::get_last_entry_post(*self, *address, msg_id, *origin, r),
    {
        let result: Result<IndexedEntry, Error> = match self.get_chunk(
            address,
            SeqAction::Read,
            origin.public_key(),
        ) {
            Ok(data) => match data.last_entry() {
                Some(entry) => Ok(IndexedEntry { index: data.entries_index() - 1, entry }),
                None => Err(Error::NoSuchEntry),
            },
            Err(e) => Err(e),
        };
        Some(
            Action::SendToClient {
                client: *origin,
                message: Message::QueryResponse {
                    response: Response::GetSequenceLastEntry(result),
                    correlation_id: msg_id,
                },
            },
        )
    }

    /// What an owner read answers: the owner record at the asked history
    /// position, `InvalidOwners` when the position is not recorded.
    pub open spec fn get_owner_post(
        h: SequenceStorage,
        address: Address,
        index: u64,
        msg_id: u64,
        origin: PublicId,
        r: Option<Action>,
    ) -> bool {
        match r {
            Some(Action::SendToClient { client, message }) => {
                &&& client == origin
                &&& match message {
                    Message::QueryResponse { response: Response::GetSequenceOwner(result), correlation_id } => {
                        &&& correlation_id == msg_id
                        &&& match result {
                            Ok(o) => {
                                &&& h.spec_has(address.key())
                                &&& h.spec_at(address.key()).is_permitted(
                                    origin.spec_public_key(),
                                    SeqAction::Read,
                                )
                                &&& index < h.spec_at(address.key()).owners.len()
                                &&& o == h.spec_at(address.key()).owners[index as int]
                            },
                            Err(e) => if !h.spec_has(address.key()) {
                                e@ == ErrorV::NoSuchData
                            } else if !h.spec_at(address.key()).is_permitted(
                                origin.spec_public_key(),
                                SeqAction::Read,
                            ) {
                                e@ == ErrorV::AccessDenied
                            } else {
                                e@ == ErrorV::InvalidOwners && index >= h.spec_at(
                                    address.key(),
                                ).owners.len()
                            },
                        }
                    },
                    _ => false,
                }
            },
            _ => false,
        }
    }

    fn get_owner(&self, address: &Address, index: u64, msg_id: u64, origin: &PublicId) -> (r:
        Option<Action>)
        requires
            self.wf(),
        ensures
            Self::get_owner_post(*self, *address, index, msg_id, *origin, r),
    {
        let result: Result<Owner, Error> = match self.get_chunk(
            address,
            SeqAction::Read,
            origin.public_key(),
        ) {
            Ok(data) => match data.owner(index) {
                Some(o) => Ok(o),
                None => Err(Error::InvalidOwners),
            },
            Err(e) => Err(e),
        };
        Some(
            Action::SendToClient {
                client: *origin,
                message: Message::QueryResponse {
                    response: Response::GetSequenceOwner(result),
                    correlation_id: msg_id,
                },
            },
        )
    }

    /// What a user-permissions read answers: the grant recorded for the
    /// user in the policy at the asked history position, `NoSuchEntry`
    /// when the position or the user is not recorded.
    pub open spec fn get_user_permissions_post(
        h: SequenceStorage,
        address: Address,
        user: User,
        index: u64,
        msg_id: u64,
        origin: PublicId,
        r: Option<Action>,
    ) -> bool {
        match r {
            Some(Action::SendToClient { client, message }) => {
                &&& client == origin
                &&& match message {
                    Message::QueryResponse { response: Response::GetSequenceUserPermissions(result), correlation_id } => {
                        &&& correlation_id == msg_id
                        &&& match result {
                            Ok(p) => {
                                &&& h.spec_has(address.key())
                                &&& h.spec_at(address.key()).is_permitted(
                                    origin.spec_public_key(),
                                    SeqAction::Read,
                                )
                                &&& index < h.spec_at(address.key()).permissions.len()
                                &&& lookup_user(
                                    h.spec_at(address.key()).permissions[index as int].users,
                                    user,
                                ) == Some(p)
                            },
                            Err(e) => if !h.spec_has(address.key()) {
                                e@ == ErrorV::NoSuchData
                            } else if !h.spec_at(address.key()).is_permitted(
                                origin.spec_public_key(),
                                SeqAction::Read,
                            ) {
                                e@ == ErrorV::AccessDenied
                            } else {
                                e@ == ErrorV::NoSuchEntry && (index >= h.spec_at(
                                    address.key(),
                                ).permissions.len() || lookup_user(
                                    h.spec_at(address.key()).permissions[index as int].users,
                                    user,
                                ) is None)
                            },
                        }
                    },
                    _ => false,
                }
            },
            _ => false,
        }
    }

    fn get_user_permissions(
        &self,
        address: &Address,
        user: User,
        index: u64,
        msg_id: u64,
        origin: &PublicId,
    ) -> (r: Option<Action>)
        requires
            self.wf(),
        ensures
            Self::get_user_permissions_post(*self, *address, user, index, msg_id, *origin, r),
    {
        let result: Result<SeqPermSet, Error> = match self.get_chunk(
            address,
            SeqAction::Read,
            origin.public_key(),
        ) {
            Ok(data) => data.user_permissions(user, index),
            Err(e) => Err(e),
        };
        Some(
            Action::SendToClient {
                client: *origin,
                message: Message::QueryResponse {
                    response: Response::GetSequenceUserPermissions(result),
                    correlation_id: msg_id,
                },
            },
        )
    }

    /// What a permissions read answers: the policy at the asked history
    /// position, `NoSuchEntry` when the position is not recorded.
    pub open spec fn get_permissions_post(
        h: SequenceStorage,
        address: Address,
        index: u64,
        msg_id: u64,
        origin: PublicId,
        r: Option<Action>,
    ) -> bool {
        match r {
            Some(Action::SendToClient { client, message }) => {
                &&& client == origin
                &&& match message {
                    Message::QueryResponse { response: Response::GetSequencePermissions(result), correlation_id } => {
                        &&& correlation_id == msg_id
                        &&& match result {
                            Ok(p) => {
                                &&& h.spec_has(address.key())
                                &&& h.spec_at(address.key()).is_permitted(
                                    origin.spec_public_key(),
                                    SeqAction::Read,
                                )
                                &&& index < h.spec_at(address.key()).permissions.len()
                                &&& p@ == h.spec_at(address.key()).permissions[index as int]
                            },
                            Err(e) => if !h.spec_has(address.key()) {
                                e@ == ErrorV::NoSuchData
                            } else if !h.spec_at(address.key()).is_permitted(
                                origin.spec_public_key(),
                                SeqAction::Read,
                            ) {
                                e@ == ErrorV::AccessDenied
                            } else {
                                e@ == ErrorV::NoSuchEntry && index >= h.spec_at(
                                    address.key(),
                                ).permissions.len()
                            },
                        }
                    },
                    _ => false,
                }
            },
            _ => false,
        }
    }

    fn get_permissions(&self, address: &Address, index: u64, msg_id: u64, origin: &PublicId) -> (r:
        Option<Action>)
        requires
            self.wf(),
        ensures
            Self::get_permissions_post(*self, *address, index, msg_id, *origin, r),
    {
        let result: Result<SeqPermissions, Error> = match self.get_chunk(
            address,
            SeqAction::Read,
            origin.public_key(),
        ) {
            Ok(data) => match data.permissions_at(index) {
                Some(p) => Ok(p),
                None => Err(Error::NoSuchEntry),
            },
            Err(e) => Err(e),
        };
        Some(
            Action::SendToClient {
                client: *origin,
                message: Message::QueryResponse {
                    response: Response::GetSequencePermissions(result),
                    correlation_id: msg_id,
                },
            },
        )
    }

    /// What appending one entry does. Demands the append grant; success is
    /// silent, extends the log by exactly that entry, adds its bytes to
    /// the account, and moves nothing else.
    pub open spec fn edit_post(
        pre: SequenceStorage,
        post: SequenceStorage,
        op: SequenceWriteOp,
        msg_id: u64,
        origin: PublicId,
        outside_used: nat,
        r: Option<Action>,
    ) -> bool {
        match r {
            None => {
                &&& pre.spec_has(op.address.key())
                &&& pre.spec_at(op.address.key()).is_permitted(
                    origin.spec_public_key(),
                    SeqAction::Append,
                )
                &&& post.spec_has(op.address.key())
                &&& post.spec_at(op.address.key()).entries == pre.spec_at(
                    op.address.key(),
                ).entries.push(op.entry@)
                &&& post.spec_at(op.address.key()).owners == pre.spec_at(op.address.key()).owners
                &&& post.spec_at(op.address.key()).permissions == pre.spec_at(
                    op.address.key(),
                ).permissions
                &&& post.spec_at(op.address.key()).addr == pre.spec_at(op.address.key()).addr
                &&& post.store().spec_used() == pre.store().spec_used() + op.entry@.len()
                &&& outside_used + post.store().spec_used() <= post.store().spec_capacity()
                &&& Self::frame_except(pre, post, op.address.key())
            },
            Some(Action::SendToClient { client, message }) => {
                &&& post == pre
                &&& client == origin
                &&& match message {
                    Message::CmdError { error, correlation_id } => {
                        &&& correlation_id == msg_id
                        &&& if !pre.spec_has(op.address.key()) {
                            error@ == ErrorV::NoSuchData
                        } else if !pre.spec_at(op.address.key()).is_permitted(
                            origin.spec_public_key(),
                            SeqAction::Append,
                        ) {
                            error@ == ErrorV::AccessDenied
                        } else {
                            error@ == ErrorV::NotEnoughSpace && (bytes_total(
                                pre.spec_at(op.address.key()).entries,
                            ) + op.entry@.len() > u64::MAX as nat || outside_used + pre.store()
                                .spec_used() + bytes_total(pre.spec_at(op.address.key()).entries)
                                + op.entry@.len() > pre.store().spec_capacity())
                        }
                    },
                    _ => false,
                }
            },
            _ => false,
        }
    }

    fn edit(&mut self, op: SequenceWriteOp, msg_id: u64, origin: &PublicId, outside_used: u64)
        -> (r: Option<Action>)
        requires
            old(self).wf(),
            outside_used + old(self).store().spec_used() <= old(self).store().spec_capacity(),
        ensures
            final(self).wf(),
            Self::edit_post(
                *old(self),
                *final(self),
                op,
                msg_id,
                *origin,
                outside_used as nat,
                r,
            ),
    {
        let ghost entry_view = op.entry@;
        let result: Result<(), Error> = match self.get_chunk(
            &op.address,
            SeqAction::Append,
            origin.public_key(),
        ) {
            Ok(mut data) => {
                let ghost pre_entries = data@.entries;
                match data.append_entry(op.entry) {
                    Ok(()) => {
                        proof {
                            crate::sequence::lemma_bytes_total_push(pre_entries, entry_view);
                        }
                        match self.chunks.put(data, outside_used) {
                            Ok(()) => Ok(()),
                            Err(_) => Err(Error::NotEnoughSpace),
                        }
                    }
                    Err(e) => Err(e),
                }
            }
            Err(e) => Err(e),
        };
        self.ok_or_error(result, msg_id, origin)
    }

    /// What appending one owner record does. Demands the manage grant;
    /// success is silent, the account does not move, nothing else moves.
    pub open spec fn set_owner_post(
        pre: SequenceStorage,
        post: SequenceStorage,
        op: OwnerWriteOp,
        msg_id: u64,
        origin: PublicId,
        outside_used: nat,
        r: Option<Action>,
    ) -> bool {
        match r {
            None => {
                &&& pre.spec_has(op.address.key())
                &&& pre.spec_at(op.address.key()).is_permitted(
                    origin.spec_public_key(),
                    SeqAction::ManagePermissions,
                )
                &&& post.spec_has(op.address.key())
                &&& post.spec_at(op.address.key()).owners == pre.spec_at(
                    op.address.key(),
                ).owners.push(op.owner)
                &&& post.spec_at(op.address.key()).entries == pre.spec_at(op.address.key()).entries
                &&& post.spec_at(op.address.key()).permissions == pre.spec_at(
                    op.address.key(),
                ).permissions
                &&& post.store().spec_used() == pre.store().spec_used()
                &&& outside_used + post.store().spec_used() <= post.store().spec_capacity()
                &&& Self::frame_except(pre, post, op.address.key())
            },
            Some(Action::SendToClient { client, message }) => {
                &&& post == pre
                &&& client == origin
                &&& match message {
                    Message::CmdError { error, correlation_id } => {
                        &&& correlation_id == msg_id
                        &&& if !pre.spec_has(op.address.key()) {
                            error@ == ErrorV::NoSuchData
                        } else if !pre.spec_at(op.address.key()).is_permitted(
                            origin.spec_public_key(),
                            SeqAction::ManagePermissions,
                        ) {
                            error@ == ErrorV::AccessDenied
                        } else {
                            error@ == ErrorV::NotEnoughSpace && outside_used + pre.store()
                                .spec_used() + bytes_total(pre.spec_at(op.address.key()).entries)
                                > pre.store().spec_capacity()
                        }
                    },
                    _ => false,
                }
            },
            _ => false,
        }
    }

    fn set_owner(&mut self, op: OwnerWriteOp, msg_id: u64, origin: &PublicId, outside_used: u64)
        -> (r: Option<Action>)
        requires
            old(self).wf(),
            outside_used + old(self).store().spec_used() <= old(self).store().spec_capacity(),
        ensures
            final(self).wf(),
            Self::set_owner_post(
                *old(self),
                *final(self),
                op,
                msg_id,
                *origin,
                outside_used as nat,
                r,
            ),
    {
        let result: Result<(), Error> = match self.get_chunk(
            &op.address,
            SeqAction::ManagePermissions,
            origin.public_key(),
        ) {
            Ok(mut data) => {
                data.append_owner(op.owner);
                match self.chunks.put(data, outside_used) {
                    Ok(()) => Ok(()),
                    Err(_) => Err(Error::NotEnoughSpace),
                }
            }
            Err(e) => Err(e),
        };
        self.ok_or_error(result, msg_id, origin)
    }

    /// What appending one policy does: on success the permissions history
    /// grows by the given policy, the account does not move, and nothing
    /// else moves; failures report the missing chunk, the missing grant,
    /// or the missing room.
    pub open spec fn perms_write_post(
        pre: SequenceStorage,
        post: SequenceStorage,
        op: PermsWriteOp,
        msg_id: u64,
        origin: PublicId,
        outside_used: nat,
        r: Option<Action>,
    ) -> bool {
        match r {
            None => {
                &&& pre.spec_has(op.address.key())
                &&& pre.spec_at(op.address.key()).is_permitted(
                    origin.spec_public_key(),
                    SeqAction::ManagePermissions,
                )
                &&& post.spec_has(op.address.key())
                &&& post.spec_at(op.address.key()).permissions == pre.spec_at(
                    op.address.key(),
                ).permissions.push(op.permissions@)
                &&& post.spec_at(op.address.key()).entries == pre.spec_at(op.address.key()).entries
                &&& post.spec_at(op.address.key()).owners == pre.spec_at(op.address.key()).owners
                &&& post.store().spec_used() == pre.store().spec_used()
                &&& outside_used + post.store().spec_used() <= post.store().spec_capacity()
                &&& Self::frame_except(pre, post, op.address.key())
            },
            Some(Action::SendToClient { client, message }) => {
                &&& post == pre
                &&& client == origin
                &&& match message {
                    Message::CmdError { error, correlation_id } => {
                        &&& correlation_id == msg_id
                        &&& if !pre.spec_has(op.address.key()) {
                            error@ == ErrorV::NoSuchData
                        } else if !pre.spec_at(op.address.key()).is_permitted(
                            origin.spec_public_key(),
                            SeqAction::ManagePermissions,
                        ) {
                            error@ == ErrorV::AccessDenied
                        } else {
                            error@ == ErrorV::NotEnoughSpace && outside_used + pre.store()
                                .spec_used() + bytes_total(pre.spec_at(op.address.key()).entries)
                                > pre.store().spec_capacity()
                        }
                    },
                    _ => false,
                }
            },
            _ => false,
        }
    }

    /// Append one policy for a public sequence; see `perms_write_post`.
    fn set_public_permissions(
        &mut self,
        op: PermsWriteOp,
        msg_id: u64,
        origin: &PublicId,
        outside_used: u64,
    ) -> (r: Option<Action>)
        requires
            old(self).wf(),
            outside_used + old(self).store().spec_used() <= old(self).store().spec_capacity(),
        ensures
            final(self).wf(),
            Self::perms_write_post(
                *old(self),
                *final(self),
                op,
                msg_id,
                *origin,
                outside_used as nat,
                r,
            ),
    {
        self.apply_permissions(op, msg_id, origin, outside_used)
    }

    /// Append one policy for a private sequence; see `perms_write_post`.
    fn set_private_permissions(
        &mut self,
        op: PermsWriteOp,
        msg_id: u64,
        origin: &PublicId,
        outside_used: u64,
    ) -> (r: Option<Action>)
        requires
            old(self).wf(),
            outside_used + old(self).store().spec_used() <= old(self).store().spec_capacity(),
        ensures
            final(self).wf(),
            Self::perms_write_post(
                *old(self),
                *final(self),
                op,
                msg_id,
                *origin,
                outside_used as nat,
                r,
            ),
    {
        self.apply_permissions(op, msg_id, origin, outside_used)
    }

    fn apply_permissions(
        &mut self,
        op: PermsWriteOp,
        msg_id: u64,
        origin: &PublicId,
        outside_used: u64,
    ) -> (r: Option<Action>)
        requires
            old(self).wf(),
            outside_used + old(self).store().spec_used() <= old(self).store().spec_capacity(),
        ensures
            final(self).wf(),
            Self::perms_write_post(
                *old(self),
                *final(self),
                op,
                msg_id,
                *origin,
                outside_used as nat,
                r,
            ),
    {
        let result: Result<(), Error> = match self.get_chunk(
            &op.address,
            SeqAction::ManagePermissions,
            origin.public_key(),
        ) {
            Ok(mut data) => {
                data.append_permissions(op.permissions);
                match self.chunks.put(data, outside_used) {
                    Ok(()) => Ok(()),
                    Err(_) => Err(Error::NotEnoughSpace),
                }
            }
            Err(e) => Err(e),
        };
        self.ok_or_error(result, msg_id, origin)
    }

    /// What deleting a sequence does. A public sequence is permanent: the
    /// attempt is refused as `InvalidOperation` and the sequence stays
    /// retrievable. A private one goes only at the word of its current
    /// last owner; its bytes come off the account, and nothing else moves.
    /// Success is silent.
    pub open spec fn delete_write_post(
        pre: SequenceStorage,
        post: SequenceStorage,
        address: Address,
        msg_id: u64,
        origin: PublicId,
        r: Option<Action>,
    ) -> bool {
        &&& (pre.spec_has(address.key()) && address.key().2 == Scope::Public ==> post == pre
            && post.spec_has(address.key()))
        &&& match r {
            None => {
                &&& pre.spec_has(address.key())
                &&& address.key().2 != Scope::Public
                &&& pre.spec_at(address.key()).is_last_owner(origin.spec_public_key())
                &&& !post.spec_has(address.key())
                &&& post.store().spec_used() + bytes_total(pre.spec_at(address.key()).entries)
                    == pre.store().spec_used()
                &&& Self::frame_except(pre, post, address.key())
            },
            Some(Action::SendToClient { client, message }) => {
                &&& post == pre
                &&& client == origin
                &&& match message {
                    Message::CmdError { error, correlation_id } => {
                        &&& correlation_id == msg_id
                        &&& if !pre.spec_has(address.key()) {
                            error@ == ErrorV::NoSuchData
                        } else if address.key().2 == Scope::Public {
                            error@ == ErrorV::InvalidOperation
                        } else {
                            error@ == ErrorV::InvalidOwners && !pre.spec_at(
                                address.key(),
                            ).is_last_owner(origin.spec_public_key())
                        }
                    },
                    _ => false,
                }
            },
            _ => false,
        }
    }

    fn delete(&mut self, address: &Address, msg_id: u64, origin: &PublicId) -> (r: Option<Action>)
        requires
            old(self).wf(),
        ensures
            final(self).wf(),
            Self::delete_write_post(*old(self), *final(self), *address, msg_id, *origin, r),
    {
        let result: Result<(), Error> = match self.chunks.get(address) {
            Err(_) => Err(Error::NoSuchData),
            Ok(data) => {
                if address.scope.is_public() {
                    Err(Error::InvalidOperation)
                } else {
                    match data.check_is_last_owner(origin.public_key()) {
                        Err(e) => Err(e),
                        Ok(()) => match self.chunks.delete(address) {
                            Ok(()) => Ok(()),
                            Err(_) => {
                                proof {
                                    assert(false);
                                }
                                Err(Error::NoSuchData)
                            }
                        },
                    }
                }
            }
        };
        self.ok_or_error(result, msg_id, origin)
    }

    /// The bytes currently held.
    pub fn used_space(&self) -> (n: u64)
        ensures
            n as nat == self.store().spec_used(),
    {
        self.chunks.used_space()
    }
}

} // verus!
