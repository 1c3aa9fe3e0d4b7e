//! The single entry point: routing typed operations by node role and
//! request kind.
//!
//! An elder owns all four duties: the immutable-data coordinator, the
//! mutable-map and sequence stores, and — like every node — a replica
//! holder. An adult owns only the holder. Requests from node peers for
//! immutable data are served as a holder; client requests are elder
//! duties and are dropped with a trace on an adult. Unpublish-deletes
//! travel with the client's identity, so their fan-out is recognised by
//! the source being the chunk's own name. Requests outside the data
//! handler's scope are logged and dropped without a response, as are
//! response kinds no data handler emits.
//!
//! The node has one capacity and one account of used space: the three
//! chunk stores share them, and every store operation weighs the bytes
//! the sibling stores hold.

use vstd::prelude::*;

use crate::chunk_store::Chunk;
use crate::idata_handler::IDataHandler;
use crate::idata_holder::IDataHolder;
use crate::idata_op::HolderResult;
use crate::mdata_handler::MDataHandler;
use crate::rpc::{Action, Request, Response, Rpc, SequenceRead, SequenceWrite};
use crate::sequence_storage::SequenceStorage;
use crate::types::{bytes_eq, PublicId};

verus! {

/// Whether a request is none of the data handler's business: it is
/// logged and dropped without a response and without a state change.
pub open spec fn out_of_scope(req: Request) -> bool {
    ||| req matches Request::GetBalance
    ||| req matches Request::CreateLoginPacket
    ||| req matches Request::GetLoginPacket
    ||| req matches Request::ListAuthKeysAndVersion
    ||| req matches Request::TransferCoins
}

/// Whether a response kind can arrive at a data handler at all: only
/// mutation acks and get answers from holders do.
pub open spec fn foldable_response(resp: Response) -> bool {
    ||| resp matches Response::Mutation(_)
    ||| resp matches Response::GetIData(_)
}

/// Whether a request is an elder duty in every case: mutable-map and
/// sequence operations have no holder side at all.
pub open spec fn elder_only(req: Request) -> bool {
    match req {
        Request::PutMData(_)
        | Request::GetMData(_)
        | Request::GetMDataValue { .. }
        | Request::DeleteMData(_)
        | Request::GetMDataShell(_)
        | Request::GetMDataVersion(_)
        | Request::ListMDataEntries(_)
        | Request::ListMDataKeys(_)
        | Request::ListMDataValues(_)
        | Request::ListMDataPermissions(_)
        | Request::ListMDataUserPermissions { .. }
        | Request::SetMDataUserPermissions { .. }
        | Request::DelMDataUserPermissions { .. }
        | Request::MutateMDataEntries { .. }
        | Request::SequenceRead(_)
        | Request::SequenceWrite(_) => true,
        _ => false,
    }
}

/// The dispatcher: one per node.
pub struct DataHandler {
    id: u64,
    idata_holder: IDataHolder,
    idata_handler: Option<IDataHandler>,
    mdata_handler: Option<MDataHandler>,
    sequence_storage: Option<SequenceStorage>,
}

impl DataHandler {
    /// The replica holder every node runs.
    pub closed spec fn spec_holder(self) -> IDataHolder {
        self.idata_holder
    }

    /// The elder's immutable-data coordinator, if this node is one.
    pub closed spec fn spec_coordinator(self) -> Option<IDataHandler> {
        self.idata_handler
    }

    /// The elder's mutable-map store, if this node is one.
    pub closed spec fn spec_mdata(self) -> Option<MDataHandler> {
        self.mdata_handler
    }

    /// The elder's sequence store, if this node is one.
    pub closed spec fn spec_sequence(self) -> Option<SequenceStorage> {
        self.sequence_storage
    }

    /// Whether this node serves elder duties.
    pub open spec fn spec_is_elder(self) -> bool {
        self.spec_coordinator() is Some
    }

    /// The node's one configured capacity, shared by its stores.
    pub open spec fn spec_capacity(self) -> nat {
        self.spec_holder().store().spec_capacity()
    }

    /// The bytes the mutable-map store holds; an adult holds none.
    pub open spec fn spec_mdata_used(self) -> nat {
        match self.spec_mdata() {
            Some(h) => h.store().spec_used(),
            None => 0,
        }
    }

    /// The bytes the sequence store holds; an adult holds none.
    pub open spec fn spec_sequence_used(self) -> nat {
        match self.spec_sequence() {
            Some(s) => s.store().spec_used(),
            None => 0,
        }
    }

    /// The node's whole account of used space: the sum over its stores.
    pub open spec fn spec_total_used(self) -> nat {
        self.spec_holder().store().spec_used() + self.spec_mdata_used()
            + self.spec_sequence_used()
    }

    /// Well-formedness: every duty well-formed, an elder owning all three
    /// or an adult none, one capacity across the stores, and the whole
    /// account within it.
    pub open spec fn wf(self) -> bool {
        &&& self.spec_holder().wf()
        &&& match self.spec_coordinator() {
            Some(h) => h.wf(),
            None => true,
        }
        &&& match self.spec_mdata() {
            Some(h) => h.wf() && h.store().spec_capacity() == self.spec_capacity(),
            None => true,
        }
        &&& match self.spec_sequence() {
            Some(s) => s.wf() && s.store().spec_capacity() == self.spec_capacity(),
            None => true,
        }
        &&& (self.spec_coordinator() is Some) == (self.spec_mdata() is Some)
        &&& (self.spec_coordinator() is Some) == (self.spec_sequence() is Some)
        &&& self.spec_total_used() <= self.spec_capacity()
    }

    /// Construct the dispatcher for one node: an elder gets all four
    /// duties, an adult only the holder; everything starts empty, under
    /// one capacity, with the configured fan-out width.
    pub fn new(id: u64, max_capacity: u64, replica_count: u64, is_elder: bool) -> (h: DataHandler)
        requires
            replica_count >= 1,
        ensures
            h.wf(),
            h.spec_is_elder() == is_elder,
            h.spec_capacity() == max_capacity as nat,
            h.spec_total_used() == 0,
            h.spec_holder().store().objects().len() == 0,
            is_elder ==> match h.spec_coordinator() {
                Some(c) => c.spec_replica_count() == replica_count as nat && c.spec_ids().len()
                    == 0,
                None => false,
            },
            is_elder ==> match h.spec_mdata() {
                Some(m) => m.store().objects().len() == 0,
                None => false,
            },
            is_elder ==> match h.spec_sequence() {
                Some(s) => s.store().objects().len() == 0,
                None => false,
            },
    {
        let (idata_handler, mdata_handler, sequence_storage) = if is_elder {
            (
                Some(IDataHandler::new(id, replica_count)),
                Some(MDataHandler::new(id, max_capacity)),
                Some(SequenceStorage::new(id, max_capacity)),
            )
        } else {
            (None, None, None)
        };
        DataHandler {
            id,
            idata_holder: IDataHolder::new(id, max_capacity),
            idata_handler,
            mdata_handler,
            sequence_storage,
        }
    }

    /// What routing one request does, request kind by request kind: each
    /// outcome is the serving duty's outcome, the other duties stand
    /// untouched, and what no duty serves is dropped without a reply or a
    /// state change.
    pub open spec fn request_post(
        pre: DataHandler,
        post: DataHandler,
        src: Seq<u8>,
        requester: PublicId,
        request: Request,
        message_id: u64,
        r: Option<Action>,
    ) -> bool {
        match request {
            Request::PutIData(data) => if requester matches PublicId::Node(_) {
                &&& IDataHolder::store_post(
                    pre.spec_holder(),
                    post.spec_holder(),
                    data,
                    requester,
                    src,
                    message_id,
                    pre.spec_mdata_used() + pre.spec_sequence_used(),
                    r,
                )
                &&& post.spec_coordinator() == pre.spec_coordinator()
                &&& post.spec_mdata() == pre.spec_mdata()
                &&& post.spec_sequence() == pre.spec_sequence()
            } else {
                match (pre.spec_coordinator(), post.spec_coordinator()) {
                    (Some(c1), Some(c2)) => IDataHandler::put_req_post(
                        c1,
                        c2,
                        requester,
                        data,
                        message_id,
                        r,
                    ) && post.spec_holder() == pre.spec_holder() && post.spec_mdata()
                        == pre.spec_mdata() && post.spec_sequence() == pre.spec_sequence(),
                    (None, None) => r is None && post == pre,
                    _ => false,
                }
            },
            Request::GetIData(address) => if requester matches PublicId::Node(_) {
                &&& IDataHolder::get_post(pre.spec_holder(), address, src, message_id, r)
                &&& post == pre
            } else {
                match (pre.spec_coordinator(), post.spec_coordinator()) {
                    (Some(c1), Some(c2)) => IDataHandler::get_req_post(
                        c1,
                        c2,
                        requester,
                        address,
                        message_id,
                        r,
                    ) && post.spec_holder() == pre.spec_holder() && post.spec_mdata()
                        == pre.spec_mdata() && post.spec_sequence() == pre.spec_sequence(),
                    (None, None) => r is None && post == pre,
                    _ => false,
                }
            },
            Request::DeleteUnpubIData(address) => if requester matches PublicId::Node(_) || src
                == address.name@ {
                &&& IDataHolder::delete_post(
                    pre.spec_holder(),
                    post.spec_holder(),
                    address,
                    requester,
                    src,
                    message_id,
                    r,
                )
                &&& post.spec_coordinator() == pre.spec_coordinator()
                &&& post.spec_mdata() == pre.spec_mdata()
                &&& post.spec_sequence() == pre.spec_sequence()
            } else {
                match (pre.spec_coordinator(), post.spec_coordinator()) {
                    (Some(c1), Some(c2)) => IDataHandler::delete_req_post(
                        c1,
                        c2,
                        requester,
                        address,
                        message_id,
                        r,
                    ) && post.spec_holder() == pre.spec_holder() && post.spec_mdata()
                        == pre.spec_mdata() && post.spec_sequence() == pre.spec_sequence(),
                    (None, None) => r is None && post == pre,
                    _ => false,
                }
            },
            Request::PutMData(data) => match (pre.spec_mdata(), post.spec_mdata()) {
                (Some(m1), Some(m2)) => MDataHandler::put_post(
                    m1,
                    m2,
                    requester,
                    data,
                    message_id,
                    pre.spec_holder().store().spec_used() + pre.spec_sequence_used(),
                    r,
                ) && post.spec_holder() == pre.spec_holder() && post.spec_coordinator()
                    == pre.spec_coordinator() && post.spec_sequence() == pre.spec_sequence(),
                (None, None) => r is None && post == pre,
                _ => false,
            },
            Request::GetMData(address) => match pre.spec_mdata() {
                Some(m1) => MDataHandler::get_post(m1, address, requester, message_id, r) && post
                    == pre,
                None => r is None && post == pre,
            },
            Request::GetMDataValue { address, key } => match pre.spec_mdata() {
                Some(m1) => MDataHandler::value_post(m1, address, key@, requester, message_id, r)
                    && post == pre,
                None => r is None && post == pre,
            },
            Request::DeleteMData(address) => match (pre.spec_mdata(), post.spec_mdata()) {
                (Some(m1), Some(m2)) => MDataHandler::delete_post(
                    m1,
                    m2,
                    address,
                    requester,
                    message_id,
                    r,
                ) && post.spec_holder() == pre.spec_holder() && post.spec_coordinator()
                    == pre.spec_coordinator() && post.spec_sequence() == pre.spec_sequence(),
                (None, None) => r is None && post == pre,
                _ => false,
            },
            Request::GetMDataShell(address) => match pre.spec_mdata() {
                Some(m1) => MDataHandler::shell_post(m1, address, requester, message_id, r) && post
                    == pre,
                None => r is None && post == pre,
            },
            Request::GetMDataVersion(address) => match pre.spec_mdata() {
                Some(m1) => MDataHandler::version_post(m1, address, requester, message_id, r)
                    && post == pre,
                None => r is None && post == pre,
            },
            Request::ListMDataEntries(address) => match pre.spec_mdata() {
                Some(m1) => MDataHandler::list_entries_post(m1, address, requester, message_id, r)
                    && post == pre,
                None => r is None && post == pre,
            },
            Request::ListMDataKeys(address) => match pre.spec_mdata() {
                Some(m1) => MDataHandler::list_keys_post(m1, address, requester, message_id, r)
                    && post == pre,
                None => r is None && post == pre,
            },
            Request::ListMDataValues(address) => match pre.spec_mdata() {
                Some(m1) => MDataHandler::list_values_post(m1, address, requester, message_id, r)
                    && post == pre,
                None => r is None && post == pre,
            },
            Request::ListMDataPermissions(address) => match pre.spec_mdata() {
                Some(m1) => MDataHandler::list_permissions_post(
                    m1,
                    address,
                    requester,
                    message_id,
                    r,
                ) && post == pre,
                None => r is None && post == pre,
            },
            Request::ListMDataUserPermissions { address, user } => match pre.spec_mdata() {
                Some(m1) => MDataHandler::list_user_permissions_post(
                    m1,
                    address,
                    user,
                    requester,
                    message_id,
                    r,
                ) && post == pre,
                None => r is None && post == pre,
            },
            Request::SetMDataUserPermissions { address, user, permissions, version } => match (
                pre.spec_mdata(),
                post.spec_mdata(),
            ) {
                (Some(m1), Some(m2)) => MDataHandler::set_perms_post(
                    m1,
                    m2,
                    address,
                    user,
                    permissions,
                    version,
                    requester,
                    message_id,
                    pre.spec_holder().store().spec_used() + pre.spec_sequence_used(),
                    r,
                ) && post.spec_holder() == pre.spec_holder() && post.spec_coordinator()
                    == pre.spec_coordinator() && post.spec_sequence() == pre.spec_sequence(),
                (None, None) => r is None && post == pre,
                _ => false,
            },
            Request::DelMDataUserPermissions { address, user, version } => match (
                pre.spec_mdata(),
                post.spec_mdata(),
            ) {
                (Some(m1), Some(m2)) => MDataHandler::del_perms_post(
                    m1,
                    m2,
                    address,
                    user,
                    version,
                    requester,
                    message_id,
                    pre.spec_holder().store().spec_used() + pre.spec_sequence_used(),
                    r,
                ) && post.spec_holder() == pre.spec_holder() && post.spec_coordinator()
                    == pre.spec_coordinator() && post.spec_sequence() == pre.spec_sequence(),
                (None, None) => r is None && post == pre,
                _ => false,
            },
            Request::MutateMDataEntries { address, actions } => match (
                pre.spec_mdata(),
                post.spec_mdata(),
            ) {
                (Some(m1), Some(m2)) => MDataHandler::mutate_post(
                    m1,
                    m2,
                    address,
                    actions@.map_values(|a: crate::mdata::EntryAction| a@),
                    requester,
                    message_id,
                    pre.spec_holder().store().spec_used() + pre.spec_sequence_used(),
                    r,
                ) && post.spec_holder() == pre.spec_holder() && post.spec_coordinator()
                    == pre.spec_coordinator() && post.spec_sequence() == pre.spec_sequence(),
                (None, None) => r is None && post == pre,
                _ => false,
            },
            Request::SequenceRead(sr) => match pre.spec_sequence() {
                Some(st) => post == pre && match sr {
                    SequenceRead::Get(address) => SequenceStorage::get_post(
                        st,
                        address,
                        message_id,
                        requester,
                        r,
                    ),
                    SequenceRead::GetRange { address, from, to } => SequenceStorage::get_range_post(
                        st,
                        address,
                        from,
                        to,
                        message_id,
                        requester,
                        r,
                    ),
                    SequenceRead::GetLastEntry(address) => SequenceStorage::get_last_entry_post(
                        st,
                        address,
                        message_id,
                        requester,
                        r,
                    ),
                    SequenceRead::GetOwner { address, index } => SequenceStorage::get_owner_post(
                        st,
                        address,
                        index,
                        message_id,
                        requester,
                        r,
                    ),
                    SequenceRead::GetUserPermissions { address, user, index } => SequenceStorage::get_user_permissions_post(
                        st,
                        address,
                        user,
                        index,
                        message_id,
                        requester,
                        r,
                    ),
                    SequenceRead::GetPermissions { address, index } => SequenceStorage::get_permissions_post(
                        st,
                        address,
                        index,
                        message_id,
                        requester,
                        r,
                    ),
                },
                None => r is None && post == pre,
            },
            Request::SequenceWrite(sw) => match (pre.spec_sequence(), post.spec_sequence()) {
                (Some(s1), Some(s2)) => (match sw {
                    SequenceWrite::New(data) => SequenceStorage::store_new_post(
                        s1,
                        s2,
                        data,
                        message_id,
                        requester,
                        pre.spec_holder().store().spec_used() + pre.spec_mdata_used(),
                        r,
                    ),
                    SequenceWrite::Edit(op) => SequenceStorage::edit_post(
                        s1,
                        s2,
                        op,
                        message_id,
                        requester,
                        pre.spec_holder().store().spec_used() + pre.spec_mdata_used(),
                        r,
                    ),
                    SequenceWrite::Delete(address) => SequenceStorage::delete_write_post(
                        s1,
                        s2,
                        address,
                        message_id,
                        requester,
                        r,
                    ),
                    SequenceWrite::SetOwner(op) => SequenceStorage::set_owner_post(
                        s1,
                        s2,
                        op,
                        message_id,
                        requester,
                        pre.spec_holder().store().spec_used() + pre.spec_mdata_used(),
                        r,
                    ),
                    SequenceWrite::SetPubPermissions(op) => SequenceStorage::perms_write_post(
                        s1,
                        s2,
                        op,
                        message_id,
                        requester,
                        pre.spec_holder().store().spec_used() + pre.spec_mdata_used(),
                        r,
                    ),
                    SequenceWrite::SetPrivPermissions(op) => SequenceStorage::perms_write_post(
                        s1,
                        s2,
                        op,
                        message_id,
                        requester,
                        pre.spec_holder().store().spec_used() + pre.spec_mdata_used(),
                        r,
                    ),
                }) && post.spec_holder() == pre.spec_holder() && post.spec_coordinator()
                    == pre.spec_coordinator() && post.spec_mdata() == pre.spec_mdata(),
                (None, None) => r is None && post == pre,
                _ => false,
            },
            Request::GetBalance
            | Request::CreateLoginPacket
            | Request::GetLoginPacket
            | Request::ListAuthKeysAndVersion
            | Request::TransferCoins => r is None && post == pre,
        }
    }

    /// What routing one response does: mutation acks and get answers are
    /// folded by the elder's coordinator, any other kind is dropped, and
    /// an adult — which coordinates nothing — drops them all.
    pub open spec fn response_post(
        pre: DataHandler,
        post: DataHandler,
        src: Seq<u8>,
        response: Response,
        message_id: u64,
        r: Option<Action>,
    ) -> bool {
        match response {
            Response::Mutation(result) => match (pre.spec_coordinator(), post.spec_coordinator()) {
                (Some(c1), Some(c2)) => IDataHandler::fold_post(
                    c1,
                    c2,
                    src,
                    HolderResult::Mutation(result),
                    message_id,
                    r,
                ) && post.spec_holder() == pre.spec_holder() && post.spec_mdata()
                    == pre.spec_mdata() && post.spec_sequence() == pre.spec_sequence(),
                (None, None) => r is None && post == pre,
                _ => false,
            },
            Response::GetIData(result) => match (pre.spec_coordinator(), post.spec_coordinator()) {
                (Some(c1), Some(c2)) => IDataHandler::fold_post(
                    c1,
                    c2,
                    src,
                    HolderResult::Get(result),
                    message_id,
                    r,
                ) && post.spec_holder() == pre.spec_holder() && post.spec_mdata()
                    == pre.spec_mdata() && post.spec_sequence() == pre.spec_sequence(),
                (None, None) => r is None && post == pre,
                _ => false,
            },
            _ => r is None && post == pre,
        }
    }

    /// Route one envelope from the routing layer and hand back the
    /// outbound action, if the operation calls for one; the outcome is the
    /// serving duty's outcome, as `request_post` and `response_post` say.
    pub fn handle_vault_rpc(&mut self, src: Vec<u8>, rpc: Rpc) -> (r: Option<Action>)
        requires
            old(self).wf(),
            rpc matches Rpc::Request { request: Request::PutMData(m), .. } ==> m.valid(),
            rpc matches Rpc::Request {
                request: Request::SequenceWrite(SequenceWrite::New(s)),
                ..
            } ==> s.valid(),
        ensures
            final(self).wf(),
            final(self).spec_is_elder() == old(self).spec_is_elder(),
            match rpc {
                Rpc::Request { request, requester, message_id } => Self::request_post(
                    *old(self),
                    *final(self),
                    src@,
                    requester,
                    request,
                    message_id,
                    r,
                ),
                Rpc::Response { response, message_id } => Self::response_post(
                    *old(self),
                    *final(self),
                    src@,
                    response,
                    message_id,
                    r,
                ),
            },
            // out-of-scope requests are dropped: no reply, no state change
            (rpc matches Rpc::Request { request, .. } && out_of_scope(request)) ==> r is None
                && *final(self) == *old(self),
            // response kinds no data handler emits are dropped too
            (rpc matches Rpc::Response { response, .. } && !foldable_response(response)) ==> r
                is None && *final(self) == *old(self),
            // an adult drops elder-only requests with a trace and no reply
            (rpc matches Rpc::Request { request, .. } && elder_only(request) && !old(
                self,
            ).spec_is_elder()) ==> r is None && *final(self) == *old(self),
    {
        match rpc {
            Rpc::Request { request, requester, message_id } => self.handle_request(
                src,
                requester,
                request,
                message_id,
            ),
            Rpc::Response { response, message_id } => self.handle_response(
                src,
                response,
                message_id,
            ),
        }
    }

    /// The bytes the node holds outside its replica holder.
    fn used_outside_holder(&self) -> (n: u64)
        requires
            self.wf(),
        ensures
            n as nat == self.spec_mdata_used() + self.spec_sequence_used(),
    {
        let m = match &self.mdata_handler {
            Some(h) => h.used_space(),
            None => 0,
        };
        let s = match &self.sequence_storage {
            Some(st) => st.used_space(),
            None => 0,
        };
        proof {
            self.spec_holder().store().lemma_bounds();
            assert(m as nat == self.spec_mdata_used());
            assert(s as nat == self.spec_sequence_used());
            assert(self.spec_total_used() <= self.spec_capacity());
            assert(m as int + s as int <= u64::MAX as int);
        }
        m + s
    }

    /// The bytes the node holds outside its mutable-map store.
    fn used_outside_mdata(&self) -> (n: u64)
        requires
            self.wf(),
        ensures
            n as nat == self.spec_holder().store().spec_used() + self.spec_sequence_used(),
    {
        let s = match &self.sequence_storage {
            Some(st) => st.used_space(),
            None => 0,
        };
        proof {
            self.spec_holder().store().lemma_bounds();
            assert(s as nat == self.spec_sequence_used());
            assert(self.spec_total_used() <= self.spec_capacity());
            assert(self.spec_holder().store().spec_used() + s as int <= u64::MAX as int);
        }
        self.idata_holder.used_space() + s
    }

    /// The bytes the node holds outside its sequence store.
    fn used_outside_sequence(&self) -> (n: u64)
        requires
            self.wf(),
        ensures
            n as nat == self.spec_holder().store().spec_used() + self.spec_mdata_used(),
    {
        let m = match &self.mdata_handler {
            Some(h) => h.used_space(),
            None => 0,
        };
        proof {
            self.spec_holder().store().lemma_bounds();
            assert(m as nat == self.spec_mdata_used());
            assert(self.spec_total_used() <= self.spec_capacity());
            assert(self.spec_holder().store().spec_used() + m as int <= u64::MAX as int);
        }
        self.idata_holder.used_space() + m
    }

    fn handle_request(
        &mut self,
        src: Vec<u8>,
        requester: PublicId,
        request: Request,
        message_id: u64,
    ) -> (r: Option<Action>)
        requires
            old(self).wf(),
            request matches Request::PutMData(m) ==> m.valid(),
            request matches Request::SequenceWrite(SequenceWrite::New(s)) ==> s.valid(),
        ensures
            final(self).wf(),
            final(self).spec_is_elder() == old(self).spec_is_elder(),
            Self::request_post(
                *old(self),
                *final(self),
                src@,
                requester,
                request,
                message_id,
                r,
            ),
    {
        match request {
            Request::PutIData(data) => {
                if requester.is_node() {
                    // an elder chose this node to hold the chunk
                    let outside = self.used_outside_holder();
                    self.idata_holder.store_idata(&data, requester, src, message_id, outside)
                } else {
                    match &mut self.idata_handler {
                        Some(h) => h.handle_put_idata_req(requester, data, message_id),
                        None => None,  // not an elder duty holder; dropped with a trace
                    }
                }
            }
            Request::GetIData(address) => {
                if requester.is_node() {
                    self.idata_holder.get_idata(&address, src, message_id)
                } else {
                    match &mut self.idata_handler {
                        Some(h) => h.handle_get_idata_req(requester, address, message_id),
                        None => None,
                    }
                }
            }
            Request::DeleteUnpubIData(address) => {
                // a fan-out for a delete travels under the client's own
                // identity; it is recognised by the source being the
                // chunk's name
                if requester.is_node() || bytes_eq(&src, &address.name) {
                    self.idata_holder.delete_unpub_idata(&address, requester, src, message_id)
                } else {
                    match &mut self.idata_handler {
                        Some(h) => h.handle_delete_unpub_idata_req(requester, address, message_id),
                        None => None,
                    }
                }
            }
            Request::PutMData(data) => {
                let outside = self.used_outside_mdata();
                match &mut self.mdata_handler {
                    Some(h) => h.handle_put_mdata_req(&requester, data, message_id, outside),
                    None => None,
                }
            }
            Request::GetMData(address) => match &self.mdata_handler {
                Some(h) => h.handle_get_mdata_req(&requester, &address, message_id),
                None => None,
            },
            Request::GetMDataValue { address, key } => match &self.mdata_handler {
                Some(h) => h.handle_get_mdata_value_req(&requester, &address, &key, message_id),
                None => None,
            },
            Request::DeleteMData(address) => match &mut self.mdata_handler {
                Some(h) => h.handle_delete_mdata_req(&requester, &address, message_id),
                None => None,
            },
            Request::GetMDataShell(address) => match &self.mdata_handler {
                Some(h) => h.handle_get_mdata_shell_req(&requester, &address, message_id),
                None => None,
            },
            Request::GetMDataVersion(address) => match &self.mdata_handler {
                Some(h) => h.handle_get_mdata_version_req(&requester, &address, message_id),
                None => None,
            },
            Request::ListMDataEntries(address) => match &self.mdata_handler {
                Some(h) => h.handle_list_mdata_entries_req(&requester, &address, message_id),
                None => None,
            },
            Request::ListMDataKeys(address) => match &self.mdata_handler {
                Some(h) => h.handle_list_mdata_keys_req(&requester, &address, message_id),
                None => None,
            },
            Request::ListMDataValues(address) => match &self.mdata_handler {
                Some(h) => h.handle_list_mdata_values_req(&requester, &address, message_id),
                None => None,
            },
            Request::ListMDataPermissions(address) => match &self.mdata_handler {
                Some(h) => h.handle_list_mdata_permissions_req(&requester, &address, message_id),
                None => None,
            },
            Request::ListMDataUserPermissions { address, user } => match &self.mdata_handler {
                Some(h) => h.handle_list_mdata_user_permissions_req(
                    &requester,
                    &address,
                    user,
                    message_id,
                ),
                None => None,
            },
            Request::SetMDataUserPermissions { address, user, permissions, version } => {
                let outside = self.used_outside_mdata();
                match &mut self.mdata_handler {
                    Some(h) => h.handle_set_mdata_user_permissions_req(
                        &requester,
                        &address,
                        user,
                        permissions,
                        version,
                        message_id,
                        outside,
                    ),
                    None => None,
                }
            }
            Request::DelMDataUserPermissions { address, user, version } => {
                let outside = self.used_outside_mdata();
                match &mut self.mdata_handler {
                    Some(h) => h.handle_del_mdata_user_permissions_req(
                        &requester,
                        &address,
                        user,
                        version,
                        message_id,
                        outside,
                    ),
                    None => None,
                }
            }
            Request::MutateMDataEntries { address, actions } => {
                let outside = self.used_outside_mdata();
                match &mut self.mdata_handler {
                    Some(h) => h.handle_mutate_mdata_entries_req(
                        &requester,
                        &address,
                        &actions,
                        message_id,
                        outside,
                    ),
                    None => None,
                }
            }
            Request::SequenceRead(read) => match &self.sequence_storage {
                Some(s) => s.read(&read, message_id, &requester),
                None => None,
            },
            Request::SequenceWrite(write) => {
                let outside = self.used_outside_sequence();
                match &mut self.sequence_storage {
                    Some(s) => s.write(write, message_id, &requester, outside),
                    None => None,
                }
            }
            Request::GetBalance
            | Request::CreateLoginPacket
            | Request::GetLoginPacket
            | Request::ListAuthKeysAndVersion
            | Request::TransferCoins => {
                // not a data operation: logged and dropped
                None
            }
        }
    }

    fn handle_response(&mut self, src: Vec<u8>, response: Response, message_id: u64) -> (r: Option<
        Action,
    >)
        requires
            old(self).wf(),
        ensures
            final(self).wf(),
            final(self).spec_is_elder() == old(self).spec_is_elder(),
            Self::response_post(
                *old(self),
                *final(self),
                src@,
                response,
                message_id,
                r,
            ),
    {
        match response {
            Response::Mutation(result) => match &mut self.idata_handler {
                Some(h) => h.handle_mutation_resp(src, result, message_id),
                None => None,
            },
            Response::GetIData(result) => match &mut self.idata_handler {
                Some(h) => h.handle_get_idata_resp(src, result, message_id),
                None => None,
            },
            _ => {
                // no data handler emits these: logged and dropped
                None
            }
        }
    }

    /// The client an in-flight immutable-data operation answers to, by its
    /// message id; an adult, which coordinates nothing, knows none.
    pub fn client_id(&self, message_id: u64) -> (r: Option<PublicId>)
        requires
            self.wf(),
        ensures
            match r {
                Some(c) => match self.spec_coordinator() {
                    Some(h) => h.spec_has_op(message_id) && c == h.spec_op(
                        message_id,
                    ).spec_client(),
                    None => false,
                },
                None => match self.spec_coordinator() {
                    Some(h) => !h.spec_has_op(message_id),
                    None => true,
                },
            },
    {
        match &self.idata_handler {
            Some(h) => match h.idata_op(message_id) {
                Some(op) => Some(op.client()),
                None => None,
            },
            None => None,
        }
    }

    /// The bytes this node's replica holder has stored.
    pub fn holder_used_space(&self) -> (n: u64)
        ensures
            n as nat == self.spec_holder().store().spec_used(),
    {
        self.idata_holder.used_space()
    }

    /// The node's whole account of used space: the sum over its stores.
    pub fn total_used_space(&self) -> (n: u64)
        requires
            self.wf(),
        ensures
            n as nat == self.spec_total_used(),
    {
        let outside = self.used_outside_holder();
        proof {
            self.spec_holder().store().lemma_bounds();
            assert(self.spec_total_used() <= self.spec_capacity());
            assert(self.spec_holder().store().spec_used() + outside as int <= u64::MAX as int);
        }
        self.idata_holder.used_space() + outside
    }
}

} // verus!
