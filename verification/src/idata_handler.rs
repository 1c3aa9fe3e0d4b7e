//! The elder side of immutable data: fan-out and aggregation.
//!
//! For each client request the coordinator registers one in-flight
//! operation under the client's message id, sends one request towards the
//! section of the data's name — the routing layer expands it to the N
//! closest peers — and folds the holders' answers back into the operation
//! until its policy fires the single client reply. A concluded operation is
//! dropped as soon as its last expected answer has arrived; an answer for
//! an unknown message id is dropped.

use vstd::prelude::*;

use crate::chunk_store::Chunk;
use crate::idata::Blob;
use crate::idata_op::{fold_transition, HolderResult, IDataOp, IDataRequest};
use crate::rpc::{Action, Message, Request, Response};
use crate::types::{clone_bytes, Address, Error, ErrorV, PublicId};

verus! {

struct OpEntry {
    msg_id: u64,
    op: IDataOp,
}

/// The elder-side coordinator of immutable-data operations.
pub struct IDataHandler {
    id: u64,
    replica_count: u64,
    ops: Vec<OpEntry>,
}

impl IDataHandler {
    /// The message ids with an operation in flight, in registration order.
    pub closed spec fn spec_ids(self) -> Seq<u64> {
        self.ops@.map_values(|e: OpEntry| e.msg_id)
    }

    /// Whether an operation is in flight under `id`.
    pub open spec fn spec_has_op(self, id: u64) -> bool {
        self.spec_ids().contains(id)
    }

    /// The index of the operation under `id`.
    pub closed spec fn idx_of(self, id: u64) -> int {
        choose|i: int| 0 <= i < self.ops@.len() && (#[trigger] self.ops@[i]).msg_id == id
    }

    /// The operation in flight under `id`.
    pub closed spec fn spec_op(self, id: u64) -> IDataOp {
        self.ops@[self.idx_of(id)].op
    }

    /// The configured fan-out width N.
    pub closed spec fn spec_replica_count(self) -> nat {
        self.replica_count as nat
    }

    pub open spec fn wf(self) -> bool {
        &&& 1 <= self.spec_replica_count()
        &&& forall|i: int, j: int|
            0 <= i < j < self.spec_ids().len() ==> self.spec_ids()[i] != self.spec_ids()[j]
        &&& forall|id: u64| self.spec_has_op(id) ==> (#[trigger] self.spec_op(id)).wf()
    }

    /// A fresh coordinator with no operation in flight.
    pub fn new(id: u64, replica_count: u64) -> (h: IDataHandler)
        requires
            replica_count >= 1,
        ensures
            h.wf(),
            h.spec_ids().len() == 0,
            h.spec_replica_count() == replica_count as nat,
    {
        let h = IDataHandler { id, replica_count, ops: Vec::new() };
        proof {
            assert(h.spec_ids() =~= Seq::<u64>::empty());
            assert forall|id: u64| h.spec_has_op(id) implies (#[trigger] h.spec_op(id)).wf() by {
                assert(!h.spec_ids().contains(id));
            }
        }
        h
    }

    fn find_op_index(&self, msg_id: u64) -> (r: Option<usize>)
        ensures
            match r {
                Some(i) => i < self.spec_ids().len() && self.spec_ids()[i as int] == msg_id,
                None => !self.spec_has_op(msg_id),
            },
    {
        let mut i: usize = 0;
        while i < self.ops.len()
            invariant
                i <= self.ops@.len(),
                forall|j: int| 0 <= j < i ==> (#[trigger] self.ops@[j]).msg_id != msg_id,
            decreases self.ops.len() - i,
        {
            if self.ops[i].msg_id == msg_id {
                return Some(i);
            }
            i += 1;
        }
        proof {
            assert forall|j: int| 0 <= j < self.spec_ids().len() implies self.spec_ids()[j]
                != msg_id by {
                assert(self.spec_ids()[j] == self.ops@[j].msg_id);
            }
        }
        None
    }

    /// The operation in flight under `message_id`, for resolving the
    /// original client when a holder's answer arrives.
    pub fn idata_op(&self, message_id: u64) -> (r: Option<&IDataOp>)
        requires
            self.wf(),
        ensures
            match r {
                Some(op) => self.spec_has_op(message_id) && *op == self.spec_op(message_id),
                None => !self.spec_has_op(message_id),
            },
    {
        match self.find_op_index(message_id) {
            Some(i) => {
                proof {
                    self.lemma_found(i as int, message_id);
                }
                Some(&self.ops[i].op)
            }
            None => None,
        }
    }

    proof fn lemma_found(self, i: int, msg_id: u64)
        requires
            self.wf(),
            0 <= i < self.spec_ids().len(),
            self.spec_ids()[i] == msg_id,
        ensures
            self.spec_has_op(msg_id),
            self.idx_of(msg_id) == i,
            self.spec_op(msg_id) == self.ops@[i].op,
    {
        self.lemma_entry_at(i, msg_id);
    }

    fn register_op(&mut self, msg_id: u64, op: IDataOp) -> (r: bool)
        requires
            old(self).wf(),
            op.wf(),
        ensures
            final(self).wf(),
            final(self).spec_replica_count() == old(self).spec_replica_count(),
            r == !old(self).spec_has_op(msg_id),
            !r ==> *final(self) == *old(self),
            r ==> final(self).spec_has_op(msg_id) && final(self).spec_op(msg_id) == op,
            r ==> forall|id: u64|
                id != msg_id ==> #[trigger] final(self).spec_has_op(id) == old(self).spec_has_op(
                id,
            ),
            r ==> forall|id: u64|
                id != msg_id && old(self).spec_has_op(id) ==> #[trigger] final(self).spec_op(id)
                    == old(self).spec_op(id),
    {
        match self.find_op_index(msg_id) {
            Some(_) => false,
            None => {
                let ghost pre = *self;
                let n = self.ops.len();
                self.ops.push(OpEntry { msg_id, op });
                proof {
                    assert(self.spec_ids() =~= pre.spec_ids().push(msg_id));
                    assert(self.spec_ids()[n as int] == msg_id);
                    self.lemma_entry_at(n as int, msg_id);
                    assert forall|id: u64| id != msg_id implies #[trigger] self.spec_has_op(id)
                        == pre.spec_has_op(id) && (pre.spec_has_op(id) ==> self.spec_op(id)
                        == pre.spec_op(id)) by {
                        if pre.spec_has_op(id) {
                            let j = choose|j: int|
                                0 <= j < pre.spec_ids().len() && pre.spec_ids()[j] == id;
                            assert(self.spec_ids()[j] == id);
                            assert(self.spec_has_op(id));
                            self.lemma_entry_at(j, id);
                            pre.lemma_entry_at(j, id);
                        }
                        if self.spec_has_op(id) {
                            let j = choose|j: int|
                                0 <= j < self.spec_ids().len() && self.spec_ids()[j] == id;
                            assert(j != n as int);
                            assert(pre.spec_ids()[j] == id);
                            assert(pre.spec_has_op(id));
                        }
                    }
                    assert forall|id: u64| self.spec_has_op(id) implies (
                    #[trigger] self.spec_op(id)).wf() by {
                        if id == msg_id {
                        } else {
                            assert(pre.spec_has_op(id));
                        }
                    }
                }
                true
            }
        }
    }

    proof fn lemma_entry_at(self, i: int, msg_id: u64)
        requires
            forall|p: int, q: int|
                0 <= p < q < self.spec_ids().len() ==> self.spec_ids()[p] != self.spec_ids()[q],
            0 <= i < self.spec_ids().len(),
            self.spec_ids()[i] == msg_id,
        ensures
            self.spec_has_op(msg_id),
            self.idx_of(msg_id) == i,
            self.spec_op(msg_id) == self.ops@[i].op,
    {
        assert(self.spec_has_op(msg_id));
        let j = self.idx_of(msg_id);
        assert(self.ops@[j].msg_id == msg_id) by {
            assert(self.spec_ids()[j] == self.ops@[j].msg_id);
        }
        assert(self.spec_ids()[j] == msg_id);
        if i != j {
            assert(self.spec_ids()[i] != self.spec_ids()[j]);
        }
    }

    /// What coordinating a client's put does: a repeated message id is
    /// answered with an error and nothing changes; otherwise a fresh
    /// operation is registered under the id and one request is sent
    /// towards the section of the blob's name.
    pub open spec fn put_req_post(
        pre: IDataHandler,
        post: IDataHandler,
        requester: PublicId,
        data: Blob,
        message_id: u64,
        r: Option<Action>,
    ) -> bool {
        &&& post.wf()
        &&& post.spec_replica_count() == pre.spec_replica_count()
        &&& (pre.spec_has_op(message_id) ==> post == pre && (match r {
            Some(Action::SendToClient { client, message }) => client == requester && (message
                matches Message::QueryResponse {
                    response: Response::Mutation(Err(e)),
                    correlation_id,
                } && correlation_id == message_id && e@ == ErrorV::InvalidOperation),
            _ => false,
        }))
        &&& (!pre.spec_has_op(message_id) ==> {
            &&& post.spec_has_op(message_id)
            &&& post.spec_op(message_id).spec_client() == requester
            &&& (post.spec_op(message_id).spec_request() matches IDataRequest::Put(b) && b@
                == data@)
            &&& post.spec_op(message_id).spec_expected() == pre.spec_replica_count()
            &&& !post.spec_op(message_id).spec_concluded()
            &&& post.spec_op(message_id).spec_responses().len() == 0
            &&& forall|id: u64|
                id != message_id ==> #[trigger] post.spec_has_op(id) == pre.spec_has_op(id)
            &&& forall|id: u64|
                id != message_id && pre.spec_has_op(id) ==> #[trigger] post.spec_op(id)
                    == pre.spec_op(id)
            &&& match r {
                Some(Action::SendToSection { target, message }) => {
                    &&& target@ == data@.name
                    &&& (message matches Message::Request {
                        request: Request::PutIData(b),
                        requester: rq,
                        message_id: m,
                    } && b@ == data@ && (rq matches PublicId::Node(_)) && m == message_id)
                },
                _ => false,
            }
        })
    }

    /// What coordinating a client's get does; as `put_req_post`, with the
    /// fan-out towards the section of the address's name.
    pub open spec fn get_req_post(
        pre: IDataHandler,
        post: IDataHandler,
        requester: PublicId,
        address: Address,
        message_id: u64,
        r: Option<Action>,
    ) -> bool {
        &&& post.wf()
        &&& post.spec_replica_count() == pre.spec_replica_count()
        &&& (pre.spec_has_op(message_id) ==> post == pre && (match r {
            Some(Action::SendToClient { client, message }) => client == requester && (message
                matches Message::QueryResponse {
                    response: Response::GetIData(Err(e)),
                    correlation_id,
                } && correlation_id == message_id && e@ == ErrorV::InvalidOperation),
            _ => false,
        }))
        &&& (!pre.spec_has_op(message_id) ==> {
            &&& post.spec_has_op(message_id)
            &&& post.spec_op(message_id).spec_client() == requester
            &&& (post.spec_op(message_id).spec_request() matches IDataRequest::Get(a) && a.key()
                == address.key())
            &&& post.spec_op(message_id).spec_expected() == pre.spec_replica_count()
            &&& !post.spec_op(message_id).spec_concluded()
            &&& post.spec_op(message_id).spec_responses().len() == 0
            &&& forall|id: u64|
                id != message_id ==> #[trigger] post.spec_has_op(id) == pre.spec_has_op(id)
            &&& forall|id: u64|
                id != message_id && pre.spec_has_op(id) ==> #[trigger] post.spec_op(id)
                    == pre.spec_op(id)
            &&& match r {
                Some(Action::SendToSection { target, message }) => {
                    &&& target@ == address.key().1
                    &&& (message matches Message::Request {
                        request: Request::GetIData(a),
                        requester: rq,
                        message_id: m,
                    } && a.key() == address.key() && (rq matches PublicId::Node(_)) && m
                        == message_id)
                },
                _ => false,
            }
        })
    }

    /// What coordinating a client's unpublish-delete does; the client's
    /// identity travels with the fan-out, since each holder checks it
    /// against the stored owner.
    pub open spec fn delete_req_post(
        pre: IDataHandler,
        post: IDataHandler,
        requester: PublicId,
        address: Address,
        message_id: u64,
        r: Option<Action>,
    ) -> bool {
        &&& post.wf()
        &&& post.spec_replica_count() == pre.spec_replica_count()
        &&& (pre.spec_has_op(message_id) ==> post == pre && (match r {
            Some(Action::SendToClient { client, message }) => client == requester && (message
                matches Message::QueryResponse {
                    response: Response::Mutation(Err(e)),
                    correlation_id,
                } && correlation_id == message_id && e@ == ErrorV::InvalidOperation),
            _ => false,
        }))
        &&& (!pre.spec_has_op(message_id) ==> {
            &&& post.spec_has_op(message_id)
            &&& post.spec_op(message_id).spec_client() == requester
            &&& (post.spec_op(message_id).spec_request() matches IDataRequest::DeleteUnpub(a)
                && a.key() == address.key())
            &&& post.spec_op(message_id).spec_expected() == pre.spec_replica_count()
            &&& !post.spec_op(message_id).spec_concluded()
            &&& post.spec_op(message_id).spec_responses().len() == 0
            &&& forall|id: u64|
                id != message_id ==> #[trigger] post.spec_has_op(id) == pre.spec_has_op(id)
            &&& forall|id: u64|
                id != message_id && pre.spec_has_op(id) ==> #[trigger] post.spec_op(id)
                    == pre.spec_op(id)
            &&& match r {
                Some(Action::SendToSection { target, message }) => {
                    &&& target@ == address.key().1
                    &&& (message matches Message::Request {
                        request: Request::DeleteUnpubIData(a),
                        requester: rq,
                        message_id: m,
                    } && a.key() == address.key() && rq == requester && m == message_id)
                },
                _ => false,
            }
        })
    }

    /// What folding one holder's answer into the table does: an unknown
    /// message id is dropped; a known one has its operation folded as
    /// `fold_transition` says, is dropped from the table exactly when it
    /// concluded with its last expected answer in, and the operation's
    /// reply — if any — travels to the operation's client under the same
    /// message id. Other operations stand untouched.
    pub open spec fn fold_post(
        pre: IDataHandler,
        post: IDataHandler,
        src: Seq<u8>,
        result: HolderResult,
        message_id: u64,
        r: Option<Action>,
    ) -> bool {
        &&& post.wf()
        &&& post.spec_replica_count() == pre.spec_replica_count()
        &&& (!pre.spec_has_op(message_id) ==> post == pre && r is None)
        &&& (pre.spec_has_op(message_id) ==> exists|op2: IDataOp, reply: Option<Response>|
            {
                &&& #[trigger] fold_transition(pre.spec_op(message_id), op2, src, result, reply)
                &&& if op2.spec_concluded() && op2.spec_responses().len() == op2.spec_expected() {
                    !post.spec_has_op(message_id)
                } else {
                    post.spec_has_op(message_id) && post.spec_op(message_id) == op2
                }
                &&& r == (match reply {
                    Some(response) => Some(
                        Action::SendToClient {
                            client: pre.spec_op(message_id).spec_client(),
                            message: Message::QueryResponse {
                                response,
                                correlation_id: message_id,
                            },
                        },
                    ),
                    None => None,
                })
            })
        &&& forall|id: u64|
            id != message_id ==> #[trigger] post.spec_has_op(id) == pre.spec_has_op(id)
        &&& forall|id: u64|
            id != message_id && pre.spec_has_op(id) ==> #[trigger] post.spec_op(id)
                == pre.spec_op(id)
    }

    /// Coordinate a client's put: register the operation and fan the
    /// request out towards the section of the blob's name, carried under
    /// the client's own message id. A message id already in flight is
    /// answered with an error instead: a repeated id cannot be correlated.
    pub fn handle_put_idata_req(&mut self, requester: PublicId, data: Blob, message_id: u64) -> (r:
        Option<Action>)
        requires
            old(self).wf(),
        ensures
            Self::put_req_post(*old(self), *final(self), requester, data, message_id, r),
    {
        let copy = data.clone_chunk();
        let op = IDataOp::new(requester, IDataRequest::Put(copy), self.replica_count);
        if !self.register_op(message_id, op) {
            return Some(
                Action::SendToClient {
                    client: requester,
                    message: Message::QueryResponse {
                        response: Response::Mutation(Err(Error::InvalidOperation)),
                        correlation_id: message_id,
                    },
                },
            );
        }
        let target = {
            let addr = data.address();
            addr.name
        };
        Some(
            Action::SendToSection {
                target,
                message: Message::Request {
                    request: Request::PutIData(data),
                    requester: PublicId::Node(self.id),
                    message_id,
                },
            },
        )
    }

    /// Coordinate a client's get: register the operation and fan the
    /// request out towards the section of the address's name.
    pub fn handle_get_idata_req(&mut self, requester: PublicId, address: Address, message_id: u64)
        -> (r: Option<Action>)
        requires
            old(self).wf(),
        ensures
            Self::get_req_post(*old(self), *final(self), requester, address, message_id, r),
    {
        let copy = address.clone_addr();
        let op = IDataOp::new(requester, IDataRequest::Get(copy), self.replica_count);
        if !self.register_op(message_id, op) {
            return Some(
                Action::SendToClient {
                    client: requester,
                    message: Message::QueryResponse {
                        response: Response::GetIData(Err(Error::InvalidOperation)),
                        correlation_id: message_id,
                    },
                },
            );
        }
        let target = clone_bytes(&address.name);
        Some(
            Action::SendToSection {
                target,
                message: Message::Request {
                    request: Request::GetIData(address),
                    requester: PublicId::Node(self.id),
                    message_id,
                },
            },
        )
    }

    /// Coordinate a client's unpublish-delete: register the operation and
    /// fan the request out towards the section of the address's name. The
    /// client's identity travels with the request, since each holder checks
    /// it against the stored owner.
    pub fn handle_delete_unpub_idata_req(
        &mut self,
        requester: PublicId,
        address: Address,
        message_id: u64,
    ) -> (r: Option<Action>)
        requires
            old(self).wf(),
        ensures
            Self::delete_req_post(*old(self), *final(self), requester, address, message_id, r),
    {
        let copy = address.clone_addr();
        let op = IDataOp::new(requester, IDataRequest::DeleteUnpub(copy), self.replica_count);
        if !self.register_op(message_id, op) {
            return Some(
                Action::SendToClient {
                    client: requester,
                    message: Message::QueryResponse {
                        response: Response::Mutation(Err(Error::InvalidOperation)),
                        correlation_id: message_id,
                    },
                },
            );
        }
        let target = clone_bytes(&address.name);
        Some(
            Action::SendToSection {
                target,
                message: Message::Request {
                    request: Request::DeleteUnpubIData(address),
                    requester,
                    message_id,
                },
            },
        )
    }

    /// Fold in one holder's mutation ack for the operation under
    /// `message_id`; an unknown id is dropped.
    pub fn handle_mutation_resp(
        &mut self,
        src: Vec<u8>,
        result: Result<(), Error>,
        message_id: u64,
    ) -> (r: Option<Action>)
        requires
            old(self).wf(),
        ensures
            Self::fold_post(
                *old(self),
                *final(self),
                src@,
                HolderResult::Mutation(result),
                message_id,
                r,
            ),
    {
        self.fold_response(src, HolderResult::Mutation(result), message_id)
    }

    /// Fold in one holder's get answer for the operation under
    /// `message_id`; an unknown id is dropped.
    pub fn handle_get_idata_resp(
        &mut self,
        src: Vec<u8>,
        result: Result<Blob, Error>,
        message_id: u64,
    ) -> (r: Option<Action>)
        requires
            old(self).wf(),
        ensures
            Self::fold_post(
                *old(self),
                *final(self),
                src@,
                HolderResult::Get(result),
                message_id,
                r,
            ),
    {
        self.fold_response(src, HolderResult::Get(result), message_id)
    }

    fn fold_response(&mut self, src: Vec<u8>, result: HolderResult, message_id: u64) -> (r: Option<
        Action,
    >)
        requires
            old(self).wf(),
        ensures
            Self::fold_post(*old(self), *final(self), src@, result, message_id, r),
    {
        let i = match self.find_op_index(message_id) {
            Some(i) => i,
            None => {
                return None;
            }
        };
        proof {
            self.lemma_found(i as int, message_id);
        }
        let ghost pre = *self;
        let entry = self.ops.remove(i);
        let mut op = entry.op;
        let ghost pre_op = op;
        let client = op.client();
        let reply = op.handle_holder_response(&src, result);
        let ghost op2 = op;
        let ghost rep = reply;
        let full = op.response_count() == op.expected_width();
        let drop_op = op.concluded() && full;
        proof {
            assert(self.ops@ =~= pre.ops@.remove(i as int));
        }
        if !drop_op {
            let new_entry = OpEntry { msg_id: message_id, op };
            let ghost newv = new_entry;
            self.ops.insert(i, new_entry);
            proof {
                pre.ops@.remove_ensures(i as int);
                pre.ops@.remove(i as int).insert_ensures(i as int, newv);
                assert(self.ops@ == pre.ops@.remove(i as int).insert(i as int, newv));
                assert forall|j: int|
                    0 <= j < self.ops@.len() && j != i as int implies self.ops@[j]
                    == pre.ops@[j] by {
                    if j > i as int {
                        assert(self.ops@[j] == pre.ops@.remove(i as int)[j - 1]);
                        assert(pre.ops@.remove(i as int)[j - 1] == pre.ops@[j]);
                    }
                }
                assert(self.ops@[i as int] == newv);
                assert(self.spec_ids() =~= pre.spec_ids());
            }
        } else {
            proof {
                assert(self.spec_ids() =~= pre.spec_ids().remove(i as int));
            }
        }
        proof {
            self.lemma_table_after(pre, i as int, message_id, drop_op);
            assert(pre_op == pre.spec_op(message_id));
            assert(fold_transition(pre.spec_op(message_id), op2, src@, result, rep));
        }
        match reply {
            Some(response) => Some(
                Action::SendToClient {
                    client,
                    message: Message::QueryResponse { response, correlation_id: message_id },
                },
            ),
            None => None,
        }
    }

    proof fn lemma_table_after(self, pre: IDataHandler, i: int, msg_id: u64, dropped: bool)
        requires
            pre.wf(),
            0 <= i < pre.spec_ids().len(),
            pre.spec_ids()[i] == msg_id,
            dropped ==> self.spec_ids() == pre.spec_ids().remove(i)
                && self.ops@ == pre.ops@.remove(i),
            !dropped ==> self.spec_ids() == pre.spec_ids() && self.ops@.len() == pre.ops@.len()
                && self.ops@[i].msg_id == msg_id && self.ops@[i].op.wf() && forall|j: int|
                0 <= j < self.ops@.len() && j != i ==> self.ops@[j] == pre.ops@[j],
            self.replica_count == pre.replica_count,
        ensures
            self.wf(),
            forall|id: u64|
                id != msg_id ==> #[trigger] self.spec_has_op(id) == pre.spec_has_op(id),
            forall|id: u64|
                id != msg_id && pre.spec_has_op(id) ==> #[trigger] self.spec_op(id)
                    == pre.spec_op(id),
            dropped ==> !self.spec_has_op(msg_id),
            !dropped ==> self.spec_has_op(msg_id) && self.spec_op(msg_id) == self.ops@[i].op,
    {
        if !dropped {
            self.lemma_entry_at(i, msg_id);
        }
        if dropped {
            assert(!self.spec_has_op(msg_id)) by {
                if self.spec_has_op(msg_id) {
                    let j = choose|j: int|
                        0 <= j < self.spec_ids().len() && self.spec_ids()[j] == msg_id;
                    let j0 = if j < i {
                        j
                    } else {
                        j + 1
                    };
                    assert(self.spec_ids()[j] == pre.spec_ids()[j0]);
                    assert(pre.spec_ids()[j0] == msg_id);
                    if j0 != i {
                        assert(pre.spec_ids()[i] != pre.spec_ids()[j0]);
                    }
                }
            }
        }
        if dropped {
            assert forall|p: int, q: int|
                0 <= p < q < self.spec_ids().len() implies self.spec_ids()[p]
                != self.spec_ids()[q] by {
                let p0 = if p < i {
                    p
                } else {
                    p + 1
                };
                let q0 = if q < i {
                    q
                } else {
                    q + 1
                };
                assert(self.spec_ids()[p] == pre.spec_ids()[p0]);
                assert(self.spec_ids()[q] == pre.spec_ids()[q0]);
            }
            assert forall|id: u64| self.spec_has_op(id) implies (#[trigger] self.spec_op(id)).wf()
                && (id != msg_id ==> pre.spec_has_op(id) && self.spec_op(id) == pre.spec_op(
                id,
            )) by {
                let j = choose|j: int| 0 <= j < self.spec_ids().len() && self.spec_ids()[j] == id;
                let j0 = if j < i {
                    j
                } else {
                    j + 1
                };
                assert(self.ops@[j] == pre.ops@[j0]);
                assert(pre.spec_ids()[j0] == id);
                pre.lemma_entry_at(j0, id);
                self.lemma_entry_at(j, id);
            }
            assert forall|id: u64|
                id != msg_id && pre.spec_has_op(id) implies #[trigger] self.spec_has_op(id) by {
                let j0 = choose|j: int| 0 <= j < pre.spec_ids().len() && pre.spec_ids()[j] == id;
                assert(j0 != i);
                let j = if j0 < i {
                    j0
                } else {
                    j0 - 1
                };
                assert(self.spec_ids()[j] == pre.spec_ids()[j0]);
            }
        } else {
            assert forall|id: u64| self.spec_has_op(id) implies (#[trigger] self.spec_op(id)).wf()
                && (id != msg_id ==> pre.spec_has_op(id) && self.spec_op(id) == pre.spec_op(
                id,
            )) by {
                let j = choose|j: int| 0 <= j < self.spec_ids().len() && self.spec_ids()[j] == id;
                self.lemma_entry_at(j, id);
                if j == i {
                } else {
                    assert(self.ops@[j] == pre.ops@[j]);
                    assert(pre.spec_ids()[j] == id);
                    pre.lemma_entry_at(j, id);
                }
            }
            assert forall|id: u64| pre.spec_has_op(id) implies #[trigger] self.spec_has_op(id) by {
            }
        }
    }
}

} // verus!
