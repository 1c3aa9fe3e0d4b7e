//! The in-flight state of one multi-holder immutable-data operation.
//!
//! An elder that fans a client's request out to N holders keeps one
//! [`IDataOp`] per message id. Holder answers are folded in one at a time,
//! in any order; the aggregation policy decides when the single
//! client-visible reply fires. `concluded` is a latch: once set, late
//! answers are still recorded but never produce a second reply.
//!
//! The policies: a put or an unpublish-delete succeeds only by unanimity
//! and fails on the first holder error; a get succeeds on the first holder
//! that returns the blob and fails only after every holder has answered
//! with an error, reporting the worst of them.

use vstd::prelude::*;

use crate::chunk_store::Chunk;
use crate::idata::Blob;
use crate::rpc::Response;
use crate::types::{clone_bytes, Address, Error, ErrorV, PublicId};

verus! {

/// The client request an in-flight operation tracks.
#[derive(Debug, PartialEq, Eq)]
pub enum IDataRequest {
    Put(Blob),
    Get(Address),
    DeleteUnpub(Address),
}

/// What one holder answered.
#[derive(Debug, PartialEq, Eq)]
pub enum HolderResult {
    Mutation(Result<(), Error>),
    Get(Result<Blob, Error>),
}

/// One holder's recorded answer.
#[derive(Debug, PartialEq, Eq)]
pub struct HolderResponse {
    pub holder: Vec<u8>,
    pub result: HolderResult,
}

/// How severe an error is, for picking the worst of a failed get.
pub open spec fn err_sev(e: ErrorV) -> int {
    match e {
        ErrorV::NoSuchData => 0,
        ErrorV::NoSuchEntry => 1,
        ErrorV::DataExists => 2,
        ErrorV::EntryExists => 3,
        ErrorV::InvalidOperation => 4,
        ErrorV::InvalidOwners => 5,
        ErrorV::AccessDenied => 6,
        ErrorV::InvalidSuccessor(_) => 7,
        ErrorV::NotEnoughSpace => 8,
        ErrorV::NetworkOther(_) => 9,
    }
}

/// Whether a request is answered by mutation acks rather than get replies.
pub open spec fn is_mutation_kind(req: IDataRequest) -> bool {
    req matches IDataRequest::Put(_) || req matches IDataRequest::DeleteUnpub(_)
}

/// Whether a holder's answer is of the kind the request expects.
pub open spec fn result_matches_kind(req: IDataRequest, res: HolderResult) -> bool {
    match res {
        HolderResult::Mutation(_) => is_mutation_kind(req),
        HolderResult::Get(_) => !is_mutation_kind(req),
    }
}

/// Whether some recorded answer came from the named holder.
pub open spec fn has_holder(responses: Seq<HolderResponse>, h: Seq<u8>) -> bool {
    exists|i: int| 0 <= i < responses.len() && (#[trigger] responses[i]).holder@ == h
}

/// No holder is recorded twice.
pub open spec fn holders_unique(responses: Seq<HolderResponse>) -> bool {
    forall|i: int, j: int|
        0 <= i < j < responses.len() ==> (#[trigger] responses[i]).holder@ != (
        #[trigger] responses[j]).holder@
}

/// Every recorded mutation ack reports success.
pub open spec fn all_mutation_ok(responses: Seq<HolderResponse>) -> bool {
    forall|i: int|
        0 <= i < responses.len() ==> (#[trigger] responses[i]).result matches HolderResult::Mutation(
            Ok(()),
        )
}

/// Some recorded get answer carries the blob.
pub open spec fn some_get_ok(responses: Seq<HolderResponse>) -> bool {
    exists|i: int|
        0 <= i < responses.len() && (#[trigger] responses[i]).result matches HolderResult::Get(
            Ok(_),
        )
}

/// Every recorded get answer is an error.
pub open spec fn all_get_err(responses: Seq<HolderResponse>) -> bool {
    forall|i: int|
        0 <= i < responses.len() ==> (#[trigger] responses[i]).result matches HolderResult::Get(
            Err(_),
        )
}

/// What folding one holder's answer does to an in-flight operation, and
/// which reply it yields: the record grows by exactly the acceptable
/// answer, the concluded latch flips exactly when the one reply fires,
/// and the reply follows the aggregation policy — unanimity for mutations
/// with failure on the first holder error, first hit for gets with the
/// worst recorded error only after all N.
pub open spec fn fold_transition(
    pre: IDataOp,
    post: IDataOp,
    holder: Seq<u8>,
    result: HolderResult,
    reply: Option<Response>,
) -> bool {
    &&& post.wf()
    &&& post.spec_client() == pre.spec_client()
    &&& post.spec_request() == pre.spec_request()
    &&& post.spec_expected() == pre.spec_expected()
    // the latch: a concluded operation never replies again
    &&& (pre.spec_concluded() ==> post.spec_concluded() && reply is None)
    // concluded flips exactly when a reply is emitted
    &&& (reply is Some) == (!pre.spec_concluded() && post.spec_concluded())
    // the record grows by at most this one answer
    &&& (post.spec_responses() == pre.spec_responses() || {
        &&& post.spec_responses().drop_last() == pre.spec_responses()
        &&& post.spec_responses().last().holder@ == holder
        &&& post.spec_responses().last().result == result
    })
    // the answer is recorded exactly when it is acceptable
    &&& (post.spec_responses().len() == pre.spec_responses().len() + 1) == {
        &&& result_matches_kind(pre.spec_request(), result)
        &&& !has_holder(pre.spec_responses(), holder)
        &&& pre.spec_responses().len() < pre.spec_expected()
    }
    // an unacceptable answer changes nothing
    &&& (!{
        &&& result_matches_kind(pre.spec_request(), result)
        &&& !has_holder(pre.spec_responses(), holder)
        &&& pre.spec_responses().len() < pre.spec_expected()
    } ==> post == pre && reply is None)
    // a reply is owed exactly on a terminal step: a holder error or the
    // last expected answer of a mutation, a hit or the last expected
    // error of a get
    &&& (({
        &&& !pre.spec_concluded()
        &&& result_matches_kind(pre.spec_request(), result)
        &&& !has_holder(pre.spec_responses(), holder)
        &&& pre.spec_responses().len() < pre.spec_expected()
    }) ==> match result {
        HolderResult::Mutation(Ok(())) => if pre.spec_responses().len() + 1
            == pre.spec_expected() {
            reply matches Some(Response::Mutation(Ok(())))
        } else {
            reply is None
        },
        HolderResult::Mutation(Err(e0)) => reply matches Some(Response::Mutation(Err(e))) && e@
            == e0@,
        HolderResult::Get(Ok(_)) => reply matches Some(Response::GetIData(Ok(_))),
        HolderResult::Get(Err(_)) => if pre.spec_responses().len() + 1 == pre.spec_expected() {
            reply matches Some(Response::GetIData(Err(_)))
        } else {
            reply is None
        },
    })
    // a put or unpublish-delete fails on the first holder error
    &&& match reply {
        Some(Response::Mutation(Err(e))) => is_mutation_kind(pre.spec_request()) && (result
            matches HolderResult::Mutation(Err(e0)) && e@ == e0@),
        _ => true,
    }
    // a put or unpublish-delete succeeds only by unanimity of all N
    &&& match reply {
        Some(Response::Mutation(Ok(()))) => is_mutation_kind(pre.spec_request())
            && post.spec_responses().len() == post.spec_expected() && all_mutation_ok(
            post.spec_responses(),
        ),
        _ => true,
    }
    // the first holder that returns the blob decides a get
    &&& (({
        &&& !pre.spec_concluded()
        &&& pre.spec_request() matches IDataRequest::Get(_)
        &&& !has_holder(pre.spec_responses(), holder)
        &&& pre.spec_responses().len() < pre.spec_expected()
        &&& result matches HolderResult::Get(Ok(_))
    }) ==> match (reply, result) {
        (Some(Response::GetIData(Ok(b2))), HolderResult::Get(Ok(b))) => b2@ == b@,
        _ => false,
    })
    // a failed get reports the worst recorded error, only after all N
    &&& match reply {
        Some(Response::GetIData(Err(e))) => {
            &&& !is_mutation_kind(pre.spec_request())
            &&& post.spec_responses().len() == post.spec_expected()
            &&& all_get_err(post.spec_responses())
            &&& exists|i: int|
                0 <= i < post.spec_responses().len()
                    && ((#[trigger] post.spec_responses()[i]).result matches HolderResult::Get(
                    Err(e2),
                ) && e2@ == e@)
            &&& forall|i: int|
                0 <= i < post.spec_responses().len()
                    ==> ((#[trigger] post.spec_responses()[i]).result matches HolderResult::Get(
                    Err(e2),
                ) ==> err_sev(e2@) <= err_sev(e@))
        },
        _ => true,
    }
}

/// One outstanding client-originated immutable-data operation.
#[derive(Debug, PartialEq, Eq)]
pub struct IDataOp {
    client: PublicId,
    request: IDataRequest,
    responses: Vec<HolderResponse>,
    expected: u64,
    concluded: bool,
}

impl IDataOp {
    /// The client the eventual reply is owed to.
    pub closed spec fn spec_client(self) -> PublicId {
        self.client
    }

    /// The request being coordinated.
    pub closed spec fn spec_request(self) -> IDataRequest {
        self.request
    }

    /// The recorded per-holder answers.
    pub closed spec fn spec_responses(self) -> Seq<HolderResponse> {
        self.responses@
    }

    /// The fan-out width N.
    pub closed spec fn spec_expected(self) -> nat {
        self.expected as nat
    }

    /// Whether the client-visible reply has been emitted.
    pub closed spec fn spec_concluded(self) -> bool {
        self.concluded
    }

    /// Well-formedness: answers never outnumber the fan-out, no holder is
    /// counted twice, answers are of the request's kind, a recorded get hit
    /// means the op is concluded, and an unconcluded mutation op has seen
    /// only successes.
    pub open spec fn wf(self) -> bool {
        &&& 1 <= self.spec_expected()
        &&& self.spec_responses().len() <= self.spec_expected()
        &&& holders_unique(self.spec_responses())
        &&& forall|i: int|
            0 <= i < self.spec_responses().len() ==> result_matches_kind(
                self.spec_request(),
                (#[trigger] self.spec_responses()[i]).result,
            )
        &&& (!is_mutation_kind(self.spec_request()) && some_get_ok(self.spec_responses())
            ==> self.spec_concluded())
        &&& (is_mutation_kind(self.spec_request()) && !self.spec_concluded()
            ==> all_mutation_ok(self.spec_responses()))
    }

    /// A fresh operation awaiting its first holder answer.
    pub fn new(client: PublicId, request: IDataRequest, expected: u64) -> (op: IDataOp)
        requires
            expected >= 1,
        ensures
            op.wf(),
            op.spec_client() == client,
            op.spec_request() == request,
            op.spec_responses().len() == 0,
            op.spec_expected() == expected as nat,
            !op.spec_concluded(),
    {
        IDataOp { client, request, responses: Vec::new(), expected, concluded: false }
    }

    /// The client the eventual reply is owed to.
    pub fn client(&self) -> (c: PublicId)
        ensures
            c == self.spec_client(),
    {
        self.client
    }

    /// Whether the client-visible reply has been emitted.
    pub fn concluded(&self) -> (c: bool)
        ensures
            c == self.spec_concluded(),
    {
        self.concluded
    }

    /// The fan-out width N.
    pub fn expected_width(&self) -> (n: u64)
        ensures
            n as nat == self.spec_expected(),
    {
        self.expected
    }

    /// How many holders have answered.
    pub fn response_count(&self) -> (n: u64)
        ensures
            n as nat == self.spec_responses().len(),
    {
        self.responses.len() as u64
    }

    fn holder_recorded(&self, holder: &Vec<u8>) -> (r: bool)
        ensures
            r == has_holder(self.spec_responses(), holder@),
    {
        let mut i: usize = 0;
        while i < self.responses.len()
            invariant
                i <= self.responses@.len(),
                forall|j: int| 0 <= j < i ==> (#[trigger] self.responses@[j]).holder@ != holder@,
            decreases self.responses.len() - i,
        {
            if crate::types::bytes_eq(&self.responses[i].holder, holder) {
                return true;
            }
            i += 1;
        }
        false
    }

    /// The worst error among an all-error set of get answers: one of them,
    /// and none is more severe.
    fn worst_get_error(&self) -> (e: Error)
        requires
            all_get_err(self.spec_responses()),
            self.spec_responses().len() >= 1,
        ensures
            exists|i: int|
                0 <= i < self.spec_responses().len()
                    && ((#[trigger] self.spec_responses()[i]).result matches HolderResult::Get(
                    Err(e2),
                ) && e2@ == e@),
            forall|i: int|
                0 <= i < self.spec_responses().len() ==> ((#[trigger] self.spec_responses()[i]).result
                    matches HolderResult::Get(Err(e2)) ==> err_sev(e2@) <= err_sev(e@)),
    {
        let mut best: Error = match &self.responses[0].result {
            HolderResult::Get(Err(e)) => e.clone_error(),
            _ => {
                proof {
                    assert(false);
                }
                Error::NoSuchData
            }
        };
        let ghost best_i: int = 0;
        let mut i: usize = 1;
        while i < self.responses.len()
            invariant
                1 <= i <= self.responses@.len(),
                all_get_err(self.spec_responses()),
                0 <= best_i < i,
                self.spec_responses()[best_i].result matches HolderResult::Get(Err(e2)) && e2@
                    == best@,
                forall|j: int|
                    0 <= j < i ==> ((#[trigger] self.spec_responses()[j]).result matches
                        HolderResult::Get(Err(e2)) ==> err_sev(e2@) <= err_sev(best@)),
            decreases self.responses.len() - i,
        {
            match &self.responses[i].result {
                HolderResult::Get(Err(e)) => {
                    if sev_of(e) > sev_of(&best) {
                        best = e.clone_error();
                        proof {
                            best_i = i as int;
                        }
                    }
                }
                _ => {
                    proof {
                        assert(false);
                    }
                }
            }
            i += 1;
        }
        best
    }

    /// Fold in one holder's answer and say what, if anything, goes back to
    /// the client. An answer of the wrong kind, from a holder already
    /// counted, or beyond the fan-out width changes nothing.
    pub fn handle_holder_response(&mut self, holder: &Vec<u8>, result: HolderResult) -> (reply:
        Option<Response>)
        requires
            old(self).wf(),
        ensures
            fold_transition(*old(self), *final(self), holder@, result, reply),
    {
        let mutation_kind = matches!(
            self.request,
            IDataRequest::Put(_) | IDataRequest::DeleteUnpub(_)
        );
        let kind_ok = match &result {
            HolderResult::Mutation(_) => mutation_kind,
            HolderResult::Get(_) => !mutation_kind,
        };
        if !kind_ok {
            return None;
        }
        if self.holder_recorded(holder) {
            return None;
        }
        if self.responses.len() as u64 >= self.expected {
            return None;
        }
        let ghost pre = *self;
        if mutation_kind {
            let failure: Option<Error> = match &result {
                HolderResult::Mutation(Err(e)) => Some(e.clone_error()),
                _ => None,
            };
            self.responses.push(HolderResponse { holder: clone_bytes(holder), result });
            proof {
                assert(self.responses@.drop_last() =~= pre.responses@);
            }
            if self.concluded {
                return None;
            }
            match failure {
                Some(e) => {
                    self.concluded = true;
                    Some(Response::Mutation(Err(e)))
                }
                None => {
                    if self.responses.len() as u64 == self.expected {
                        self.concluded = true;
                        Some(Response::Mutation(Ok(())))
                    } else {
                        None
                    }
                }
            }
        } else {
            let hit: Option<Blob> = match &result {
                HolderResult::Get(Ok(b)) => Some(b.clone_chunk()),
                _ => None,
            };
            self.responses.push(HolderResponse { holder: clone_bytes(holder), result });
            proof {
                assert(self.responses@.drop_last() =~= pre.responses@);
            }
            if self.concluded {
                return None;
            }
            match hit {
                Some(b) => {
                    self.concluded = true;
                    Some(Response::GetIData(Ok(b)))
                }
                None => {
                    if self.responses.len() as u64 == self.expected {
                        self.concluded = true;
                        let worst = self.worst_get_error();
                        Some(Response::GetIData(Err(worst)))
                    } else {
                        None
                    }
                }
            }
        }
    }
}

/// How severe an error is; the order `worst_get_error` maximises.
fn sev_of(e: &Error) -> (s: u64)
    ensures
        s as int == err_sev(e@),
{
    match e {
        Error::NoSuchData => 0,
        Error::NoSuchEntry => 1,
        Error::DataExists => 2,
        Error::EntryExists => 3,
        Error::InvalidOperation => 4,
        Error::InvalidOwners => 5,
        Error::AccessDenied => 6,
        Error::InvalidSuccessor(_) => 7,
        Error::NotEnoughSpace => 8,
        Error::NetworkOther(_) => 9,
    }
}

/// An in-flight operation never holds more answers than its fan-out width.
pub proof fn lemma_responses_bounded(op: IDataOp)
    requires
        op.wf(),
    ensures
        op.spec_responses().len() <= op.spec_expected(),
{
}

/// Once any holder's answer carried the blob, the operation stands
/// concluded: the client's reply was emitted when that answer arrived.
pub proof fn lemma_get_ok_concludes(op: IDataOp)
    requires
        op.wf(),
        !is_mutation_kind(op.spec_request()),
        some_get_ok(op.spec_responses()),
    ensures
        op.spec_concluded(),
{
}

/// A put that has not concluded has seen nothing but successes, so a
/// client can only ever see a success once every chosen holder acknowledged.
pub proof fn lemma_put_needs_unanimity(op: IDataOp)
    requires
        op.wf(),
        is_mutation_kind(op.spec_request()),
        !op.spec_concluded(),
    ensures
        all_mutation_ok(op.spec_responses()),
{
}

} // verus!
