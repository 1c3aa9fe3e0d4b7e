//! The multi-holder aggregation policies, exercised on one in-flight
//! operation at a time.

use vault_core::idata::Blob;
use vault_core::idata_op::{HolderResult, IDataOp, IDataRequest};
use vault_core::rpc::Response;
use vault_core::types::{Error, PublicId, Scope};

fn holder(i: u8) -> Vec<u8> {
    vec![i; 4]
}

/// A get concludes on the first holder that returns the blob, even with
/// one holder never answering; the record keeps growing afterwards, so
/// the operation is only dropped once every holder has answered.
#[test]
fn get_first_hit_wins_with_unresponsive_holder() {
    let blob = Blob::new(Scope::Public, None, b"payload".to_vec());
    let client = PublicId::Client(1);
    let mut op = IDataOp::new(client, IDataRequest::Get(blob.address()), 8);

    // six holders answer with an error first
    for i in 0..6u8 {
        let r = op.handle_holder_response(
            &holder(i),
            HolderResult::Get(Err(Error::NoSuchData)),
        );
        assert!(r.is_none());
        assert!(!op.concluded());
    }
    // the seventh has the blob: the client reply fires now
    let r = op.handle_holder_response(&holder(6), HolderResult::Get(Ok(blob.clone())));
    match r {
        Some(Response::GetIData(Ok(b))) => assert_eq!(b, blob),
        other => panic!("expected the blob, got {:?}", other),
    }
    assert!(op.concluded());
    assert_eq!(op.response_count(), 7);
    // the eighth never answers; a late error is recorded but silent
    let r = op.handle_holder_response(&holder(7), HolderResult::Get(Err(Error::NoSuchData)));
    assert!(r.is_none());
    assert_eq!(op.response_count(), 8);
}

/// A put succeeds only by unanimity: seven acks keep the client waiting,
/// the eighth releases the single success.
#[test]
fn put_requires_unanimity() {
    let blob = Blob::new(Scope::Public, None, b"x".to_vec());
    let mut op = IDataOp::new(PublicId::Client(2), IDataRequest::Put(blob), 8);
    for i in 0..7u8 {
        let r = op.handle_holder_response(&holder(i), HolderResult::Mutation(Ok(())));
        assert!(r.is_none());
    }
    let r = op.handle_holder_response(&holder(7), HolderResult::Mutation(Ok(())));
    assert!(matches!(r, Some(Response::Mutation(Ok(())))));
    assert!(op.concluded());
}

/// A put fails on the first holder error, and the latch keeps later
/// answers from producing a second reply.
#[test]
fn put_fails_fast_and_latches() {
    let blob = Blob::new(Scope::Public, None, b"y".to_vec());
    let mut op = IDataOp::new(PublicId::Client(3), IDataRequest::Put(blob), 3);
    let r = op.handle_holder_response(&holder(0), HolderResult::Mutation(Ok(())));
    assert!(r.is_none());
    let r = op.handle_holder_response(
        &holder(1),
        HolderResult::Mutation(Err(Error::NotEnoughSpace)),
    );
    match r {
        Some(Response::Mutation(Err(e))) => assert_eq!(e, Error::NotEnoughSpace),
        other => panic!("expected the holder's error, got {:?}", other),
    }
    assert!(op.concluded());
    // the last holder's late success is recorded but ignored
    let r = op.handle_holder_response(&holder(2), HolderResult::Mutation(Ok(())));
    assert!(r.is_none());
    assert_eq!(op.response_count(), 3);
}

/// A get that every holder fails reports the worst of their errors.
#[test]
fn get_all_errors_reports_worst() {
    let blob = Blob::new(Scope::Public, None, b"z".to_vec());
    let mut op = IDataOp::new(PublicId::Client(4), IDataRequest::Get(blob.address()), 3);
    assert!(op.handle_holder_response(&holder(0), HolderResult::Get(Err(Error::NoSuchData)))
        .is_none());
    assert!(op.handle_holder_response(&holder(1), HolderResult::Get(Err(Error::AccessDenied)))
        .is_none());
    let r = op.handle_holder_response(&holder(2), HolderResult::Get(Err(Error::NoSuchData)));
    match r {
        Some(Response::GetIData(Err(e))) => assert_eq!(e, Error::AccessDenied),
        other => panic!("expected the worst error, got {:?}", other),
    }
}

/// A transport failure carried as text outranks a missing chunk.
#[test]
fn get_transport_failure_is_worst() {
    let blob = Blob::new(Scope::Public, None, b"t".to_vec());
    let mut op = IDataOp::new(PublicId::Client(6), IDataRequest::Get(blob.address()), 2);
    assert!(op
        .handle_holder_response(
            &holder(0),
            HolderResult::Get(Err(Error::NetworkOther("disk failed".to_string()))),
        )
        .is_none());
    let r = op.handle_holder_response(&holder(1), HolderResult::Get(Err(Error::NoSuchData)));
    match r {
        Some(Response::GetIData(Err(Error::NetworkOther(text)))) => {
            assert_eq!(text, "disk failed");
        }
        other => panic!("expected the carried text, got {:?}", other),
    }
}

/// A holder counted once is never counted again, and answers of the
/// wrong kind change nothing: the record stays within the fan-out width.
#[test]
fn responses_stay_bounded() {
    let blob = Blob::new(Scope::Public, None, b"w".to_vec());
    let mut op = IDataOp::new(PublicId::Client(5), IDataRequest::Put(blob), 2);
    assert!(op.handle_holder_response(&holder(0), HolderResult::Mutation(Ok(()))).is_none());
    // the same holder again: ignored
    assert!(op.handle_holder_response(&holder(0), HolderResult::Mutation(Ok(()))).is_none());
    assert_eq!(op.response_count(), 1);
    // an answer of the wrong kind: ignored
    let r = op.handle_holder_response(&holder(1), HolderResult::Get(Err(Error::NoSuchData)));
    assert!(r.is_none());
    assert_eq!(op.response_count(), 1);
    // the second distinct ack concludes
    let r = op.handle_holder_response(&holder(1), HolderResult::Mutation(Ok(())));
    assert!(matches!(r, Some(Response::Mutation(Ok(())))));
    assert_eq!(op.response_count(), 2);
}

/// The client identity recorded at registration is the one the reply
/// goes to.
#[test]
fn op_remembers_its_client() {
    let blob = Blob::new(Scope::Unpublished, Some(9), b"mine".to_vec());
    let op = IDataOp::new(PublicId::Client(9), IDataRequest::DeleteUnpub(blob.address()), 4);
    assert_eq!(op.client(), PublicId::Client(9));
    assert!(!op.concluded());
    assert_eq!(op.response_count(), 0);
}
