//! End-to-end flows through the dispatcher: a client's put travelling to
//! the holders and back, full stores, update races, and deletes.

use vault_core::data_handler::DataHandler;
use vault_core::idata::Blob;
use vault_core::mdata::{MapPermSet, MutableMap};
use vault_core::rpc::{Action, Message, Request, Response, Rpc, SequenceRead, SequenceWrite};
use vault_core::sequence::{Sequence, User};
use vault_core::types::{Error, PublicId, Scope};

fn holder_name(i: u8) -> Vec<u8> {
    vec![i; 4]
}

/// A client puts a public blob; all eight chosen holders acknowledge; the
/// client sees exactly one mutation success. A following get is answered
/// with the identical blob once a holder returns it.
#[test]
fn handle_put_get_normal_flow() {
    let client = PublicId::Client(7);
    let mut elder = DataHandler::new(1, 1 << 20, 8, true);
    let mut adult = DataHandler::new(2, 1 << 20, 8, false);

    let blob = Blob::new(Scope::Public, None, b"hello".to_vec());
    let addr = blob.address();

    // the client's put arrives at the elder
    let action = elder.handle_vault_rpc(
        vec![9, 9],
        Rpc::Request { request: Request::PutIData(blob.clone()), requester: client, message_id: 1 },
    );
    let fan_out = match action {
        Some(Action::SendToSection { target, message }) => {
            assert_eq!(target, addr.name);
            message
        }
        other => panic!("expected a fan-out, got {:?}", other),
    };

    // one chosen holder stores the replica
    let (req, requester, msg_id) = match fan_out {
        Message::Request { request, requester, message_id } => (request, requester, message_id),
        other => panic!("expected a request, got {:?}", other),
    };
    assert!(matches!(requester, PublicId::Node(_)));
    let stored = adult.handle_vault_rpc(
        vec![1],
        Rpc::Request { request: req, requester, message_id: msg_id },
    );
    match stored {
        Some(Action::SendToPeer { message, .. }) => match message {
            Message::QueryResponse { response: Response::Mutation(Ok(())), correlation_id } => {
                assert_eq!(correlation_id, 1);
            }
            other => panic!("expected a mutation ack, got {:?}", other),
        },
        other => panic!("expected a peer response, got {:?}", other),
    }

    // seven holders acknowledge: not enough for unanimity of eight
    for i in 0..7u8 {
        let r = elder.handle_vault_rpc(
            holder_name(i),
            Rpc::Response { response: Response::Mutation(Ok(())), message_id: 1 },
        );
        assert!(r.is_none());
    }
    // the eighth concludes the put
    let done = elder.handle_vault_rpc(
        holder_name(7),
        Rpc::Response { response: Response::Mutation(Ok(())), message_id: 1 },
    );
    match done {
        Some(Action::SendToClient { client: c, message }) => {
            assert_eq!(c, client);
            match message {
                Message::QueryResponse { response: Response::Mutation(Ok(())), correlation_id } => {
                    assert_eq!(correlation_id, 1)
                }
                other => panic!("expected the client's success, got {:?}", other),
            }
        }
        other => panic!("expected the client reply, got {:?}", other),
    }

    // a following get: fan-out, then the holder's blob reaches the client
    let action = elder.handle_vault_rpc(
        vec![9, 9],
        Rpc::Request {
            request: Request::GetIData(blob.address()),
            requester: client,
            message_id: 2,
        },
    );
    let fan_out = match action {
        Some(Action::SendToSection { target, message }) => {
            assert_eq!(target, addr.name);
            message
        }
        other => panic!("expected a fan-out, got {:?}", other),
    };
    let (req, requester, msg_id) = match fan_out {
        Message::Request { request, requester, message_id } => (request, requester, message_id),
        other => panic!("expected a request, got {:?}", other),
    };
    let served = adult.handle_vault_rpc(
        vec![1],
        Rpc::Request { request: req, requester, message_id: msg_id },
    );
    let holder_result = match served {
        Some(Action::SendToPeer { message, .. }) => match message {
            Message::QueryResponse { response: Response::GetIData(result), .. } => result,
            other => panic!("expected a get answer, got {:?}", other),
        },
        other => panic!("expected a peer response, got {:?}", other),
    };
    let got = holder_result.expect("the holder keeps the blob");
    assert_eq!(got, blob);

    let reply = elder.handle_vault_rpc(
        holder_name(0),
        Rpc::Response { response: Response::GetIData(Ok(got)), message_id: 2 },
    );
    match reply {
        Some(Action::SendToClient { client: c, message }) => {
            assert_eq!(c, client);
            match message {
                Message::QueryResponse {
                    response: Response::GetIData(Ok(b)),
                    correlation_id,
                } => {
                    assert_eq!(correlation_id, 2);
                    assert_eq!(b, blob);
                }
                other => panic!("expected the blob, got {:?}", other),
            }
        }
        other => panic!("expected the client reply, got {:?}", other),
    }
}

/// A put into a nearly full store: the holder reports `NotEnoughSpace`
/// and its account of used space does not move.
#[test]
fn handle_put_get_error_flow() {
    let mut holder = DataHandler::new(3, 1024, 8, false);
    let filler = Blob::new(Scope::Public, None, vec![0u8; 1020]);
    let r = holder.handle_vault_rpc(
        vec![1],
        Rpc::Request {
            request: Request::PutIData(filler),
            requester: PublicId::Node(1),
            message_id: 10,
        },
    );
    assert!(matches!(
        r,
        Some(Action::SendToPeer {
            message: Message::QueryResponse { response: Response::Mutation(Ok(())), .. },
            ..
        })
    ));
    assert_eq!(holder.holder_used_space(), 1020);

    let too_big = Blob::new(Scope::Public, None, vec![1u8; 8]);
    let r = holder.handle_vault_rpc(
        vec![1],
        Rpc::Request {
            request: Request::PutIData(too_big),
            requester: PublicId::Node(1),
            message_id: 11,
        },
    );
    match r {
        Some(Action::SendToPeer { message, .. }) => match message {
            Message::QueryResponse { response: Response::Mutation(Err(e)), correlation_id } => {
                assert_eq!(correlation_id, 11);
                assert_eq!(e, Error::NotEnoughSpace);
            }
            other => panic!("expected the space error, got {:?}", other),
        },
        other => panic!("expected a peer response, got {:?}", other),
    }
    assert_eq!(holder.holder_used_space(), 1020);
}

/// A mutable map at version 3; two writers both declare version 4. The
/// first lands, the second is told the current version.
#[test]
fn handle_post() {
    let owner = PublicId::Client(40);
    let mut elder = DataHandler::new(4, 1 << 20, 8, true);
    let map = MutableMap::new(vec![4; 8], Scope::Private, 99, 40);
    let addr = map.address();
    let r = elder.handle_vault_rpc(
        vec![9],
        Rpc::Request { request: Request::PutMData(map), requester: owner, message_id: 20 },
    );
    assert!(matches!(
        r,
        Some(Action::SendToClient {
            message: Message::QueryResponse { response: Response::Mutation(Ok(())), .. },
            ..
        })
    ));

    let grant = MapPermSet { read: true, insert: false, update: false, delete: false, manage: false };
    // three permission changes carry the map to version 3
    for v in 1..=3u64 {
        let r = elder.handle_vault_rpc(
            vec![9],
            Rpc::Request {
                request: Request::SetMDataUserPermissions {
                    address: addr.clone(),
                    user: User::Key(v),
                    permissions: grant,
                    version: v,
                },
                requester: owner,
                message_id: 20 + v,
            },
        );
        assert!(matches!(
            r,
            Some(Action::SendToClient {
                message: Message::QueryResponse { response: Response::Mutation(Ok(())), .. },
                ..
            })
        ));
    }

    // the race: both updates declare version 4
    let r = elder.handle_vault_rpc(
        vec![9],
        Rpc::Request {
            request: Request::SetMDataUserPermissions {
                address: addr.clone(),
                user: User::Anyone,
                permissions: grant,
                version: 4,
            },
            requester: owner,
            message_id: 30,
        },
    );
    assert!(matches!(
        r,
        Some(Action::SendToClient {
            message: Message::QueryResponse { response: Response::Mutation(Ok(())), .. },
            ..
        })
    ));
    let r = elder.handle_vault_rpc(
        vec![9],
        Rpc::Request {
            request: Request::SetMDataUserPermissions {
                address: addr,
                user: User::Anyone,
                permissions: grant,
                version: 4,
            },
            requester: owner,
            message_id: 31,
        },
    );
    match r {
        Some(Action::SendToClient { message, .. }) => match message {
            Message::QueryResponse { response: Response::Mutation(Err(e)), .. } => {
                assert_eq!(e, Error::InvalidSuccessor(4));
            }
            other => panic!("expected the version clash, got {:?}", other),
        },
        other => panic!("expected a reply, got {:?}", other),
    }
}

/// A delete of a public sequence is refused as `InvalidOperation`, and
/// the sequence stays retrievable.
#[test]
fn handle_delete() {
    let owner = PublicId::Client(50);
    let mut elder = DataHandler::new(5, 1 << 20, 8, true);
    let seq = Sequence::new(vec![5; 8], Scope::Public);
    let addr = seq.address();
    let r = elder.handle_vault_rpc(
        vec![9],
        Rpc::Request {
            request: Request::SequenceWrite(SequenceWrite::New(seq)),
            requester: owner,
            message_id: 40,
        },
    );
    assert!(r.is_none(), "creation succeeds silently");

    let r = elder.handle_vault_rpc(
        vec![9],
        Rpc::Request {
            request: Request::SequenceWrite(SequenceWrite::Delete(addr.clone())),
            requester: owner,
            message_id: 41,
        },
    );
    match r {
        Some(Action::SendToClient { message, .. }) => match message {
            Message::CmdError { error, correlation_id } => {
                assert_eq!(correlation_id, 41);
                assert_eq!(error, Error::InvalidOperation);
            }
            other => panic!("expected the refusal, got {:?}", other),
        },
        other => panic!("expected a command error, got {:?}", other),
    }

    // still retrievable
    let r = elder.handle_vault_rpc(
        vec![9],
        Rpc::Request {
            request: Request::SequenceRead(SequenceRead::Get(addr)),
            requester: owner,
            message_id: 42,
        },
    );
    assert!(matches!(
        r,
        Some(Action::SendToClient {
            message: Message::QueryResponse { response: Response::GetSequence(Ok(_)), .. },
            ..
        })
    ));
}

/// A holder asked for a blob it does not keep answers `NoSuchData`.
#[test]
fn get_non_existing_data() {
    let holder = DataHandler::new(6, 1024, 8, false);
    let mut holder = holder;
    let blob = Blob::new(Scope::Public, None, b"absent".to_vec());
    let r = holder.handle_vault_rpc(
        vec![1],
        Rpc::Request {
            request: Request::GetIData(blob.address()),
            requester: PublicId::Node(1),
            message_id: 60,
        },
    );
    match r {
        Some(Action::SendToPeer { message, .. }) => match message {
            Message::QueryResponse { response: Response::GetIData(Err(e)), correlation_id } => {
                assert_eq!(correlation_id, 60);
                assert_eq!(e, Error::NoSuchData);
            }
            other => panic!("expected no such data, got {:?}", other),
        },
        other => panic!("expected a peer response, got {:?}", other),
    }
}

/// A holder that stored a blob serves it back byte for byte.
#[test]
fn get_existing_data() {
    let mut holder = DataHandler::new(7, 1024, 8, false);
    let blob = Blob::new(Scope::Public, None, b"kept".to_vec());
    let r = holder.handle_vault_rpc(
        vec![1],
        Rpc::Request {
            request: Request::PutIData(blob.clone()),
            requester: PublicId::Node(1),
            message_id: 70,
        },
    );
    assert!(matches!(
        r,
        Some(Action::SendToPeer {
            message: Message::QueryResponse { response: Response::Mutation(Ok(())), .. },
            ..
        })
    ));
    let r = holder.handle_vault_rpc(
        vec![1],
        Rpc::Request {
            request: Request::GetIData(blob.address()),
            requester: PublicId::Node(1),
            message_id: 71,
        },
    );
    match r {
        Some(Action::SendToPeer { message, .. }) => match message {
            Message::QueryResponse { response: Response::GetIData(Ok(b)), correlation_id } => {
                assert_eq!(correlation_id, 71);
                assert_eq!(b, blob);
            }
            other => panic!("expected the stored blob, got {:?}", other),
        },
        other => panic!("expected a peer response, got {:?}", other),
    }
}

/// An in-flight operation answers to its client while it lives, and is
/// dropped as soon as its last expected answer has arrived.
#[test]
fn in_flight_op_is_dropped_when_complete() {
    let client = PublicId::Client(12);
    let mut elder = DataHandler::new(11, 1 << 20, 2, true);
    let blob = Blob::new(Scope::Public, None, b"short".to_vec());
    let r = elder.handle_vault_rpc(
        vec![9],
        Rpc::Request { request: Request::PutIData(blob), requester: client, message_id: 110 },
    );
    assert!(matches!(r, Some(Action::SendToSection { .. })));
    assert_eq!(elder.client_id(110), Some(client));

    let r = elder.handle_vault_rpc(
        holder_name(0),
        Rpc::Response { response: Response::Mutation(Ok(())), message_id: 110 },
    );
    assert!(r.is_none());
    assert_eq!(elder.client_id(110), Some(client));

    let r = elder.handle_vault_rpc(
        holder_name(1),
        Rpc::Response { response: Response::Mutation(Ok(())), message_id: 110 },
    );
    assert!(matches!(r, Some(Action::SendToClient { .. })));
    // both expected answers are in: the operation is gone
    assert_eq!(elder.client_id(110), None);
    // a stray late answer is dropped without a reply
    let r = elder.handle_vault_rpc(
        holder_name(1),
        Rpc::Response { response: Response::Mutation(Ok(())), message_id: 110 },
    );
    assert!(r.is_none());
}

/// A repeated message id cannot be correlated, so it is refused.
#[test]
fn repeated_message_id_is_refused() {
    let client = PublicId::Client(13);
    let mut elder = DataHandler::new(12, 1 << 20, 4, true);
    let blob = Blob::new(Scope::Public, None, b"first".to_vec());
    let r = elder.handle_vault_rpc(
        vec![9],
        Rpc::Request { request: Request::PutIData(blob), requester: client, message_id: 120 },
    );
    assert!(matches!(r, Some(Action::SendToSection { .. })));
    let other = Blob::new(Scope::Public, None, b"second".to_vec());
    let r = elder.handle_vault_rpc(
        vec![9],
        Rpc::Request { request: Request::PutIData(other), requester: client, message_id: 120 },
    );
    match r {
        Some(Action::SendToClient { message, .. }) => match message {
            Message::QueryResponse { response: Response::Mutation(Err(e)), .. } => {
                assert_eq!(e, Error::InvalidOperation);
            }
            other => panic!("expected the refusal, got {:?}", other),
        },
        other => panic!("expected a reply, got {:?}", other),
    }
}

/// The node has one capacity: bytes held as replicas count against the
/// sequence store too, and the refusal names the missing room.
#[test]
fn stores_share_the_node_capacity() {
    let mut elder = DataHandler::new(13, 100, 2, true);
    // sixty bytes land in the replica holder
    let blob = Blob::new(Scope::Public, None, vec![7u8; 60]);
    let r = elder.handle_vault_rpc(
        vec![1],
        Rpc::Request {
            request: Request::PutIData(blob),
            requester: PublicId::Node(1),
            message_id: 130,
        },
    );
    assert!(matches!(
        r,
        Some(Action::SendToPeer {
            message: Message::QueryResponse { response: Response::Mutation(Ok(())), .. },
            ..
        })
    ));
    assert_eq!(elder.total_used_space(), 60);

    // a fifty-byte sequence entry no longer fits the node
    let owner = PublicId::Client(5);
    let mut seq = Sequence::new(vec![9; 8], Scope::Private);
    seq.append_owner(vault_core::sequence::Owner {
        public_key: 5,
        entries_index: 0,
        permissions_index: 0,
    });
    let addr = seq.address();
    let r = elder.handle_vault_rpc(
        vec![9],
        Rpc::Request {
            request: Request::SequenceWrite(SequenceWrite::New(seq)),
            requester: owner,
            message_id: 131,
        },
    );
    assert!(r.is_none());
    let r = elder.handle_vault_rpc(
        vec![9],
        Rpc::Request {
            request: Request::SequenceWrite(SequenceWrite::Edit(
                vault_core::rpc::SequenceWriteOp { address: addr, entry: vec![1u8; 50] },
            )),
            requester: owner,
            message_id: 132,
        },
    );
    assert!(matches!(
        r,
        Some(Action::SendToClient {
            message: Message::CmdError { error: Error::NotEnoughSpace, .. },
            ..
        })
    ));
    assert_eq!(elder.total_used_space(), 60);
}

/// Storing the same replica twice is acknowledged both times and weighs
/// its bytes only once.
#[test]
fn holder_restore_is_idempotent() {
    let mut holder = DataHandler::new(14, 1024, 2, false);
    let blob = Blob::new(Scope::Public, None, b"again".to_vec());
    for id in [140u64, 141u64] {
        let r = holder.handle_vault_rpc(
            vec![1],
            Rpc::Request {
                request: Request::PutIData(blob.clone()),
                requester: PublicId::Node(1),
                message_id: id,
            },
        );
        assert!(matches!(
            r,
            Some(Action::SendToPeer {
                message: Message::QueryResponse { response: Response::Mutation(Ok(())), .. },
                ..
            })
        ));
    }
    assert_eq!(holder.holder_used_space(), 5);
}

/// A request outside the data handler's scope is ignored: no outbound
/// message, no state change.
#[test]
fn out_of_scope_request_is_dropped() {
    let mut elder = DataHandler::new(8, 1024, 8, true);
    let r = elder.handle_vault_rpc(
        vec![9],
        Rpc::Request {
            request: Request::GetBalance,
            requester: PublicId::Client(1),
            message_id: 80,
        },
    );
    assert!(r.is_none());
    assert_eq!(elder.holder_used_space(), 0);
}

/// A response kind no data handler emits is ignored.
#[test]
fn foreign_response_is_dropped() {
    let mut elder = DataHandler::new(9, 1024, 8, true);
    let r = elder.handle_vault_rpc(
        vec![9],
        Rpc::Response { response: Response::GetBalance(Ok(5)), message_id: 90 },
    );
    assert!(r.is_none());
}

/// An adult drops elder-only requests with no reply.
#[test]
fn adult_drops_elder_requests() {
    let mut adult = DataHandler::new(10, 1024, 8, false);
    let map = MutableMap::new(vec![1; 8], Scope::Private, 0, 1);
    let r = adult.handle_vault_rpc(
        vec![9],
        Rpc::Request {
            request: Request::PutMData(map),
            requester: PublicId::Client(1),
            message_id: 100,
        },
    );
    assert!(r.is_none());
}
