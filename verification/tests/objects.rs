//! The typed objects and the chunk store underneath them: names, sizes,
//! round trips, permissions, versions.

use vault_core::chunk_store::{Chunk, ChunkStore, ChunkStoreError};
use vault_core::digest::blob_name;
use vault_core::idata::Blob;
use vault_core::idata_holder::IDataHolder;
use vault_core::mdata::{EntryAction, MapPermSet, MutableMap};
use vault_core::mdata_handler::MDataHandler;
use vault_core::rpc::{
    Action, IndexedEntry, Message, OwnerWriteOp, Response, SequenceRead, SequenceWrite,
    SequenceWriteOp,
};
use vault_core::sequence::{Owner, SeqIndex, SeqPermSet, SeqPermissions, SeqUserPerm, Sequence, User};
use vault_core::sequence_storage::SequenceStorage;
use vault_core::types::{Error, PublicId, Scope};

/// The content name is a digest, not the payload handed back: 32 bytes,
/// the same for the same input, different for different bytes or scope.
#[test]
fn blob_names_are_digests() {
    let name = blob_name(Scope::Public, &b"hello".to_vec());
    assert_eq!(name.len(), 32);
    assert_ne!(name, b"hello".to_vec());
    let again = blob_name(Scope::Public, &b"hello".to_vec());
    assert_eq!(name, again);
    let other = blob_name(Scope::Public, &b"hellp".to_vec());
    assert_ne!(name, other);
    let unpub = blob_name(Scope::Unpublished, &b"hello".to_vec());
    assert_ne!(name, unpub);

    let blob = Blob::new(Scope::Public, None, b"hello".to_vec());
    assert!(blob.is_well_named());
    let misnamed = Blob::with_name(b"hello".to_vec(), Scope::Public, None, b"hello".to_vec());
    assert!(!misnamed.is_well_named());
}

/// Put then get hands back the object byte for byte; delete leaves the
/// address empty and `has` false.
#[test]
fn store_round_trip_and_delete() {
    let mut store: ChunkStore<Blob> = ChunkStore::new(1 << 16);
    let blob = Blob::new(Scope::Public, None, b"abc".to_vec());
    let addr = blob.address();
    assert!(!store.has(&addr));
    assert!(store.put(blob.clone(), 0).is_ok());
    assert!(store.has(&addr));
    assert_eq!(store.get(&addr).unwrap(), blob);

    assert!(store.delete(&addr).is_ok());
    assert!(!store.has(&addr));
    assert!(matches!(store.get(&addr), Err(ChunkStoreError::NoSuchChunk)));
    assert!(matches!(store.delete(&addr), Err(ChunkStoreError::NoSuchChunk)));
}

/// Used space is the exact sum of the stored objects' sizes through puts,
/// overwrites and deletes, and the capacity is a hard cap.
#[test]
fn store_accounts_used_space_exactly() {
    let mut store: ChunkStore<Blob> = ChunkStore::new(10);
    let a = Blob::new(Scope::Public, None, vec![1; 4]);
    let b = Blob::new(Scope::Public, None, vec![2; 6]);
    assert_eq!(store.used_space(), 0);
    assert!(store.put(a.clone(), 0).is_ok());
    assert_eq!(store.used_space(), 4);
    assert!(store.put(b.clone(), 0).is_ok());
    assert_eq!(store.used_space(), 10);

    // full to the brim: one more byte is refused
    let c = Blob::new(Scope::Public, None, vec![3; 1]);
    assert!(matches!(store.put(c, 0), Err(ChunkStoreError::NotEnoughSpace)));
    assert_eq!(store.used_space(), 10);

    assert!(store.delete(&a.address()).is_ok());
    assert_eq!(store.used_space(), 6);
    assert!(store.delete(&b.address()).is_ok());
    assert_eq!(store.used_space(), 0);
    assert_eq!(store.list().len(), 0);

    // the empty blob weighs nothing
    let empty = Blob::new(Scope::Public, None, Vec::new());
    assert!(store.put(empty, 0).is_ok());
    assert_eq!(store.used_space(), 0);
    assert_eq!(store.list().len(), 1);
}

/// Recovery rebuilds the account of used space from the objects read
/// back from disk.
#[test]
fn store_recovery_rebuilds_accounting() {
    let a = Blob::new(Scope::Public, None, vec![1; 4]);
    let b = Blob::new(Scope::Public, None, vec![2; 6]);
    let store: ChunkStore<Blob> = ChunkStore::recover(vec![a.clone(), b.clone()], 16).unwrap();
    assert_eq!(store.used_space(), 10);
    assert!(store.has(&a.address()));
    assert!(store.has(&b.address()));

    let too_much = vec![Blob::new(Scope::Public, None, vec![3; 20])];
    assert!(matches!(
        ChunkStore::<Blob>::recover(too_much, 16),
        Err(ChunkStoreError::NotEnoughSpace)
    ));
}

/// An unpublished blob goes at its owner's word alone; a public blob is
/// permanent even for its uploader.
#[test]
fn holder_delete_rules() {
    let mut holder = IDataHolder::new(1, 1 << 16);
    let owned = Blob::new(Scope::Unpublished, Some(5), b"secret".to_vec());
    let public = Blob::new(Scope::Public, None, b"open".to_vec());
    for b in [&owned, &public] {
        let r = holder.store_idata(b, PublicId::Node(2), vec![2], 1, 0);
        assert!(matches!(
            r,
            Some(Action::SendToPeer {
                message: Message::QueryResponse { response: Response::Mutation(Ok(())), .. },
                ..
            })
        ));
    }

    // a stranger is refused
    let r = holder.delete_unpub_idata(&owned.address(), PublicId::Client(6), vec![2], 2);
    assert!(matches!(
        r,
        Some(Action::SendToPeer {
            message: Message::QueryResponse {
                response: Response::Mutation(Err(Error::InvalidOwners)),
                ..
            },
            ..
        })
    ));
    // the public blob cannot be deleted at all
    let r = holder.delete_unpub_idata(&public.address(), PublicId::Client(5), vec![2], 3);
    assert!(matches!(
        r,
        Some(Action::SendToPeer {
            message: Message::QueryResponse {
                response: Response::Mutation(Err(Error::InvalidOperation)),
                ..
            },
            ..
        })
    ));
    assert!(holder.has_idata(&public.address()));
    // the owner succeeds
    let r = holder.delete_unpub_idata(&owned.address(), PublicId::Client(5), vec![2], 4);
    assert!(matches!(
        r,
        Some(Action::SendToPeer {
            message: Message::QueryResponse { response: Response::Mutation(Ok(())), .. },
            ..
        })
    ));
    assert!(!holder.has_idata(&owned.address()));
}

/// A misnamed blob is refused at store time.
#[test]
fn holder_rejects_misnamed_blob() {
    let mut holder = IDataHolder::new(1, 1 << 16);
    let misnamed = Blob::with_name(vec![0; 32], Scope::Public, None, b"data".to_vec());
    let r = holder.store_idata(&misnamed, PublicId::Node(2), vec![2], 1, 0);
    assert!(matches!(
        r,
        Some(Action::SendToPeer {
            message: Message::QueryResponse {
                response: Response::Mutation(Err(Error::InvalidOperation)),
                ..
            },
            ..
        })
    ));
}

fn unwrap_query(r: Option<Action>) -> Response {
    match r {
        Some(Action::SendToClient { message: Message::QueryResponse { response, .. }, .. }) => {
            response
        }
        other => panic!("expected a query response, got {:?}", other),
    }
}

/// Sequence reads select by index: ranges, the last entry, the current
/// owner and the policy in force.
#[test]
fn sequence_reads_select_by_index() {
    let owner_pk = 7u64;
    let origin = PublicId::Client(owner_pk);
    let mut storage = SequenceStorage::new(1, 1 << 16);
    let seq = Sequence::new(vec![1; 8], Scope::Private);
    let addr = seq.address();
    assert!(storage.write(SequenceWrite::New(seq), 1, &origin, 0).is_none());
    // with no owner yet, reads are refused
    let r = storage.read(&SequenceRead::Get(addr.clone()), 2, &origin);
    assert!(matches!(unwrap_query(r), Response::GetSequence(Err(Error::AccessDenied))));

    // record the owner; the owner may then do anything
    let set = OwnerWriteOp {
        address: addr.clone(),
        owner: Owner { public_key: owner_pk, entries_index: 0, permissions_index: 0 },
    };
    // a stranger may not hand ownership over
    let r = storage.write(SequenceWrite::SetOwner(set.clone()), 3, &PublicId::Client(8), 0);
    assert!(matches!(
        r,
        Some(Action::SendToClient { message: Message::CmdError { .. }, .. })
    ));
    // with no owner and no policy, nobody holds the manage grant, so the
    // first owner record has to be part of the sequence as created
    let mut seq2 = Sequence::new(vec![2; 8], Scope::Private);
    seq2.append_owner(Owner { public_key: owner_pk, entries_index: 0, permissions_index: 0 });
    let addr2 = seq2.address();
    let mut storage = SequenceStorage::new(1, 1 << 16);
    assert!(storage.write(SequenceWrite::New(seq2), 4, &origin, 0).is_none());

    for (i, entry) in [b"one".to_vec(), b"two".to_vec(), b"three".to_vec()].into_iter().enumerate()
    {
        let r = storage.write(
            SequenceWrite::Edit(SequenceWriteOp { address: addr2.clone(), entry }),
            5 + i as u64,
            &origin,
            0,
        );
        assert!(r.is_none());
    }

    let r = storage.read(
        &SequenceRead::GetRange {
            address: addr2.clone(),
            from: SeqIndex::FromStart(1),
            to: SeqIndex::FromEnd(0),
        },
        10,
        &origin,
    );
    match unwrap_query(r) {
        Response::GetSequenceRange(Ok(v)) => {
            assert_eq!(v, vec![b"two".to_vec(), b"three".to_vec()]);
        }
        other => panic!("expected the tail, got {:?}", other),
    }

    // an empty or out-of-bounds range is `NoSuchEntry`
    let r = storage.read(
        &SequenceRead::GetRange {
            address: addr2.clone(),
            from: SeqIndex::FromStart(2),
            to: SeqIndex::FromStart(2),
        },
        11,
        &origin,
    );
    assert!(matches!(
        unwrap_query(r),
        Response::GetSequenceRange(Err(Error::NoSuchEntry))
    ));

    let r = storage.read(&SequenceRead::GetLastEntry(addr2.clone()), 12, &origin);
    match unwrap_query(r) {
        Response::GetSequenceLastEntry(Ok(IndexedEntry { index, entry })) => {
            assert_eq!(index, 2);
            assert_eq!(entry, b"three".to_vec());
        }
        other => panic!("expected the last entry, got {:?}", other),
    }

    let r = storage.read(&SequenceRead::GetOwner { address: addr2.clone(), index: 0 }, 13, &origin);
    match unwrap_query(r) {
        Response::GetSequenceOwner(Ok(o)) => assert_eq!(o.public_key, owner_pk),
        other => panic!("expected the owner, got {:?}", other),
    }

    // no policy has been recorded yet
    let r = storage.read(&SequenceRead::GetPermissions { address: addr2.clone(), index: 0 }, 14, &origin);
    assert!(matches!(
        unwrap_query(r),
        Response::GetSequencePermissions(Err(Error::NoSuchEntry))
    ));

    // record one and read it back
    let policy = SeqPermissions {
        entries_index: 3,
        owners_index: 1,
        users: vec![SeqUserPerm {
            user: User::Key(9),
            perms: SeqPermSet { read: true, append: true, manage: false },
        }],
    };
    let r = storage.write(
        SequenceWrite::SetPrivPermissions(perms_op(&addr2, policy.clone())),
        15,
        &origin,
        0,
    );
    assert!(r.is_none());
    let r = storage.read(
        &SequenceRead::GetUserPermissions { address: addr2.clone(), user: User::Key(9), index: 0 },
        16,
        &origin,
    );
    match unwrap_query(r) {
        Response::GetSequenceUserPermissions(Ok(p)) => {
            assert_eq!(p, SeqPermSet { read: true, append: true, manage: false });
        }
        other => panic!("expected the grant, got {:?}", other),
    }
    // the granted user may now append; a third party still may not
    let r = storage.write(
        SequenceWrite::Edit(SequenceWriteOp { address: addr2.clone(), entry: b"four".to_vec() }),
        17,
        &PublicId::Client(9),
        0,
    );
    assert!(r.is_none());
    let r = storage.write(
        SequenceWrite::Edit(SequenceWriteOp { address: addr2.clone(), entry: b"no".to_vec() }),
        18,
        &PublicId::Client(10),
        0,
    );
    assert!(matches!(
        r,
        Some(Action::SendToClient {
            message: Message::CmdError { error: Error::AccessDenied, .. },
            ..
        })
    ));

    // a private sequence goes at its last owner's word
    let r = storage.write(SequenceWrite::Delete(addr2.clone()), 19, &PublicId::Client(9), 0);
    assert!(matches!(
        r,
        Some(Action::SendToClient {
            message: Message::CmdError { error: Error::InvalidOwners, .. },
            ..
        })
    ));
    assert!(storage.write(SequenceWrite::Delete(addr2.clone()), 20, &origin, 0).is_none());
    let r = storage.read(&SequenceRead::Get(addr2), 21, &origin);
    assert!(matches!(unwrap_query(r), Response::GetSequence(Err(Error::NoSuchData))));
}

fn perms_op(addr: &vault_core::types::Address, p: SeqPermissions) -> vault_core::rpc::PermsWriteOp {
    vault_core::rpc::PermsWriteOp { address: addr.clone(), permissions: p }
}

/// A second create at the same address clashes.
#[test]
fn sequence_create_twice_is_data_exists() {
    let origin = PublicId::Client(1);
    let mut storage = SequenceStorage::new(1, 1 << 16);
    let seq = Sequence::new(vec![3; 8], Scope::Public);
    let again = Sequence::new(vec![3; 8], Scope::Public);
    assert!(storage.write(SequenceWrite::New(seq), 1, &origin, 0).is_none());
    let r = storage.write(SequenceWrite::New(again), 2, &origin, 0);
    assert!(matches!(
        r,
        Some(Action::SendToClient {
            message: Message::CmdError { error: Error::DataExists, .. },
            ..
        })
    ));
}

/// Entry mutations apply atomically with per-key versions: inserts start
/// at zero, updates demand the exact successor, repeats clash, and a
/// failed batch leaves nothing behind.
#[test]
fn mdata_entry_mutations() {
    let owner = PublicId::Client(3);
    let mut handler = MDataHandler::new(1, 1 << 16);
    let map = MutableMap::new(vec![6; 8], Scope::Private, 1, 3);
    let addr = map.address();
    let r = handler.handle_put_mdata_req(&owner, map, 1, 0);
    assert!(matches!(unwrap_query(r), Response::Mutation(Ok(()))));

    // owner mismatch on create
    let other_map = MutableMap::new(vec![7; 8], Scope::Private, 1, 99);
    let r = handler.handle_put_mdata_req(&owner, other_map, 2, 0);
    assert!(matches!(unwrap_query(r), Response::Mutation(Err(Error::InvalidOwners))));

    let insert = EntryAction::Insert { key: b"k".to_vec(), value: b"v0".to_vec() };
    let r = handler.handle_mutate_mdata_entries_req(&owner, &addr, &vec![insert.clone()], 3, 0);
    assert!(matches!(unwrap_query(r), Response::Mutation(Ok(()))));

    // a second insert of the same key clashes
    let r = handler.handle_mutate_mdata_entries_req(&owner, &addr, &vec![insert], 4, 0);
    assert!(matches!(unwrap_query(r), Response::Mutation(Err(Error::EntryExists))));

    // update with the exact successor of the entry's version
    let update = EntryAction::Update { key: b"k".to_vec(), value: b"v1".to_vec(), version: 1 };
    let r = handler.handle_mutate_mdata_entries_req(&owner, &addr, &vec![update.clone()], 5, 0);
    assert!(matches!(unwrap_query(r), Response::Mutation(Ok(()))));
    let r = handler.handle_mutate_mdata_entries_req(&owner, &addr, &vec![update], 6, 0);
    assert!(matches!(
        unwrap_query(r),
        Response::Mutation(Err(Error::InvalidSuccessor(1)))
    ));

    let r = handler.handle_get_mdata_value_req(&owner, &addr, &b"k".to_vec(), 7);
    match unwrap_query(r) {
        Response::GetMDataValue(Ok(v)) => assert_eq!(v, b"v1".to_vec()),
        other => panic!("expected the value, got {:?}", other),
    }

    // atomicity: a batch that fails midway persists nothing
    let batch = vec![
        EntryAction::Insert { key: b"k2".to_vec(), value: b"x".to_vec() },
        EntryAction::Update { key: b"missing".to_vec(), value: b"y".to_vec(), version: 1 },
    ];
    let r = handler.handle_mutate_mdata_entries_req(&owner, &addr, &batch, 8, 0);
    assert!(matches!(unwrap_query(r), Response::Mutation(Err(Error::NoSuchEntry))));
    let r = handler.handle_get_mdata_value_req(&owner, &addr, &b"k2".to_vec(), 9);
    assert!(matches!(unwrap_query(r), Response::GetMDataValue(Err(Error::NoSuchEntry))));

    // delete the entry at its successor version; the key is then gone
    let del = EntryAction::Delete { key: b"k".to_vec(), version: 2 };
    let r = handler.handle_mutate_mdata_entries_req(&owner, &addr, &vec![del], 10, 0);
    assert!(matches!(unwrap_query(r), Response::Mutation(Ok(()))));
    let r = handler.handle_get_mdata_value_req(&owner, &addr, &b"k".to_vec(), 11);
    assert!(matches!(unwrap_query(r), Response::GetMDataValue(Err(Error::NoSuchEntry))));

    // a stranger without a grant is refused
    let stranger = PublicId::Client(50);
    let ins = EntryAction::Insert { key: b"s".to_vec(), value: b"s".to_vec() };
    let r = handler.handle_mutate_mdata_entries_req(&stranger, &addr, &vec![ins], 12, 0);
    assert!(matches!(unwrap_query(r), Response::Mutation(Err(Error::AccessDenied))));

    // deletion of the map is the sole owner's privilege
    let r = handler.handle_delete_mdata_req(&stranger, &addr, 13);
    assert!(matches!(unwrap_query(r), Response::Mutation(Err(Error::InvalidOwners))));
    let r = handler.handle_delete_mdata_req(&owner, &addr, 14);
    assert!(matches!(unwrap_query(r), Response::Mutation(Ok(()))));
    let r = handler.handle_get_mdata_req(&owner, &addr, 15);
    assert!(matches!(unwrap_query(r), Response::GetMData(Err(Error::NoSuchData))));
}

/// The map's shell carries everything but the entries, and the listings
/// mirror the stored entries in order.
#[test]
fn mdata_shell_and_listings() {
    let owner = PublicId::Client(4);
    let mut handler = MDataHandler::new(1, 1 << 16);
    let map = MutableMap::new(vec![8; 8], Scope::Private, 2, 4);
    let addr = map.address();
    assert!(matches!(
        unwrap_query(handler.handle_put_mdata_req(&owner, map, 1, 0)),
        Response::Mutation(Ok(()))
    ));
    let batch = vec![
        EntryAction::Insert { key: b"a".to_vec(), value: b"1".to_vec() },
        EntryAction::Insert { key: b"b".to_vec(), value: b"2".to_vec() },
    ];
    assert!(matches!(
        unwrap_query(handler.handle_mutate_mdata_entries_req(&owner, &addr, &batch, 2, 0)),
        Response::Mutation(Ok(()))
    ));

    match unwrap_query(handler.handle_list_mdata_keys_req(&owner, &addr, 3)) {
        Response::ListMDataKeys(Ok(keys)) => {
            assert_eq!(keys, vec![b"a".to_vec(), b"b".to_vec()]);
        }
        other => panic!("expected the keys, got {:?}", other),
    }
    match unwrap_query(handler.handle_list_mdata_values_req(&owner, &addr, 4)) {
        Response::ListMDataValues(Ok(values)) => {
            assert_eq!(values, vec![b"1".to_vec(), b"2".to_vec()]);
        }
        other => panic!("expected the values, got {:?}", other),
    }
    match unwrap_query(handler.handle_get_mdata_shell_req(&owner, &addr, 5)) {
        Response::GetMDataShell(Ok(shell)) => {
            assert_eq!(shell.version(), 0);
            assert_eq!(shell.owner(), 4);
            assert_eq!(shell.tag(), 2);
            assert!(shell.list_entries().is_empty());
        }
        other => panic!("expected the shell, got {:?}", other),
    }
    match unwrap_query(handler.handle_get_mdata_version_req(&owner, &addr, 6)) {
        Response::GetMDataVersion(Ok(v)) => assert_eq!(v, 0),
        other => panic!("expected the version, got {:?}", other),
    }

    // permission bookkeeping: set, read back, delete
    let grant = MapPermSet { read: true, insert: true, update: false, delete: false, manage: false };
    assert!(matches!(
        unwrap_query(handler.handle_set_mdata_user_permissions_req(
            &owner,
            &addr,
            User::Key(11),
            grant,
            1,
            7,
            0,
        )),
        Response::Mutation(Ok(()))
    ));
    match unwrap_query(handler.handle_list_mdata_user_permissions_req(&owner, &addr, User::Key(11), 8))
    {
        Response::ListMDataUserPermissions(Ok(p)) => assert_eq!(p, grant),
        other => panic!("expected the grant, got {:?}", other),
    }
    // the granted user may read now
    assert!(matches!(
        unwrap_query(handler.handle_get_mdata_version_req(&PublicId::Client(11), &addr, 9)),
        Response::GetMDataVersion(Ok(1))
    ));
    assert!(matches!(
        unwrap_query(handler.handle_del_mdata_user_permissions_req(
            &owner,
            &addr,
            User::Key(11),
            2,
            10,
            0,
        )),
        Response::Mutation(Ok(()))
    ));
    // and no longer afterwards
    assert!(matches!(
        unwrap_query(handler.handle_get_mdata_version_req(&PublicId::Client(11), &addr, 11)),
        Response::GetMDataVersion(Err(Error::AccessDenied))
    ));
}
