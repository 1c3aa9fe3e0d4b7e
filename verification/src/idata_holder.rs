//! The adult side of immutable data: one node holding chunk replicas.
//!
//! A holder serves store, get and unpublish-delete requests on behalf of
//! the elders that chose it, and answers every request with exactly one
//! response to the requesting peer. Its store shares the node's capacity:
//! every store request carries the bytes the node holds in its other
//! stores, and the cap applies to the sum.

use vstd::prelude::*;

use crate::chunk_store::{Chunk, ChunkStore};
use crate::idata::Blob;
use crate::rpc::{Action, Message, Response};
use crate::types::{bytes_eq, Address, Error, ErrorV, PublicId, Scope};

verus! {

/// The blob replica store of one node.
pub struct IDataHolder {
    id: u64,
    chunks: ChunkStore<Blob>,
}

impl IDataHolder {
    /// The blobs this holder keeps.
    pub closed spec fn store(self) -> ChunkStore<Blob> {
        self.chunks
    }

    pub open spec fn wf(self) -> bool {
        self.store().wf()
    }

    /// A fresh holder with an empty store of the given capacity.
    pub fn new(id: u64, max_capacity: u64) -> (h: IDataHolder)
        ensures
            h.wf(),
            h.store().objects().len() == 0,
            h.store().spec_used() == 0,
            h.store().spec_capacity() == max_capacity as nat,
    {
        IDataHolder { id, chunks: ChunkStore::new(max_capacity) }
    }

    /// What serving a store request does. The requester must be a peer and
    /// the blob well named; a blob already held under the same address is
    /// acknowledged only if it is the same blob byte for byte, and a
    /// different one is refused as a conflict; a fresh blob is stored when
    /// the node's whole account has room for it.
    pub open spec fn store_post(
        pre: IDataHolder,
        post: IDataHolder,
        data: Blob,
        requester: PublicId,
        src: Seq<u8>,
        message_id: u64,
        outside_used: nat,
        r: Option<Action>,
    ) -> bool {
        &&& post.store().spec_capacity() == pre.store().spec_capacity()
        &&& match r {
            Some(Action::SendToPeer { peer, message }) => {
                &&& peer@ == src
                &&& match message {
                    Message::QueryResponse { response: Response::Mutation(result), correlation_id } => {
                        &&& correlation_id == message_id
                        &&& match result {
                            Ok(()) => {
                                &&& (requester matches PublicId::Node(_))
                                &&& data.well_named()
                                &&& post.store().spec_has(data.key_spec())
                                &&& post.store().spec_get(data.key_spec())@ == data@
                                &&& (pre.store().spec_has(data.key_spec()) ==> post == pre)
                                &&& (!pre.store().spec_has(data.key_spec()) ==> {
                                    &&& post.store().spec_used() == pre.store().spec_used()
                                        + data.size_spec()
                                    &&& outside_used + post.store().spec_used() <= post.store()
                                        .spec_capacity()
                                    &&& forall|k2: crate::types::AddrKey|
                                        k2 != data.key_spec() ==> #[trigger] post.store().spec_has(
                                            k2,
                                        ) == pre.store().spec_has(k2)
                                    &&& forall|k2: crate::types::AddrKey|
                                        k2 != data.key_spec() && pre.store().spec_has(k2)
                                            ==> #[trigger] post.store().spec_get(k2) == pre.store()
                                            .spec_get(k2)
                                })
                            },
                            Err(e) => {
                                &&& post == pre
                                &&& if !(requester matches PublicId::Node(_)) {
                                    e@ == ErrorV::AccessDenied
                                } else if !data.well_named() {
                                    e@ == ErrorV::InvalidOperation
                                } else if pre.store().spec_has(data.key_spec()) {
                                    e@ == ErrorV::DataExists && pre.store().spec_get(
                                        data.key_spec(),
                                    )@ != data@
                                } else {
                                    e@ == ErrorV::NotEnoughSpace && outside_used + pre.store()
                                        .spec_used() + data.size_spec() > pre.store()
                                        .spec_capacity()
                                }
                            },
                        }
                    },
                    _ => false,
                }
            },
            _ => false,
        }
    }

    /// Store one replica; see `store_post`. One mutation response goes back
    /// to `src`. `outside_used` is what the node's other stores hold.
    pub fn store_idata(
        &mut self,
        data: &Blob,
        requester: PublicId,
        src: Vec<u8>,
        message_id: u64,
        outside_used: u64,
    ) -> (r: Option<Action>)
        requires
            old(self).wf(),
            outside_used + old(self).store().spec_used() <= old(self).store().spec_capacity(),
        ensures
            final(self).wf(),
            Self::store_post(
                *old(self),
                *final(self),
                *data,
                requester,
                src@,
                message_id,
                outside_used as nat,
                r,
            ),
    {
        let result: Result<(), Error> = if !requester.is_node() {
            Err(Error::AccessDenied)
        } else if !data.is_well_named() {
            Err(Error::InvalidOperation)
        } else {
            let addr = data.address();
            match self.chunks.get(&addr) {
                Ok(stored) => {
                    let same_owner = match (stored.owner(), data.owner()) {
                        (Some(a), Some(b)) => a == b,
                        (None, None) => true,
                        _ => false,
                    };
                    if same_owner && bytes_eq(stored.value(), data.value()) {
                        proof {
                            assert(self.store().spec_get(addr.key())@ == data@);
                        }
                        Ok(())
                    } else {
                        Err(Error::DataExists)
                    }
                }
                Err(_) => match self.chunks.put(data.clone_chunk(), outside_used) {
                    Ok(()) => Ok(()),
                    Err(_) => Err(Error::NotEnoughSpace),
                },
            }
        };
        Some(
            Action::SendToPeer {
                peer: src,
                message: Message::QueryResponse {
                    response: Response::Mutation(result),
                    correlation_id: message_id,
                },
            },
        )
    }

    /// What serving a replica read does: the blob, or `NoSuchData`.
    pub open spec fn get_post(
        h: IDataHolder,
        address: Address,
        src: Seq<u8>,
        message_id: u64,
        r: Option<Action>,
    ) -> bool {
        match r {
            Some(Action::SendToPeer { peer, message }) => {
                &&& peer@ == src
                &&& match message {
                    Message::QueryResponse { response: Response::GetIData(result), correlation_id } => {
                        &&& correlation_id == message_id
                        &&& match result {
                            Ok(b) => h.store().spec_has(address.key()) && b@ == h.store().spec_get(
                                address.key(),
                            )@,
                            Err(e) => e@ == ErrorV::NoSuchData && !h.store().spec_has(
                                address.key(),
                            ),
                        }
                    },
                    _ => false,
                }
            },
            _ => false,
        }
    }

    /// Serve one replica read; see `get_post`. One response goes to `src`.
    pub fn get_idata(&self, address: &Address, src: Vec<u8>, message_id: u64) -> (r: Option<
        Action,
    >)
        requires
            self.wf(),
        ensures
            Self::get_post(*self, *address, src@, message_id, r),
    {
        let result: Result<Blob, Error> = match self.chunks.get(address) {
            Ok(b) => Ok(b),
            Err(_) => Err(Error::NoSuchData),
        };
        Some(
            Action::SendToPeer {
                peer: src,
                message: Message::QueryResponse {
                    response: Response::GetIData(result),
                    correlation_id: message_id,
                },
            },
        )
    }

    /// What serving an unpublish-delete does. Published data is permanent,
    /// so any other scope is refused as `InvalidOperation`; the requester's
    /// key must match the stored owner; on success the blob is gone, its
    /// bytes come off the account, and nothing else moves.
    pub open spec fn delete_post(
        pre: IDataHolder,
        post: IDataHolder,
        address: Address,
        requester: PublicId,
        src: Seq<u8>,
        message_id: u64,
        r: Option<Action>,
    ) -> bool {
        &&& post.store().spec_capacity() == pre.store().spec_capacity()
        &&& match r {
            Some(Action::SendToPeer { peer, message }) => {
                &&& peer@ == src
                &&& match message {
                    Message::QueryResponse { response: Response::Mutation(result), correlation_id } => {
                        &&& correlation_id == message_id
                        &&& match result {
                            Ok(()) => {
                                &&& address.key().2 == Scope::Unpublished
                                &&& pre.store().spec_has(address.key())
                                &&& pre.store().spec_get(address.key())@.owner == Some(
                                    requester.spec_public_key(),
                                )
                                &&& !post.store().spec_has(address.key())
                                &&& post.store().spec_used() + pre.store().spec_get(
                                    address.key(),
                                ).size_spec() == pre.store().spec_used()
                                &&& forall|k2: crate::types::AddrKey|
                                    k2 != address.key() ==> #[trigger] post.store().spec_has(k2)
                                        == pre.store().spec_has(k2)
                                &&& forall|k2: crate::types::AddrKey|
                                    k2 != address.key() && pre.store().spec_has(k2)
                                        ==> #[trigger] post.store().spec_get(k2) == pre.store()
                                        .spec_get(k2)
                            },
                            Err(e) => {
                                &&& post == pre
                                &&& if address.key().2 != Scope::Unpublished {
                                    e@ == ErrorV::InvalidOperation
                                } else if !pre.store().spec_has(address.key()) {
                                    e@ == ErrorV::NoSuchData
                                } else {
                                    e@ == ErrorV::InvalidOwners && pre.store().spec_get(
                                        address.key(),
                                    )@.owner != Some(requester.spec_public_key())
                                }
                            },
                        }
                    },
                    _ => false,
                }
            },
            _ => false,
        }
    }

    /// Delete one unpublished replica; see `delete_post`. One mutation
    /// response goes to `src`.
    pub fn delete_unpub_idata(
        &mut self,
        address: &Address,
        requester: PublicId,
        src: Vec<u8>,
        message_id: u64,
    ) -> (r: Option<Action>)
        requires
            old(self).wf(),
        ensures
            final(self).wf(),
            Self::delete_post(
                *old(self),
                *final(self),
                *address,
                requester,
                src@,
                message_id,
                r,
            ),
    {
        let result: Result<(), Error> = if !matches!(address.scope, Scope::Unpublished) {
            Err(Error::InvalidOperation)
        } else {
            match self.chunks.get(address) {
                Err(_) => Err(Error::NoSuchData),
                Ok(blob) => {
                    let owner_ok = match blob.owner() {
                        Some(pk) => pk == requester.public_key(),
                        None => false,
                    };
                    if !owner_ok {
                        Err(Error::InvalidOwners)
                    } else {
                        match self.chunks.delete(address) {
                            Ok(()) => Ok(()),
                            Err(_) => {
                                proof {
                                    assert(false);
                                }
                                Err(Error::NoSuchData)
                            }
                        }
                    }
                }
            }
        };
        Some(
            Action::SendToPeer {
                peer: src,
                message: Message::QueryResponse {
                    response: Response::Mutation(result),
                    correlation_id: message_id,
                },
            },
        )
    }

    /// The bytes currently held.
    pub fn used_space(&self) -> (n: u64)
        ensures
            n as nat == self.store().spec_used(),
    {
        self.chunks.used_space()
    }

    /// Whether a blob is held at `address`.
    pub fn has_idata(&self, address: &Address) -> (r: bool)
        ensures
            r == self.store().spec_has(address.key()),
    {
        self.chunks.has(address)
    }
}

} // verus!
