//! The message surface: what arrives from the routing layer and what the
//! handlers hand back for transmission.
//!
//! An inbound envelope is an [`Rpc`]: a client request or a peer's response,
//! both tagged with the message id that correlates a client's request with
//! its fan-out and the eventual reply. Handlers return an optional
//! [`Action`], an outbound message with its destination.

use vstd::prelude::*;

use crate::idata::Blob;
use crate::mdata::{EntryAction, MapEntry, MapPermSet, MapUserPerm, MutableMap};
use crate::sequence::{Owner, SeqIndex, SeqPermSet, SeqPermissions, Sequence, User};
use crate::types::{Address, Error, PublicId};

verus! {

/// An edit of a sequence's log: the entry to append.
#[derive(Debug, Clone, PartialEq, Eq)]
pub struct SequenceWriteOp {
    pub address: Address,
    pub entry: Vec<u8>,
}

/// An owner handover of a sequence: the record to append.
#[derive(Debug, Clone, PartialEq, Eq)]
pub struct OwnerWriteOp {
    pub address: Address,
    pub owner: Owner,
}

/// A permission change of a sequence: the policy to append.
#[derive(Debug, Clone, PartialEq, Eq)]
pub struct PermsWriteOp {
    pub address: Address,
    pub permissions: SeqPermissions,
}

/// A position of a sequence's log together with the entry there.
#[derive(Debug, Clone, PartialEq, Eq)]
pub struct IndexedEntry {
    pub index: u64,
    pub entry: Vec<u8>,
}

/// A read of a sequence object.
#[derive(Debug, Clone, PartialEq, Eq)]
pub enum SequenceRead {
    Get(Address),
    GetRange { address: Address, from: SeqIndex, to: SeqIndex },
    GetLastEntry(Address),
    GetOwner { address: Address, index: u64 },
    GetUserPermissions { address: Address, user: User, index: u64 },
    GetPermissions { address: Address, index: u64 },
}

/// A write of a sequence object.
#[derive(Debug, Clone, PartialEq, Eq)]
pub enum SequenceWrite {
    New(Sequence),
    Edit(SequenceWriteOp),
    Delete(Address),
    SetOwner(OwnerWriteOp),
    SetPubPermissions(PermsWriteOp),
    SetPrivPermissions(PermsWriteOp),
}

/// A typed request, as the dispatcher receives it.
#[derive(Debug, PartialEq, Eq)]
pub enum Request {
    PutIData(Blob),
    GetIData(Address),
    DeleteUnpubIData(Address),
    PutMData(MutableMap),
    GetMData(Address),
    GetMDataValue { address: Address, key: Vec<u8> },
    DeleteMData(Address),
    GetMDataShell(Address),
    GetMDataVersion(Address),
    ListMDataEntries(Address),
    ListMDataKeys(Address),
    ListMDataValues(Address),
    ListMDataPermissions(Address),
    ListMDataUserPermissions { address: Address, user: User },
    SetMDataUserPermissions { address: Address, user: User, permissions: MapPermSet, version: u64 },
    DelMDataUserPermissions { address: Address, user: User, version: u64 },
    MutateMDataEntries { address: Address, actions: Vec<EntryAction> },
    SequenceRead(SequenceRead),
    SequenceWrite(SequenceWrite),
    GetBalance,
    CreateLoginPacket,
    GetLoginPacket,
    ListAuthKeysAndVersion,
    TransferCoins,
}

/// A typed response, as a peer or this node emits it.
#[derive(Debug, PartialEq, Eq)]
pub enum Response {
    Mutation(Result<(), Error>),
    GetIData(Result<Blob, Error>),
    GetMData(Result<MutableMap, Error>),
    GetMDataShell(Result<MutableMap, Error>),
    GetMDataVersion(Result<u64, Error>),
    GetMDataValue(Result<Vec<u8>, Error>),
    ListMDataEntries(Result<Vec<MapEntry>, Error>),
    ListMDataKeys(Result<Vec<Vec<u8>>, Error>),
    ListMDataValues(Result<Vec<Vec<u8>>, Error>),
    ListMDataPermissions(Result<Vec<MapUserPerm>, Error>),
    ListMDataUserPermissions(Result<MapPermSet, Error>),
    GetSequence(Result<Sequence, Error>),
    GetSequenceRange(Result<Vec<Vec<u8>>, Error>),
    GetSequenceLastEntry(Result<IndexedEntry, Error>),
    GetSequenceOwner(Result<Owner, Error>),
    GetSequenceUserPermissions(Result<SeqPermSet, Error>),
    GetSequencePermissions(Result<SeqPermissions, Error>),
    Transaction(Result<(), Error>),
    GetBalance(Result<u64, Error>),
    GetLoginPacket(Result<Vec<u8>, Error>),
}

/// An outbound message.
#[derive(Debug, PartialEq, Eq)]
pub enum Message {
    /// A request fanned out to peers, carrying the originating message id.
    Request { request: Request, requester: PublicId, message_id: u64 },
    /// An answer to a query, correlated with the message id it answers.
    QueryResponse { response: Response, correlation_id: u64 },
    /// A command failure, correlated with the message id it answers.
    CmdError { error: Error, correlation_id: u64 },
}

/// An outbound message with its destination.
#[derive(Debug, PartialEq, Eq)]
pub enum Action {
    /// Deliver to one client.
    SendToClient { client: PublicId, message: Message },
    /// Deliver to the peers currently closest to a name; the routing layer
    /// expands the section.
    SendToSection { target: Vec<u8>, message: Message },
    /// Deliver to one peer.
    SendToPeer { peer: Vec<u8>, message: Message },
}

/// An inbound envelope from the routing layer.
#[derive(Debug, PartialEq, Eq)]
pub enum Rpc {
    Request { request: Request, requester: PublicId, message_id: u64 },
    Response { response: Response, message_id: u64 },
}

} // verus!
