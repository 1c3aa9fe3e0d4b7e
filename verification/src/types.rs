//! Core identifiers and the error taxonomy of the vault's data-handling core.
//!
//! Every stored object is keyed by an [`Address`]: its kind, its fixed-width
//! XOR-space name, and its visibility scope. Identity keys and message ids are
//! plain integers here; identity cryptography is outside this core.

use vstd::prelude::*;

verus! {

/// Visibility class of a stored object.
#[derive(Clone, Copy, PartialEq, Eq, Structural, Debug)]
pub enum Scope {
    Public,
    Private,
    Unpublished,
}

impl Scope {
    /// Whether objects of this scope are published and therefore permanent.
    pub fn is_public(&self) -> (r: bool)
        ensures
            r == (*self == Scope::Public),
    {
        matches!(self, Scope::Public)
    }
}

/// The kind of a stored object.
#[derive(Clone, Copy, PartialEq, Eq, Structural, Debug)]
pub enum Kind {
    Immutable,
    Mutable,
    Sequence,
}

/// Mathematical key of an address: kind, name bytes, and scope.
pub type AddrKey = (Kind, Seq<u8>, Scope);

/// The address of a stored object: the chunk-store key.
#[derive(Debug, Clone, PartialEq, Eq)]
pub struct Address {
    pub kind: Kind,
    pub name: Vec<u8>,
    pub scope: Scope,
}

impl Address {
    /// The mathematical key this address denotes.
    pub open spec fn key(&self) -> AddrKey {
        (self.kind, self.name@, self.scope)
    }

    pub fn new(kind: Kind, name: Vec<u8>, scope: Scope) -> (a: Address)
        ensures
            a.key() == (kind, name@, scope),
    {
        Address { kind, name, scope }
    }

    pub fn clone_addr(&self) -> (a: Address)
        ensures
            a.key() == self.key(),
    {
        Address { kind: self.kind, name: clone_bytes(&self.name), scope: self.scope }
    }

    /// Whether two addresses denote the same key.
    pub fn matches(&self, other: &Address) -> (r: bool)
        ensures
            r == (self.key() == other.key()),
    {
        let r = self.kind == other.kind && self.scope == other.scope
            && bytes_eq(&self.name, &other.name);
        proof {
            if r {
                assert(self.key() == other.key());
            }
        }
        r
    }
}

/// The identity a request arrives under. The dispatcher routes on the tag:
/// node peers are served as holders, clients and apps as elder duties.
#[derive(Clone, Copy, PartialEq, Eq, Structural, Debug)]
pub enum PublicId {
    Client(u64),
    App(u64),
    Node(u64),
}

impl PublicId {
    /// The identity's public key.
    pub open spec fn spec_public_key(self) -> u64 {
        match self {
            PublicId::Client(k) => k,
            PublicId::App(k) => k,
            PublicId::Node(k) => k,
        }
    }

    pub fn public_key(&self) -> (k: u64)
        ensures
            k == self.spec_public_key(),
    {
        match self {
            PublicId::Client(k) => *k,
            PublicId::App(k) => *k,
            PublicId::Node(k) => *k,
        }
    }

    /// Whether this identity is a node peer rather than a client or app.
    pub fn is_node(&self) -> (r: bool)
        ensures
            r == (self matches PublicId::Node(_)),
    {
        matches!(self, PublicId::Node(_))
    }
}

/// The error taxonomy surfaced to clients.
#[derive(Debug, PartialEq, Eq)]
pub enum Error {
    /// Address not present.
    NoSuchData,
    /// A create conflicts with an existing object.
    DataExists,
    /// The permission predicate rejects the action.
    AccessDenied,
    /// An owner-only operation attempted by a non-owner.
    InvalidOwners,
    /// The operation does not apply to the object's kind or scope.
    InvalidOperation,
    /// Version mismatch on a versioned mutation; carries the current version.
    InvalidSuccessor(u64),
    /// Key or index not present in a map or sequence.
    NoSuchEntry,
    /// An entry insert conflicts with an existing entry.
    EntryExists,
    /// The store's capacity would be exceeded.
    NotEnoughSpace,
    /// A transport or serialization failure, carried as text.
    NetworkOther(String),
}

/// Mathematical view of an [`Error`].
pub enum ErrorV {
    NoSuchData,
    DataExists,
    AccessDenied,
    InvalidOwners,
    InvalidOperation,
    InvalidSuccessor(u64),
    NoSuchEntry,
    EntryExists,
    NotEnoughSpace,
    NetworkOther(Seq<char>),
}

impl View for Error {
    type V = ErrorV;

    open spec fn view(&self) -> ErrorV {
        match self {
            Error::NoSuchData => ErrorV::NoSuchData,
            Error::DataExists => ErrorV::DataExists,
            Error::AccessDenied => ErrorV::AccessDenied,
            Error::InvalidOwners => ErrorV::InvalidOwners,
            Error::InvalidOperation => ErrorV::InvalidOperation,
            Error::InvalidSuccessor(v) => ErrorV::InvalidSuccessor(*v),
            Error::NoSuchEntry => ErrorV::NoSuchEntry,
            Error::EntryExists => ErrorV::EntryExists,
            Error::NotEnoughSpace => ErrorV::NotEnoughSpace,
            Error::NetworkOther(s) => ErrorV::NetworkOther(s@),
        }
    }
}

impl Error {
    pub fn clone_error(&self) -> (e: Error)
        ensures
            e@ == self@,
    {
        match self {
            Error::NoSuchData => Error::NoSuchData,
            Error::DataExists => Error::DataExists,
            Error::AccessDenied => Error::AccessDenied,
            Error::InvalidOwners => Error::InvalidOwners,
            Error::InvalidOperation => Error::InvalidOperation,
            Error::InvalidSuccessor(v) => Error::InvalidSuccessor(*v),
            Error::NoSuchEntry => Error::NoSuchEntry,
            Error::EntryExists => Error::EntryExists,
            Error::NotEnoughSpace => Error::NotEnoughSpace,
            Error::NetworkOther(s) => Error::NetworkOther(s.clone()),
        }
    }
}

/// Byte-for-byte copy of a byte string.
pub fn clone_bytes(v: &Vec<u8>) -> (r: Vec<u8>)
    ensures
        r@ == v@,
{
    let mut r: Vec<u8> = Vec::new();
    let mut i: usize = 0;
    while i < v.len()
        invariant
            i <= v.len(),
            r@.len() == i,
            forall|j: int| 0 <= j < i ==> r@[j] == v@[j],
        decreases v.len() - i,
    {
        r.push(v[i]);
        i += 1;
    }
    proof {
        assert(r@ =~= v@);
    }
    r
}

/// An element-for-element copy of a vector of copyable values.
pub fn clone_copy_vec<T: Copy>(v: &Vec<T>) -> (r: Vec<T>)
    ensures
        r@ == v@,
{
    let mut r: Vec<T> = Vec::new();
    let mut i: usize = 0;
    while i < v.len()
        invariant
            i <= v.len(),
            r@.len() == i,
            forall|j: int| 0 <= j < i ==> r@[j] == v@[j],
        decreases v.len() - i,
    {
        r.push(v[i]);
        i += 1;
    }
    proof {
        assert(r@ =~= v@);
    }
    r
}

/// Byte-for-byte comparison of two byte strings.
pub fn bytes_eq(a: &Vec<u8>, b: &Vec<u8>) -> (r: bool)
    ensures
        r == (a@ == b@),
{
    if a.len() != b.len() {
        return false;
    }
    let mut i: usize = 0;
    while i < a.len()
        invariant
            i <= a.len(),
            a@.len() == b@.len(),
            forall|j: int| 0 <= j < i ==> a@[j] == b@[j],
        decreases a.len() - i,
    {
        if a[i] != b[i] {
            return false;
        }
        i += 1;
    }
    proof {
        assert(a@ =~= b@);
    }
    true
}

} // verus!
