//! Immutable blobs: content-addressed, immutable after creation.
//!
//! A blob's name is the digest of its scope and bytes; a well-named blob is
//! one whose carried name matches. Unpublished blobs carry an owner and may
//! be deleted by that owner; public blobs are permanent.

use vstd::prelude::*;

use crate::chunk_store::Chunk;
use crate::digest::{blob_name, digest_of, spec_scope_tag};
use crate::types::{clone_bytes, bytes_eq, AddrKey, Address, Kind, Scope};

verus! {

/// An immutable blob as carried on the wire and held on disk.
#[derive(Debug, Clone, PartialEq, Eq)]
pub struct Blob {
    name: Vec<u8>,
    scope: Scope,
    owner: Option<u64>,
    bytes: Vec<u8>,
}

/// Mathematical view of a [`Blob`].
pub struct BlobV {
    pub name: Seq<u8>,
    pub scope: Scope,
    pub owner: Option<u64>,
    pub bytes: Seq<u8>,
}

impl View for Blob {
    type V = BlobV;

    closed spec fn view(&self) -> BlobV {
        BlobV { name: self.name@, scope: self.scope, owner: self.owner, bytes: self.bytes@ }
    }
}

impl Blob {
    /// Whether the carried name is the digest of the scope and bytes.
    pub open spec fn well_named(&self) -> bool {
        self@.name == digest_of(spec_scope_tag(self@.scope), self@.bytes)
    }

    /// A blob whose name is computed from its scope and bytes.
    pub fn new(scope: Scope, owner: Option<u64>, bytes: Vec<u8>) -> (b: Blob)
        ensures
            b@.scope == scope,
            b@.owner == owner,
            b@.bytes == bytes@,
            b.well_named(),
    {
        let name = blob_name(scope, &bytes);
        Blob { name, scope, owner, bytes }
    }

    /// A blob carrying an arbitrary name, as one received off the wire.
    pub fn with_name(name: Vec<u8>, scope: Scope, owner: Option<u64>, bytes: Vec<u8>) -> (b: Blob)
        ensures
            b@ == (BlobV { name: name@, scope, owner, bytes: bytes@ }),
    {
        Blob { name, scope, owner, bytes }
    }

    /// Check the carried name against the digest of scope and bytes.
    pub fn is_well_named(&self) -> (r: bool)
        ensures
            r == self.well_named(),
    {
        let expect = blob_name(self.scope, &self.bytes);
        bytes_eq(&self.name, &expect)
    }

    pub fn scope(&self) -> (s: Scope)
        ensures
            s == self@.scope,
    {
        self.scope
    }

    pub fn owner(&self) -> (o: Option<u64>)
        ensures
            o == self@.owner,
    {
        self.owner
    }

    pub fn value(&self) -> (v: &Vec<u8>)
        ensures
            v@ == self@.bytes,
    {
        &self.bytes
    }

    /// The blob's address in the chunk store.
    pub fn address(&self) -> (a: Address)
        ensures
            a.key() == self.key_spec(),
            a.key() == (Kind::Immutable, self@.name, self@.scope),
    {
        Address::new(Kind::Immutable, clone_bytes(&self.name), self.scope)
    }
}

impl Chunk for Blob {
    open spec fn key_spec(&self) -> AddrKey {
        (Kind::Immutable, self@.name, self@.scope)
    }

    open spec fn size_spec(&self) -> nat {
        self@.bytes.len()
    }

    open spec fn valid(&self) -> bool {
        true
    }

    fn matches_addr(&self, addr: &Address) -> (r: bool)
        ensures
            r == (self.key_spec() == addr.key()),
    {
        let r = matches!(addr.kind, Kind::Immutable) && self.scope == addr.scope
            && bytes_eq(&self.name, &addr.name);
        proof {
            if r {
                assert(self.key_spec() == addr.key());
            }
        }
        r
    }

    fn stored_size(&self) -> (n: u64)
        ensures
            n as nat == self.size_spec(),
    {
        self.bytes.len() as u64
    }

    fn chunk_addr(&self) -> (a: Address)
        ensures
            a.key() == self.key_spec(),
    {
        self.address()
    }

    fn clone_chunk(&self) -> (c: Self)
        ensures
            c@ == self@,
            c.key_spec() == self.key_spec(),
            c.size_spec() == self.size_spec(),
            c.valid(),
    {
        Blob {
            name: clone_bytes(&self.name),
            scope: self.scope,
            owner: self.owner,
            bytes: clone_bytes(&self.bytes),
        }
    }
}

} // verus!
