//! Content names.
//!
//! A stored blob's name is the network-defined digest of its scope and its
//! bytes. The digest itself comes from an outside hash; this module gives its
//! result a name that contracts can speak of, and a verified helper that
//! derives a blob name from plain values.

use vstd::prelude::*;

use crate::types::Scope;

verus! {

/// What the outside hash returns for a tag byte followed by a payload.
pub uninterp spec fn digest_of(tag: u8, payload: Seq<u8>) -> Seq<u8>;

/// The tag byte a scope contributes to a blob's name.
pub open spec fn spec_scope_tag(s: Scope) -> u8 {
    match s {
        Scope::Public => 0,
        Scope::Private => 1,
        Scope::Unpublished => 2,
    }
}

fn scope_tag(s: Scope) -> (t: u8)
    ensures
        t == spec_scope_tag(s),
{
    match s {
        Scope::Public => 0,
        Scope::Private => 1,
        Scope::Unpublished => 2,
    }
}

/// Relies on tiny_keccak's Sha3 v256: the 32-byte digest of the tag byte
/// followed by the payload, a function of its input alone.
#[verifier::external_body]
fn sha3_digest(tag: u8, payload: &Vec<u8>) -> (r: Vec<u8>)
    ensures
        r@ == digest_of(tag, payload@),
        r@.len() == 32,
{
    let mut hasher = tiny_keccak::Sha3::v256();
    tiny_keccak::Hasher::update(&mut hasher, core::slice::from_ref(&tag));
    tiny_keccak::Hasher::update(&mut hasher, payload.as_slice());
    let mut out = [0u8; 32];
    tiny_keccak::Hasher::finalize(hasher, &mut out);
    out.to_vec()
}

/// The name a blob of the given scope and bytes must carry.
pub fn blob_name(scope: Scope, bytes: &Vec<u8>) -> (r: Vec<u8>)
    ensures
        r@ == digest_of(spec_scope_tag(scope), bytes@),
        r@.len() == 32,
{
    let tag = scope_tag(scope);
    sha3_digest(tag, bytes)
}

} // verus!
