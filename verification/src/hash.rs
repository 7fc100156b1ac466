//! The tree hash that gives every tree its content address.

use vstd::prelude::*;
use sha2::Digest;
use crate::sexp::{SExp, Tree};
use crate::bytes::Bytes32;

verus! {

/// The SHA-256 digest of a byte string.
pub uninterp spec fn sha256(data: Seq<u8>) -> Seq<u8>;

/// Calls `sha2::Sha256::digest` (the `Digest` trait's one-shot function) on
/// `data`. Trusted: the result is the SHA-256 digest of `data`, which depends
/// on `data` alone and is 32 bytes long.
#[verifier::external_body]
fn sha256_digest(data: &Vec<u8>) -> (r: Vec<u8>)
    ensures
        r@ == sha256(data@),
        r@.len() == 32,
{
    sha2::Sha256::digest(data.as_slice()).to_vec()
}

/// The hash of a tree: an atom hashes its bytes behind the prefix 1, a pair
/// hashes the hashes of its two children behind the prefix 2.
pub open spec fn tree_hash_of(t: Tree) -> Seq<u8>
    decreases t,
{
    match t {
        Tree::Atom(b) => sha256(seq![1u8] + b),
        Tree::Pair(f, r) => sha256(seq![2u8] + tree_hash_of(*f) + tree_hash_of(*r)),
    }
}

/// Computes the tree hash.
pub fn tree_hash(t: &SExp) -> (r: Bytes32)
    ensures
        r@ == tree_hash_of(t@),
        r.wf(),
    decreases t,
{
    match t {
        SExp::Atom(b) => {
            let mut buf: Vec<u8> = Vec::new();
            buf.push(1u8);
            buf.extend_from_slice(b.as_slice());
            assert(buf@ =~= seq![1u8] + b@);
            Bytes32 { bytes: sha256_digest(&buf) }
        },
        SExp::Pair(f, r) => {
            let hf = tree_hash(f);
            let hr = tree_hash(r);
            let mut buf: Vec<u8> = Vec::new();
            buf.push(2u8);
            buf.extend_from_slice(hf.bytes.as_slice());
            buf.extend_from_slice(hr.bytes.as_slice());
            assert(buf@ =~= seq![2u8] + tree_hash_of(f@) + tree_hash_of(r@));
            Bytes32 { bytes: sha256_digest(&buf) }
        },
    }
}

/// Hash determinism: trees that are structurally equal have the same hash,
/// however each was built.
pub proof fn lemma_tree_hash_deterministic(a: SExp, b: SExp)
    requires
        a@ == b@,
    ensures
        tree_hash_of(a@) == tree_hash_of(b@),
{
}

} // verus!
