//! Byte strings of fixed and of free length.

use vstd::prelude::*;
use crate::sexp::copy_bytes;

verus! {

/// A 32-byte identifier: a hash, a coin id or a puzzle hash.
#[derive(Debug, Clone, PartialEq, Eq)]
pub struct Bytes32 {
    pub bytes: Vec<u8>,
}

impl View for Bytes32 {
    type V = Seq<u8>;

    open spec fn view(&self) -> Seq<u8> {
        self.bytes@
    }
}

impl Bytes32 {
    /// Whether the identifier holds exactly 32 bytes.
    pub open spec fn wf(&self) -> bool {
        self.bytes@.len() == 32
    }

    /// The identifier made of `bytes`, where there are 32 of them.
    pub fn new(bytes: &Vec<u8>) -> (r: Option<Bytes32>)
        ensures
            bytes@.len() == 32 ==> r is Some && r.unwrap()@ == bytes@ && r.unwrap().wf(),
            bytes@.len() != 32 ==> r is None,
    {
        if bytes.len() == 32 {
            Some(Bytes32 { bytes: copy_bytes(bytes) })
        } else {
            None
        }
    }

    /// The identifier of 32 zero bytes.
    pub fn zero() -> (r: Bytes32)
        ensures
            r.wf(),
            forall|i: int| 0 <= i < 32 ==> r@[i] == 0,
    {
        let mut v: Vec<u8> = Vec::new();
        let mut i: usize = 0;
        while i < 32
            invariant
                i <= 32,
                v@.len() == i,
                forall|j: int| 0 <= j < i ==> v@[j] == 0,
            decreases 32 - i,
        {
            v.push(0u8);
            i += 1;
        }
        Bytes32 { bytes: v }
    }

    /// A copy of the identifier.
    pub fn duplicate(&self) -> (r: Bytes32)
        ensures
            r@ == self@,
            r.wf() == self.wf(),
    {
        Bytes32 { bytes: copy_bytes(&self.bytes) }
    }

    /// The bytes of the identifier.
    pub fn to_bytes(&self) -> (r: Vec<u8>)
        ensures
            r@ == self@,
    {
        copy_bytes(&self.bytes)
    }
}

/// A byte string of any length.
#[derive(Debug, Clone, PartialEq, Eq)]
pub struct UnsizedBytes {
    pub bytes: Vec<u8>,
}

impl View for UnsizedBytes {
    type V = Seq<u8>;

    open spec fn view(&self) -> Seq<u8> {
        self.bytes@
    }
}

impl UnsizedBytes {
    /// The byte string that holds a copy of `bytes`.
    pub fn new(bytes: &Vec<u8>) -> (r: UnsizedBytes)
        ensures
            r@ == bytes@,
    {
        UnsizedBytes { bytes: copy_bytes(bytes) }
    }

    /// The empty byte string.
    pub fn empty() -> (r: UnsizedBytes)
        ensures
            r@ == Seq::<u8>::empty(),
    {
        UnsizedBytes { bytes: Vec::new() }
    }
}

} // verus!
