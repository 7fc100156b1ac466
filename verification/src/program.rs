//! A program in its encoded form.

use vstd::prelude::*;
use crate::sexp::{SExp, copy_bytes};
use crate::codec::{CodecError, decode, encode, encodable, sexp_from_bytes, sexp_to_bytes};

verus! {

/// The canonical byte encoding of a program, or bytes that claim to be one.
#[derive(Debug, Clone, PartialEq, Eq)]
pub struct SerializedProgram {
    pub buffer: Vec<u8>,
}

impl View for SerializedProgram {
    type V = Seq<u8>;

    open spec fn view(&self) -> Seq<u8> {
        self.buffer@
    }
}

impl SerializedProgram {
    /// The program whose encoding is a copy of `bytes`.
    pub fn from_bytes(bytes: &Vec<u8>) -> (r: SerializedProgram)
        ensures
            r@ == bytes@,
    {
        SerializedProgram { buffer: copy_bytes(bytes) }
    }

    /// The encoding of the program.
    pub fn to_bytes(&self) -> (r: Vec<u8>)
        ensures
            r@ == self@,
    {
        copy_bytes(&self.buffer)
    }

    /// The encoding of a tree. It fails only where an atom of the tree is
    /// too long to be encoded.
    pub fn from_tree(t: &SExp) -> (r: Result<SerializedProgram, CodecError>)
        ensures
            encodable(t@) ==> r is Ok && r.unwrap()@ == encode(t@),
            !encodable(t@) ==> (r matches Err(e) && e == CodecError::OversizedAtomLength),
    {
        match sexp_to_bytes(t) {
            Ok(buffer) => Ok(SerializedProgram { buffer }),
            Err(e) => Err(e),
        }
    }

    /// The tree that the bytes encode.
    pub fn to_program(&self) -> (r: Result<SExp, CodecError>)
        ensures
            match decode(self@) {
                Ok(t) => r is Ok && r.unwrap()@ == t,
                Err(e) => r matches Err(x) && x == e,
            },
    {
        sexp_from_bytes(&self.buffer)
    }
}

} // verus!
