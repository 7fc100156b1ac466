//! Tree values of a Lisp-like on-chain program format: the atom/pair model,
//! its canonical byte encoding and tree hash, currying by structural
//! matching, and the decoding of spend conditions under a cost ceiling.

pub mod sexp;
pub mod codec;
pub mod bytes;
pub mod hash;
pub mod bindings;
pub mod matching;
pub mod program;
pub mod number;
pub mod coin;
pub mod coin_spend;
pub mod payment;
pub mod records;
pub mod curry;
