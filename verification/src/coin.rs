//! Coins and their content address.

use vstd::prelude::*;
use crate::sexp::{SExp, Tree, atom_of};
use crate::bytes::Bytes32;
use crate::curry::list3;
use crate::hash::{tree_hash, tree_hash_of};
use crate::number::{int_bytes, u64_to_atom};

verus! {

/// What a coin is: the id of the coin it came from, the hash of the puzzle
/// that guards it, and its amount.
pub struct CoinModel {
    pub parent_coin_info: Seq<u8>,
    pub puzzle_hash: Seq<u8>,
    pub amount: u64,
}

/// A coin.
#[derive(Debug, Clone, PartialEq, Eq)]
pub struct Coin {
    pub parent_coin_info: Bytes32,
    pub puzzle_hash: Bytes32,
    pub amount: u64,
}

impl View for Coin {
    type V = CoinModel;

    open spec fn view(&self) -> CoinModel {
        CoinModel {
            parent_coin_info: self.parent_coin_info@,
            puzzle_hash: self.puzzle_hash@,
            amount: self.amount,
        }
    }
}

/// The tuple that a coin is hashed as: its three fields as a list of atoms.
pub open spec fn coin_tree(c: CoinModel) -> Tree {
    list3(atom_of(c.parent_coin_info), atom_of(c.puzzle_hash), atom_of(int_bytes(c.amount as nat)))
}

/// The id of a coin: the tree hash of its tuple.
pub open spec fn coin_id(c: CoinModel) -> Seq<u8> {
    tree_hash_of(coin_tree(c))
}

impl Coin {
    /// Whether both identifiers of the coin are 32 bytes long.
    pub open spec fn wf(&self) -> bool {
        self.parent_coin_info.wf() && self.puzzle_hash.wf()
    }

    /// The id of the coin.
    pub fn name(&self) -> (r: Bytes32)
        ensures
            r@ == coin_id(self@),
            r.wf(),
    {
        let tuple = SExp::pair(
            SExp::atom(self.parent_coin_info.to_bytes()),
            SExp::pair(
                SExp::atom(self.puzzle_hash.to_bytes()),
                SExp::pair(SExp::atom(u64_to_atom(self.amount)), SExp::null()),
            ),
        );
        tree_hash(&tuple)
    }

    /// A copy of the coin.
    pub fn duplicate(&self) -> (r: Coin)
        ensures
            r@ == self@,
            r.wf() == self.wf(),
    {
        Coin {
            parent_coin_info: self.parent_coin_info.duplicate(),
            puzzle_hash: self.puzzle_hash.duplicate(),
            amount: self.amount,
        }
    }
}

} // verus!
