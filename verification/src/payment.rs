//! A payment and the create-coin condition that states it.

use vstd::prelude::*;
use crate::sexp::{SExp, Tree, atom_of, list_items, list_of, trees_of, lemma_list_items_of_list};
use crate::bytes::{Bytes32, UnsizedBytes};
use crate::coin_spend::{ConditionError, create_coin_of, decode_create_coin, memo_views};
use crate::hash::{tree_hash, tree_hash_of};
use crate::number::{int_bytes, u64_to_atom, lemma_amount_round_trip};

verus! {

/// What a payment is: where it goes, how much, and the memos sent along.
pub struct PaymentModel {
    pub puzzle_hash: Seq<u8>,
    pub amount: u64,
    pub memos: Seq<Seq<u8>>,
}

/// A payment to a puzzle hash.
#[derive(Debug, Clone, PartialEq, Eq)]
pub struct Payment {
    pub puzzle_hash: Bytes32,
    pub amount: u64,
    pub memos: Vec<UnsizedBytes>,
}

impl View for Payment {
    type V = PaymentModel;

    open spec fn view(&self) -> PaymentModel {
        PaymentModel {
            puzzle_hash: self.puzzle_hash@,
            amount: self.amount,
            memos: memo_views(self.memos@),
        }
    }
}

/// The arguments of the payment's condition: the puzzle hash, the amount,
/// then each memo, all as atoms.
pub open spec fn condition_args(p: PaymentModel) -> Seq<Tree> {
    Seq::new(
        2 + p.memos.len(),
        |i: int|
            if i == 0 {
                atom_of(p.puzzle_hash)
            } else if i == 1 {
                atom_of(int_bytes(p.amount as nat))
            } else {
                atom_of(p.memos[i - 2])
            },
    )
}

/// The payment's condition: the list of the create-coin opcode and the
/// arguments.
pub open spec fn condition_tree(p: PaymentModel) -> Tree {
    list_of(seq![atom_of(seq![51u8])] + condition_args(p))
}

impl Payment {
    /// The arguments of the payment's condition.
    pub fn as_condition_args(&self) -> (r: Vec<SExp>)
        ensures
            trees_of(r@) == condition_args(self@),
    {
        let mut args: Vec<SExp> = Vec::new();
        args.push(SExp::atom(self.puzzle_hash.to_bytes()));
        args.push(SExp::atom(u64_to_atom(self.amount)));
        let mut i: usize = 0;
        while i < self.memos.len()
            invariant
                i <= self.memos@.len(),
                args@.len() == 2 + i,
                args@[0]@ == atom_of(self.puzzle_hash@),
                args@[1]@ == atom_of(int_bytes(self.amount as nat)),
                forall|j: int| 0 <= j < i ==> (#[trigger] args@[j + 2])@ == atom_of(self.memos@[j]@),
            decreases self.memos@.len() - i,
        {
            args.push(SExp::atom(crate::sexp::copy_bytes(&self.memos[i].bytes)));
            i += 1;
        }
        assert forall|k: int| 0 <= k < args@.len() implies trees_of(args@)[k] == condition_args(
            self@,
        )[k] by {
            if k >= 2 {
                assert(args@[(k - 2) + 2]@ == atom_of(self.memos@[k - 2]@));
            }
        }
        assert(trees_of(args@) =~= condition_args(self@));
        args
    }

    /// The payment's condition.
    pub fn as_condition(&self) -> (r: SExp)
        ensures
            r@ == condition_tree(self@),
    {
        let args = self.as_condition_args();
        let mut items: Vec<SExp> = Vec::new();
        let mut code: Vec<u8> = Vec::new();
        code.push(51u8);
        assert(code@ =~= seq![51u8]);
        items.push(SExp::atom(code));
        let mut i: usize = 0;
        while i < args.len()
            invariant
                i <= args@.len(),
                items@.len() == 1 + i,
                items@[0]@ == atom_of(seq![51u8]),
                forall|j: int| 0 <= j < i ==> (#[trigger] items@[j + 1])@ == args@[j]@,
            decreases args@.len() - i,
        {
            items.push(args[i].duplicate());
            i += 1;
        }
        assert forall|k: int| 0 <= k < items@.len() implies trees_of(items@)[k] == (seq![
            atom_of(seq![51u8]),
        ] + trees_of(args@))[k] by {
            if k >= 1 {
                assert(items@[(k - 1) + 1]@ == args@[k - 1]@);
            }
        }
        assert(trees_of(items@) =~= seq![atom_of(seq![51u8])] + trees_of(args@));
        SExp::list(&items)
    }

    /// The content address of the payment: the tree hash of its condition.
    pub fn name(&self) -> (r: Bytes32)
        ensures
            r@ == tree_hash_of(condition_tree(self@)),
            r.wf(),
    {
        tree_hash(&self.as_condition())
    }

    /// Reads a payment from a create-coin condition: the puzzle hash at the
    /// second place, the amount at the third, the memos behind them.
    pub fn from_condition(condition: &SExp) -> (r: Result<Payment, ConditionError>)
        ensures
            match create_coin_of(list_items(condition@)) {
                Ok((puzzle_hash, amount, memos)) => r is Ok && r.unwrap()@ == (PaymentModel {
                    puzzle_hash,
                    amount,
                    memos,
                }) && r.unwrap().puzzle_hash.wf(),
                Err(e) => r matches Err(x) && x == e,
            },
    {
        let items = condition.as_list();
        match decode_create_coin(&items) {
            Err(e) => Err(e),
            Ok((puzzle_hash, amount, memos)) => Ok(Payment { puzzle_hash, amount, memos }),
        }
    }
}

/// Round trip of payments: the condition of a payment to a 32-byte puzzle
/// hash reads as that payment.
pub proof fn lemma_payment_round_trip(p: PaymentModel)
    requires
        p.puzzle_hash.len() == 32,
    ensures
        create_coin_of(list_items(condition_tree(p))) == Ok::<
            (Seq<u8>, u64, Seq<Seq<u8>>),
            ConditionError,
        >((p.puzzle_hash, p.amount, p.memos)),
{
    let items = seq![atom_of(seq![51u8])] + condition_args(p);
    lemma_list_items_of_list(items);
    lemma_amount_round_trip(p.amount);
    assert(items[1] == atom_of(p.puzzle_hash));
    assert(items[2] == atom_of(int_bytes(p.amount as nat)));
    assert forall|i: int| 3 <= i < items.len() implies items[i] is Atom by {
        assert(items[i] == atom_of(p.memos[i - 3]));
    }
    let memos = Seq::new((items.len() - 3) as nat, |i: int| crate::sexp::atom_bytes(items[i + 3]));
    assert forall|i: int| 0 <= i < memos.len() implies memos[i] == p.memos[i] by {
        assert(items[i + 3] == atom_of(p.memos[i]));
    }
    assert(memos =~= p.memos);
}

} // verus!
