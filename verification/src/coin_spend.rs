//! Reading the conditions that a spend puts out: the coins it creates and
//! their memos, under a cost ceiling.

use vstd::prelude::*;
use crate::sexp::{
    SExp, Tree, atom_bytes, atom_of, pair_of, list_items, list_of, refs_trees,
    lemma_list_items_of_list,
};
use crate::bytes::{Bytes32, UnsizedBytes};
use crate::coin::{Coin, CoinModel, coin_id};
use crate::number::{amount_of, atom_to_u64, int_bytes, lemma_amount_round_trip};
use crate::program::SerializedProgram;

verus! {

/// The ceiling that stands for "no ceiling".
pub const INFINITE_COST: u64 = 0x7FFF_FFFF_FFFF_FFFF;

/// The cost of one aggregated-signature condition.
pub const AGG_SIG_COST: u64 = 1_200_000;

/// The cost of one create-coin condition.
pub const CREATE_COIN_COST: u64 = 1_800_000;

/// The opcode of an aggregated signature over a message alone.
pub const AGG_SIG_UNSAFE: u8 = 49;

/// The opcode of an aggregated signature bound to the coin.
pub const AGG_SIG_ME: u8 = 50;

/// The opcode that creates a coin.
pub const CREATE_COIN: u8 = 51;

/// The opcode that reserves a part of the spent value as fee.
pub const RESERVE_FEE: u8 = 52;

/// Why the conditions of a spend could not be read.
#[derive(Debug, Clone, Copy, PartialEq, Eq, Structural)]
pub enum ConditionError {
    /// A condition is the empty list: it has no opcode.
    EmptyConditionAtoms,
    /// A create-coin condition has fewer than three items.
    InvalidConditionArity,
    /// The amount of a created coin is negative or does not fit in 64 bits.
    NegativeOrOverflowAmount,
    /// The cost passed the ceiling, or can no longer be counted in 64 bits.
    CostExceeded,
    /// An item that must be an atom is a pair, or a puzzle hash is not 32
    /// bytes long.
    UnexpectedShape,
}

/// A coin's spend: the coin, the puzzle that guards it and the solution
/// handed to the puzzle.
#[derive(Debug, Clone, PartialEq, Eq)]
pub struct CoinSpend {
    pub coin: Coin,
    pub puzzle_reveal: SerializedProgram,
    pub solution: SerializedProgram,
}

/// A created coin with its memos, as contracts see it.
pub struct Addition {
    pub coin: CoinModel,
    pub memos: Option<Seq<Seq<u8>>>,
}

/// The byte strings that a vector of memos holds.
pub open spec fn memo_views(v: Seq<UnsizedBytes>) -> Seq<Seq<u8>> {
    Seq::new(v.len(), |i: int| v[i]@)
}

/// What one entry of the memo-preserving result stands for.
pub open spec fn addition_of(e: (Coin, Option<Vec<UnsizedBytes>>)) -> Addition {
    Addition {
        coin: e.0@,
        memos: match e.1 {
            Some(v) => Some(memo_views(v@)),
            None => None,
        },
    }
}

/// What the memo-preserving result stands for.
pub open spec fn additions_of(v: Seq<(Coin, Option<Vec<UnsizedBytes>>)>) -> Seq<Addition> {
    Seq::new(v.len(), |i: int| addition_of(v[i]))
}

/// The coins that a vector holds.
pub open spec fn coins_of(v: Seq<Coin>) -> Seq<CoinModel> {
    Seq::new(v.len(), |i: int| v[i]@)
}

/// The coins of a sequence of additions, memos left out.
pub open spec fn coins_only(s: Seq<Addition>) -> Seq<CoinModel> {
    Seq::new(s.len(), |i: int| s[i].coin)
}

/// The opcode that a tree stands for: the byte of a one-byte atom.
pub open spec fn opcode_of(t: Tree) -> Option<u8> {
    match t {
        Tree::Atom(b) => if b.len() == 1 {
            Some(b[0])
        } else {
            None
        },
        Tree::Pair(_, _) => None,
    }
}

/// What the items of a create-coin condition say: the puzzle hash, the
/// amount and the memos, which are the items behind the third. The first
/// fault found, in the order of the items, is the error.
pub open spec fn create_coin_of(items: Seq<Tree>) -> Result<
    (Seq<u8>, u64, Seq<Seq<u8>>),
    ConditionError,
> {
    if items.len() < 3 {
        Err(ConditionError::InvalidConditionArity)
    } else if !(items[1] is Atom) || atom_bytes(items[1]).len() != 32 {
        Err(ConditionError::UnexpectedShape)
    } else if !(items[2] is Atom) {
        Err(ConditionError::UnexpectedShape)
    } else if amount_of(atom_bytes(items[2])) is None {
        Err(ConditionError::NegativeOrOverflowAmount)
    } else if exists|i: int| 3 <= i < items.len() && !(items[i] is Atom) {
        Err(ConditionError::UnexpectedShape)
    } else {
        Ok(
            (
                atom_bytes(items[1]),
                amount_of(atom_bytes(items[2])).unwrap(),
                Seq::new((items.len() - 3) as nat, |i: int| atom_bytes(items[i + 3])),
            ),
        )
    }
}

/// Puts one addition in front of what a walk gives.
pub open spec fn prepend(a: Addition, r: Result<(Seq<Addition>, int), ConditionError>) -> Result<
    (Seq<Addition>, int),
    ConditionError,
> {
    match r {
        Ok((s, c)) => Ok((seq![a] + s, c)),
        Err(e) => Err(e),
    }
}

/// Puts the additions found so far in front of what the rest of a walk
/// gives.
pub open spec fn with_prefix(
    p: Seq<Addition>,
    r: Result<(Seq<Addition>, int), ConditionError>,
) -> Result<(Seq<Addition>, int), ConditionError> {
    match r {
        Ok((s, c)) => Ok((p + s, c)),
        Err(e) => Err(e),
    }
}

/// The walk over the conditions `conds` of a spend of the coin with id
/// `parent`, from the cost `cost`, under the ceiling `max_cost`.
///
/// Before each condition the cost so far is held against the ceiling. An
/// aggregated signature adds its cost; a create-coin condition adds its
/// cost and then gives a coin, or the error of its items; every other
/// opcode is passed over. A cost that would have to be carried on and no
/// longer fits in 64 bits counts as over the ceiling. The result is the
/// additions in the order of their conditions, and the cost at the end.
pub open spec fn walk(parent: Seq<u8>, conds: Seq<Tree>, cost: int, max_cost: int) -> Result<
    (Seq<Addition>, int),
    ConditionError,
>
    decreases conds.len(),
{
    if conds.len() == 0 {
        Ok((Seq::empty(), cost))
    } else if cost > max_cost {
        Err(ConditionError::CostExceeded)
    } else {
        let items = list_items(conds[0]);
        if items.len() == 0 {
            Err(ConditionError::EmptyConditionAtoms)
        } else {
            let code = opcode_of(items[0]);
            if code == Some(AGG_SIG_UNSAFE) || code == Some(AGG_SIG_ME) {
                if cost + AGG_SIG_COST > u64::MAX {
                    Err(ConditionError::CostExceeded)
                } else {
                    walk(parent, conds.skip(1), cost + AGG_SIG_COST, max_cost)
                }
            } else if code != Some(CREATE_COIN) {
                walk(parent, conds.skip(1), cost, max_cost)
            } else {
                match create_coin_of(items) {
                    Err(e) => Err(e),
                    Ok((puzzle_hash, amount, memos)) => {
                        if cost + CREATE_COIN_COST > u64::MAX {
                            Err(ConditionError::CostExceeded)
                        } else {
                            prepend(
                                Addition {
                                    coin: CoinModel {
                                        parent_coin_info: parent,
                                        puzzle_hash,
                                        amount,
                                    },
                                    memos: if memos.len() == 0 {
                                        None
                                    } else {
                                        Some(memos)
                                    },
                                },
                                walk(parent, conds.skip(1), cost + CREATE_COIN_COST, max_cost),
                            )
                        }
                    },
                }
            }
        }
    }
}

/// The fee that the items of one condition reserve: the amount at the
/// second place of a reserve-fee condition, nothing for any other.
pub open spec fn fee_of_items(items: Seq<Tree>) -> Result<u64, ConditionError> {
    if items.len() == 0 || opcode_of(items[0]) != Some(RESERVE_FEE) {
        Ok(0)
    } else if items.len() < 2 {
        Err(ConditionError::InvalidConditionArity)
    } else if !(items[1] is Atom) {
        Err(ConditionError::UnexpectedShape)
    } else {
        match amount_of(atom_bytes(items[1])) {
            None => Err(ConditionError::NegativeOrOverflowAmount),
            Some(amount) => Ok(amount),
        }
    }
}

/// The fee that a list of conditions reserves: the sum of what each
/// reserves, or the first error among them, a sum that leaves 64 bits
/// being an overflow of the amount.
pub open spec fn fee_total(conds: Seq<Tree>) -> Result<u64, ConditionError>
    decreases conds.len(),
{
    if conds.len() == 0 {
        Ok(0)
    } else {
        match fee_total(conds.drop_last()) {
            Err(e) => Err(e),
            Ok(sum) => match fee_of_items(list_items(conds.last())) {
                Err(e) => Err(e),
                Ok(fee) => if sum + fee > u64::MAX {
                    Err(ConditionError::NegativeOrOverflowAmount)
                } else {
                    Ok((sum + fee) as u64)
                },
            },
        }
    }
}

/// Adding one addition to the prefix is putting it in front of the rest.
pub proof fn lemma_prefix_push(
    p: Seq<Addition>,
    a: Addition,
    r: Result<(Seq<Addition>, int), ConditionError>,
)
    ensures
        with_prefix(p.push(a), r) == with_prefix(p, prepend(a, r)),
{
    match r {
        Ok((s, c)) => {
            assert(p.push(a) + s =~= p + (seq![a] + s));
        },
        Err(_) => {},
    }
}

/// The opcode at the head of a condition.
pub fn opcode(t: &SExp) -> (r: Option<u8>)
    ensures
        r == opcode_of(t@),
{
    match t {
        SExp::Atom(b) => {
            if b.len() == 1 {
                Some(b[0])
            } else {
                None
            }
        },
        SExp::Pair(_, _) => None,
    }
}

/// Reads the items of a create-coin condition: the puzzle hash, the amount
/// and the memos.
pub fn decode_create_coin(atoms: &Vec<&SExp>) -> (r: Result<
    (Bytes32, u64, Vec<UnsizedBytes>),
    ConditionError,
>)
    ensures
        match create_coin_of(refs_trees(atoms@)) {
            Ok((puzzle_hash, amount, memos)) => r is Ok && r.unwrap().0@ == puzzle_hash
                && r.unwrap().0.wf() && r.unwrap().1 == amount && memo_views(r.unwrap().2@)
                == memos,
            Err(e) => r matches Err(x) && x == e,
        },
{
    let ghost items = refs_trees(atoms@);
    if atoms.len() < 3 {
        return Err(ConditionError::InvalidConditionArity);
    }
    assert(items[1] == atoms@[1]@ && items[2] == atoms@[2]@);
    let puzzle_hash = match atoms[1].as_atom() {
        Err(_) => {
            return Err(ConditionError::UnexpectedShape);
        },
        Ok(b) => match Bytes32::new(b) {
            None => {
                return Err(ConditionError::UnexpectedShape);
            },
            Some(h) => h,
        },
    };
    let amount = match atoms[2].as_atom() {
        Err(_) => {
            return Err(ConditionError::UnexpectedShape);
        },
        Ok(b) => match atom_to_u64(b) {
            None => {
                return Err(ConditionError::NegativeOrOverflowAmount);
            },
            Some(a) => a,
        },
    };
    let mut memos: Vec<UnsizedBytes> = Vec::new();
    let mut i: usize = 3;
    while i < atoms.len()
        invariant
            3 <= i <= atoms@.len(),
            items == refs_trees(atoms@),
            items[1] is Atom,
            items[2] is Atom,
            puzzle_hash@ == atom_bytes(items[1]),
            puzzle_hash.wf(),
            amount_of(atom_bytes(items[2])) == Some(amount),
            memos@.len() == i - 3,
            forall|j: int| 3 <= j < i ==> items[j] is Atom,
            forall|j: int| 0 <= j < i - 3 ==> memos@[j]@ == atom_bytes(#[trigger] items[j + 3]),
        decreases atoms@.len() - i,
    {
        assert(items[i as int] == atoms@[i as int]@);
        match atoms[i].as_atom() {
            Err(_) => {
                assert(3 <= i < items.len() && !(items[i as int] is Atom));
                return Err(ConditionError::UnexpectedShape);
            },
            Ok(b) => {
                memos.push(UnsizedBytes::new(b));
            },
        }
        i += 1;
    }
    assert(memo_views(memos@) =~= Seq::new(
        (items.len() - 3) as nat,
        |i: int| atom_bytes(items[i + 3]),
    ));
    Ok((puzzle_hash, amount, memos))
}

/// Reads what the items of one condition reserve as fee.
pub fn reserve_fee_of(atoms: &Vec<&SExp>) -> (r: Result<u64, ConditionError>)
    ensures
        r == fee_of_items(refs_trees(atoms@)),
{
    if atoms.len() == 0 {
        return Ok(0);
    }
    assert(refs_trees(atoms@)[0] == atoms@[0]@);
    if opcode(atoms[0]) != Some(RESERVE_FEE) {
        return Ok(0);
    }
    if atoms.len() < 2 {
        return Err(ConditionError::InvalidConditionArity);
    }
    assert(refs_trees(atoms@)[1] == atoms@[1]@);
    match atoms[1].as_atom() {
        Err(_) => Err(ConditionError::UnexpectedShape),
        Ok(b) => match atom_to_u64(b) {
            None => Err(ConditionError::NegativeOrOverflowAmount),
            Some(amount) => Ok(amount),
        },
    }
}

/// What one pass over the conditions of a spend gives.
#[derive(Debug)]
pub struct Walked {
    /// The created coins, each with its memos.
    pub additions: Vec<(Coin, Option<Vec<UnsizedBytes>>)>,
    /// The cost at the end.
    pub cost: u64,
    /// The fee that the conditions reserve, or why it cannot be told.
    pub reserved_fee: Result<u64, ConditionError>,
}

/// The one pass over the conditions of a spend: the created coins with
/// their memos, the cost at the end, and the reserved fee.
pub fn walk_conditions(cs: &CoinSpend, cost: u64, output: &SExp, max_cost: u64) -> (r: Result<
    Walked,
    ConditionError,
>)
    ensures
        match walk(coin_id(cs.coin@), list_items(output@), cost as int, max_cost as int) {
            Ok((created, total)) => r is Ok && additions_of(r.unwrap().additions@) == created
                && r.unwrap().cost == total && r.unwrap().reserved_fee == fee_total(
                list_items(output@),
            ) && forall|i: int|
                0 <= i < r.unwrap().additions@.len() ==> (#[trigger] r.unwrap().additions@[i]).0.wf(),
            Err(e) => r matches Err(x) && x == e,
        },
{
    let parent_coin_info = cs.coin.name();
    let ghost parent = coin_id(cs.coin@);
    let mut ret: Vec<(Coin, Option<Vec<UnsizedBytes>>)> = Vec::new();
    let conds = output.as_list();
    let ghost all = refs_trees(conds@);
    let mut spent: u64 = cost;
    let mut fee: Result<u64, ConditionError> = Ok(0);
    assert(all.subrange(0, 0) =~= Seq::<Tree>::empty());
    let ghost start = cost as int;
    let mut i: usize = 0;
    assert(all.skip(0) =~= all);
    assert(additions_of(ret@) =~= Seq::<Addition>::empty());
    assert(with_prefix(additions_of(ret@), walk(parent, all, start, max_cost as int)) == walk(
        parent,
        all,
        start,
        max_cost as int,
    )) by {
        match walk(parent, all, start, max_cost as int) {
            Ok((s, c)) => {
                assert(additions_of(ret@) + s =~= s);
            },
            Err(_) => {},
        }
    }
    while i < conds.len()
        invariant
            i <= conds@.len(),
            all == refs_trees(conds@),
            all == list_items(output@),
            start == cost as int,
            fee == fee_total(all.subrange(0, i as int)),
            parent == coin_id(cs.coin@),
            parent_coin_info@ == parent,
            parent_coin_info.wf(),
            forall|j: int| 0 <= j < ret@.len() ==> (#[trigger] ret@[j]).0.wf(),
            walk(parent, all, start, max_cost as int) == with_prefix(
                additions_of(ret@),
                walk(parent, all.skip(i as int), spent as int, max_cost as int),
            ),
        decreases conds@.len() - i,
    {
        let ghost rest = all.skip(i as int);
        let ghost found = additions_of(ret@);
        assert(rest.skip(1) =~= all.skip(i + 1));
        assert(rest[0] == conds@[i as int]@);
        assert(rest.len() == conds@.len() - i);
        let ghost rest_walk = walk(parent, rest, spent as int, max_cost as int);
        if spent > max_cost {
            return Err(ConditionError::CostExceeded);
        }
        let atoms = conds[i].as_list();
        if atoms.len() == 0 {
            return Err(ConditionError::EmptyConditionAtoms);
        }
        assert(refs_trees(atoms@)[0] == atoms@[0]@);
        proof {
            assert(all.subrange(0, i + 1).drop_last() =~= all.subrange(0, i as int));
            assert(all.subrange(0, i + 1).last() == conds@[i as int]@);
        }
        fee = match fee {
            Err(e) => Err(e),
            Ok(sum) => match reserve_fee_of(&atoms) {
                Err(e) => Err(e),
                Ok(reserved) => {
                    if sum > u64::MAX - reserved {
                        Err(ConditionError::NegativeOrOverflowAmount)
                    } else {
                        Ok(sum + reserved)
                    }
                },
            },
        };
        let code = opcode(atoms[0]);
        if code == Some(AGG_SIG_UNSAFE) || code == Some(AGG_SIG_ME) {
            if spent > u64::MAX - AGG_SIG_COST {
                return Err(ConditionError::CostExceeded);
            }
            spent = spent + AGG_SIG_COST;
        } else if code == Some(CREATE_COIN) {
            match decode_create_coin(&atoms) {
                Err(e) => {
                    return Err(e);
                },
                Ok((puzzle_hash, amount, memos)) => {
                    if spent > u64::MAX - CREATE_COIN_COST {
                        return Err(ConditionError::CostExceeded);
                    }
                    spent = spent + CREATE_COIN_COST;
                    let coin = Coin {
                        parent_coin_info: parent_coin_info.duplicate(),
                        puzzle_hash,
                        amount,
                    };
                    let kept: Option<Vec<UnsizedBytes>> = if memos.len() == 0 {
                        None
                    } else {
                        Some(memos)
                    };
                    let ghost entry = addition_of((coin, kept));
                    ret.push((coin, kept));
                    proof {
                        assert(additions_of(ret@) =~= found.push(entry));
                        lemma_prefix_push(
                            found,
                            entry,
                            walk(parent, all.skip(i + 1), spent as int, max_cost as int),
                        );
                    }
                },
            }
        }
        i += 1;
    }
    proof {
        match walk(parent, all.skip(i as int), spent as int, max_cost as int) {
            Ok((s, c)) => {
                assert(additions_of(ret@) + s =~= additions_of(ret@));
            },
            Err(_) => {},
        }
    }
    assert(all.subrange(0, i as int) =~= all);
    Ok(Walked { additions: ret, cost: spent, reserved_fee: fee })
}

/// The coins that a spend creates, each with its memos, and the cost at the
/// end, from the cost and the output of running the spend's puzzle.
pub fn compute_additions_with_cost_for_memos(
    cs: &CoinSpend,
    cost: u64,
    output: &SExp,
    max_cost: u64,
) -> (r: Result<(Vec<(Coin, Option<Vec<UnsizedBytes>>)>, u64), ConditionError>)
    ensures
        match walk(coin_id(cs.coin@), list_items(output@), cost as int, max_cost as int) {
            Ok((created, total)) => r is Ok && additions_of(r.unwrap().0@) == created
                && r.unwrap().1 == total && forall|i: int|
                0 <= i < r.unwrap().0@.len() ==> (#[trigger] r.unwrap().0@[i]).0.wf(),
            Err(e) => r matches Err(x) && x == e,
        },
{
    match walk_conditions(cs, cost, output, max_cost) {
        Err(e) => Err(e),
        Ok(walked) => Ok((walked.additions, walked.cost)),
    }
}

/// The coins that a spend creates and the cost at the end: the same walk,
/// with the memos left out.
pub fn compute_additions_with_cost(cs: &CoinSpend, cost: u64, output: &SExp, max_cost: u64) -> (r:
    Result<(Vec<Coin>, u64), ConditionError>)
    ensures
        match walk(coin_id(cs.coin@), list_items(output@), cost as int, max_cost as int) {
            Ok((created, total)) => r is Ok && coins_of(r.unwrap().0@) == coins_only(created)
                && r.unwrap().1 == total && forall|i: int|
                0 <= i < r.unwrap().0@.len() ==> (#[trigger] r.unwrap().0@[i]).wf(),
            Err(e) => r matches Err(x) && x == e,
        },
{
    match compute_additions_with_cost_for_memos(cs, cost, output, max_cost) {
        Err(e) => Err(e),
        Ok((with_memos, total)) => {
            let mut coins: Vec<Coin> = Vec::new();
            let mut i: usize = 0;
            while i < with_memos.len()
                invariant
                    i <= with_memos@.len(),
                    coins@.len() == i,
                    forall|j: int| 0 <= j < i ==> (#[trigger] coins@[j])@ == with_memos@[j].0@,
                    forall|j: int| 0 <= j < i ==> (#[trigger] coins@[j]).wf(),
                    forall|j: int|
                        0 <= j < with_memos@.len() ==> (#[trigger] with_memos@[j]).0.wf(),
                decreases with_memos@.len() - i,
            {
                coins.push(with_memos[i].0.duplicate());
                i += 1;
            }
            assert(coins_of(coins@) =~= coins_only(additions_of(with_memos@)));
            Ok((coins, total))
        },
    }
}

impl CoinSpend {
    /// The coins that the spend creates, under no ceiling.
    pub fn additions(&self, cost: u64, output: &SExp) -> (r: Result<Vec<Coin>, ConditionError>)
        ensures
            match walk(coin_id(self.coin@), list_items(output@), cost as int, INFINITE_COST as int) {
                Ok((created, total)) => r is Ok && coins_of(r.unwrap()@) == coins_only(created)
                    && forall|i: int| 0 <= i < r.unwrap()@.len() ==> (#[trigger] r.unwrap()@[i]).wf(),
                Err(e) => r matches Err(x) && x == e,
            },
    {
        match compute_additions_with_cost(self, cost, output, INFINITE_COST) {
            Ok((coins, _)) => Ok(coins),
            Err(e) => Err(e),
        }
    }

    /// The coins that the spend creates, each with its memos, under no
    /// ceiling; none where the conditions cannot be read.
    pub fn memos(&self, cost: u64, output: &SExp) -> (r: Vec<(Coin, Option<Vec<UnsizedBytes>>)>)
        ensures
            match walk(coin_id(self.coin@), list_items(output@), cost as int, INFINITE_COST as int) {
                Ok((created, total)) => additions_of(r@) == created && forall|i: int|
                    0 <= i < r@.len() ==> (#[trigger] r@[i]).0.wf(),
                Err(e) => r@.len() == 0,
            },
    {
        match compute_additions_with_cost_for_memos(self, cost, output, INFINITE_COST) {
            Ok((additions, _)) => additions,
            Err(_) => Vec::new(),
        }
    }

    /// The fee that the spend reserves, under no ceiling: the error of the
    /// walk where the conditions cannot be read, else the sum of the
    /// reserved amounts or the first error among them.
    pub fn reserved_fee(&self, cost: u64, output: &SExp) -> (r: Result<u64, ConditionError>)
        ensures
            match walk(coin_id(self.coin@), list_items(output@), cost as int, INFINITE_COST as int) {
                Ok(_) => r == fee_total(list_items(output@)),
                Err(e) => r matches Err(x) && x == e,
            },
    {
        match walk_conditions(self, cost, output, INFINITE_COST) {
            Err(e) => Err(e),
            Ok(walked) => walked.reserved_fee,
        }
    }
}

/// One create-coin condition with one memo, followed by one aggregated
/// signature: the walk gives the one coin, with the spent coin's id as its
/// parent and the memo kept, and a cost raised by both increments. It fails
/// with `CostExceeded` exactly where the cost at the start, or the cost
/// after the coin, lies over the ceiling; the cost after the last condition
/// is not held against it.
pub proof fn lemma_create_coin_then_agg_sig(
    parent: Seq<u8>,
    puzzle_hash: Seq<u8>,
    amount: u64,
    memo: Seq<u8>,
    agg_code: u8,
    agg_args: Tree,
    cost: int,
    max_cost: int,
)
    requires
        puzzle_hash.len() == 32,
        agg_code == AGG_SIG_UNSAFE || agg_code == AGG_SIG_ME,
        0 <= cost,
        cost + CREATE_COIN_COST + AGG_SIG_COST <= u64::MAX,
    ensures
        ({
            let create = list_of(
                seq![
                    atom_of(seq![CREATE_COIN]),
                    atom_of(puzzle_hash),
                    atom_of(int_bytes(amount as nat)),
                    atom_of(memo),
                ],
            );
            let agg_sig = pair_of(atom_of(seq![agg_code]), agg_args);
            let created = Addition {
                coin: CoinModel { parent_coin_info: parent, puzzle_hash, amount },
                memos: Some(seq![memo]),
            };
            walk(parent, seq![create, agg_sig], cost, max_cost) == (if cost > max_cost || cost
                + CREATE_COIN_COST > max_cost {
                Err::<(Seq<Addition>, int), ConditionError>(ConditionError::CostExceeded)
            } else {
                Ok((seq![created], cost + CREATE_COIN_COST + AGG_SIG_COST))
            })
        }),
{
    let items = seq![
        atom_of(seq![CREATE_COIN]),
        atom_of(puzzle_hash),
        atom_of(int_bytes(amount as nat)),
        atom_of(memo),
    ];
    let create = list_of(items);
    let agg_sig = pair_of(atom_of(seq![agg_code]), agg_args);
    let conds = seq![create, agg_sig];
    let created = Addition {
        coin: CoinModel { parent_coin_info: parent, puzzle_hash, amount },
        memos: Some(seq![memo]),
    };
    lemma_list_items_of_list(items);
    lemma_amount_round_trip(amount);
    let memos = Seq::new((items.len() - 3) as nat, |i: int| atom_bytes(items[i + 3]));
    assert(memos =~= seq![memo]);
    assert(create_coin_of(items) == Ok::<(Seq<u8>, u64, Seq<Seq<u8>>), ConditionError>(
        (puzzle_hash, amount, seq![memo]),
    ));
    let after = cost + CREATE_COIN_COST;
    let tail = conds.skip(1);
    assert(tail.len() == 1 && tail[0] == agg_sig);
    assert(tail.skip(1).len() == 0);
    assert(list_items(agg_sig)[0] == atom_of(seq![agg_code]));
    assert(opcode_of(list_items(agg_sig)[0]) == Some(agg_code));
    assert(walk(parent, tail.skip(1), after + AGG_SIG_COST, max_cost) == Ok::<
        (Seq<Addition>, int),
        ConditionError,
    >((Seq::empty(), after + AGG_SIG_COST)));
    assert(walk(parent, tail, after, max_cost) == (if after > max_cost {
        Err::<(Seq<Addition>, int), ConditionError>(ConditionError::CostExceeded)
    } else {
        Ok((Seq::empty(), after + AGG_SIG_COST))
    }));
    assert(seq![created] + Seq::<Addition>::empty() =~= seq![created]);
    assert(conds[0] == create);
    assert(opcode_of(items[0]) == Some(CREATE_COIN));
}

/// A create-coin condition of fewer than three items stops the walk with
/// `InvalidConditionArity`, whatever the cost is, as long as it does not
/// lie over the ceiling.
pub proof fn lemma_create_coin_arity(parent: Seq<u8>, conds: Seq<Tree>, cost: int, max_cost: int)
    requires
        conds.len() > 0,
        cost <= max_cost,
        0 < list_items(conds[0]).len() < 3,
        opcode_of(list_items(conds[0])[0]) == Some(CREATE_COIN),
    ensures
        walk(parent, conds, cost, max_cost) == Err::<(Seq<Addition>, int), ConditionError>(
            ConditionError::InvalidConditionArity,
        ),
{
}

/// A create-coin condition whose amount is a negative number stops the walk
/// with `NegativeOrOverflowAmount`, whatever the cost is, as long as it does
/// not lie over the ceiling.
pub proof fn lemma_create_coin_negative_amount(
    parent: Seq<u8>,
    conds: Seq<Tree>,
    cost: int,
    max_cost: int,
)
    requires
        conds.len() > 0,
        cost <= max_cost,
        list_items(conds[0]).len() >= 3,
        opcode_of(list_items(conds[0])[0]) == Some(CREATE_COIN),
        list_items(conds[0])[1] is Atom,
        atom_bytes(list_items(conds[0])[1]).len() == 32,
        list_items(conds[0])[2] is Atom,
        atom_bytes(list_items(conds[0])[2]).len() > 0,
        atom_bytes(list_items(conds[0])[2])[0] >= 0x80,
    ensures
        walk(parent, conds, cost, max_cost) == Err::<(Seq<Addition>, int), ConditionError>(
            ConditionError::NegativeOrOverflowAmount,
        ),
{
}

} // verus!
