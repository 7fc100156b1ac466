use clvm_tree::bytes::Bytes32;
use clvm_tree::coin::Coin;
use clvm_tree::coin_spend::{
    compute_additions_with_cost, compute_additions_with_cost_for_memos, CoinSpend, ConditionError,
    AGG_SIG_COST, CREATE_COIN_COST,
};
use clvm_tree::number::{atom_to_u64, u64_to_atom};
use clvm_tree::program::SerializedProgram;
use clvm_tree::sexp::SExp;

fn a(bytes: &[u8]) -> SExp {
    SExp::atom(bytes.to_vec())
}

fn list(items: Vec<SExp>) -> SExp {
    SExp::list(&items)
}

fn spend() -> CoinSpend {
    CoinSpend {
        coin: Coin {
            parent_coin_info: Bytes32::new(&vec![0x11u8; 32]).unwrap(),
            puzzle_hash: Bytes32::new(&vec![0x22u8; 32]).unwrap(),
            amount: 1000,
        },
        puzzle_reveal: SerializedProgram::from_bytes(&vec![0x01u8]),
        solution: SerializedProgram::from_bytes(&vec![0x80u8]),
    }
}

fn create_coin(hash: &[u8], amount: &[u8], memos: &[&[u8]]) -> SExp {
    let mut items = vec![a(&[51]), a(hash), a(amount)];
    for m in memos {
        items.push(a(m));
    }
    list(items)
}

fn agg_sig() -> SExp {
    list(vec![a(&[50]), a(&[0xAA; 48]), a(b"msg")])
}

#[test]
fn coin_name_is_the_hash_of_its_tuple() {
    let id = spend().coin.name();
    assert_eq!(id.bytes, vec![
        101u8, 217, 230, 16, 113, 166, 68, 244, 14, 5, 32, 47, 173, 235, 145, 154, 6, 74, 172, 11,
        160, 218, 61, 18, 238, 150, 3, 205, 150, 225, 77, 139
    ]);
}

#[test]
fn create_coin_and_agg_sig() {
    let cs = spend();
    let h = [0x33u8; 32];
    let out = list(vec![create_coin(&h, &[0x03, 0xE8], &[b"m1"]), agg_sig()]);
    let (adds, cost) = compute_additions_with_cost_for_memos(&cs, 0, &out, u64::MAX).unwrap();
    assert_eq!(cost, CREATE_COIN_COST + AGG_SIG_COST);
    assert_eq!(cost, 3_000_000);
    assert_eq!(adds.len(), 1);
    assert_eq!(adds[0].0.parent_coin_info.bytes, cs.coin.name().bytes);
    assert_eq!(adds[0].0.puzzle_hash.bytes, h.to_vec());
    assert_eq!(adds[0].0.amount, 1000);
    let memos = adds[0].1.as_ref().unwrap();
    assert_eq!(memos.len(), 1);
    assert_eq!(memos[0].bytes, b"m1".to_vec());

    let (coins, cost2) = compute_additions_with_cost(&cs, 0, &out, u64::MAX).unwrap();
    assert_eq!(cost2, 3_000_000);
    assert_eq!(coins.len(), 1);
    assert_eq!(coins[0].amount, 1000);
    assert_eq!(coins[0].puzzle_hash.bytes, h.to_vec());
    assert_eq!(coins[0].parent_coin_info.bytes, cs.coin.name().bytes);
}

#[test]
fn starting_cost_is_carried() {
    let cs = spend();
    let out = list(vec![agg_sig(), list(vec![a(&[49])])]);
    let (adds, cost) = compute_additions_with_cost_for_memos(&cs, 77, &out, u64::MAX).unwrap();
    assert_eq!(adds.len(), 0);
    assert_eq!(cost, 77 + 2 * AGG_SIG_COST);
}

#[test]
fn ceiling_is_checked_before_each_condition() {
    let cs = spend();
    let h = [0x33u8; 32];
    let out = list(vec![create_coin(&h, &[0x03, 0xE8], &[b"m1"]), agg_sig()]);
    // the ceiling lies under the cost after the first condition
    assert_eq!(
        compute_additions_with_cost_for_memos(&cs, 0, &out, CREATE_COIN_COST - 1).unwrap_err(),
        ConditionError::CostExceeded
    );
    assert_eq!(
        compute_additions_with_cost(&cs, 0, &out, CREATE_COIN_COST - 1).unwrap_err(),
        ConditionError::CostExceeded
    );
    // the last increment is never checked
    let (_, cost) = compute_additions_with_cost_for_memos(&cs, 0, &out, CREATE_COIN_COST).unwrap();
    assert_eq!(cost, CREATE_COIN_COST + AGG_SIG_COST);
    // a start over the ceiling fails at the first condition, and not on an empty list
    assert_eq!(
        compute_additions_with_cost_for_memos(&cs, 5, &out, 4).unwrap_err(),
        ConditionError::CostExceeded
    );
    let (none, cost) = compute_additions_with_cost_for_memos(&cs, 5, &SExp::null(), 4).unwrap();
    assert_eq!(none.len(), 0);
    assert_eq!(cost, 5);
}

#[test]
fn cost_that_leaves_64_bits_is_exceeded() {
    let cs = spend();
    let out = list(vec![agg_sig()]);
    assert_eq!(
        compute_additions_with_cost_for_memos(&cs, u64::MAX - 5, &out, u64::MAX).unwrap_err(),
        ConditionError::CostExceeded
    );
}

#[test]
fn create_coin_with_two_items_is_an_arity_error() {
    let cs = spend();
    let out = list(vec![list(vec![a(&[51]), a(&[0x33; 32])])]);
    assert_eq!(
        compute_additions_with_cost_for_memos(&cs, 0, &out, u64::MAX).unwrap_err(),
        ConditionError::InvalidConditionArity
    );
    assert_eq!(
        compute_additions_with_cost(&cs, 0, &out, u64::MAX).unwrap_err(),
        ConditionError::InvalidConditionArity
    );
}

#[test]
fn negative_or_oversized_amount_is_refused() {
    let cs = spend();
    let h = [0x33u8; 32];
    let negative = list(vec![create_coin(&h, &[0xFF], &[])]);
    assert_eq!(
        compute_additions_with_cost_for_memos(&cs, 0, &negative, u64::MAX).unwrap_err(),
        ConditionError::NegativeOrOverflowAmount
    );
    let too_big = list(vec![create_coin(&h, &[1, 0, 0, 0, 0, 0, 0, 0, 0], &[])]);
    assert_eq!(
        compute_additions_with_cost_for_memos(&cs, 0, &too_big, u64::MAX).unwrap_err(),
        ConditionError::NegativeOrOverflowAmount
    );
    let largest = list(vec![create_coin(&h, &[0, 255, 255, 255, 255, 255, 255, 255, 255], &[])]);
    let (adds, _) = compute_additions_with_cost_for_memos(&cs, 0, &largest, u64::MAX).unwrap();
    assert_eq!(adds[0].0.amount, u64::MAX);
    assert!(adds[0].1.is_none());
}

#[test]
fn empty_condition_is_an_error() {
    let cs = spend();
    let out = list(vec![agg_sig(), SExp::null()]);
    assert_eq!(
        compute_additions_with_cost_for_memos(&cs, 0, &out, u64::MAX).unwrap_err(),
        ConditionError::EmptyConditionAtoms
    );
}

#[test]
fn shapes_are_checked() {
    let cs = spend();
    let short_hash = list(vec![create_coin(&[0x33; 31], &[1], &[])]);
    assert_eq!(
        compute_additions_with_cost_for_memos(&cs, 0, &short_hash, u64::MAX).unwrap_err(),
        ConditionError::UnexpectedShape
    );
    let pair_amount = list(vec![list(vec![
        a(&[51]),
        a(&[0x33; 32]),
        SExp::pair(a(&[1]), a(&[2])),
    ])]);
    assert_eq!(
        compute_additions_with_cost_for_memos(&cs, 0, &pair_amount, u64::MAX).unwrap_err(),
        ConditionError::UnexpectedShape
    );
    let pair_memo = list(vec![list(vec![
        a(&[51]),
        a(&[0x33; 32]),
        a(&[1]),
        SExp::pair(a(&[1]), a(&[2])),
    ])]);
    assert_eq!(
        compute_additions_with_cost_for_memos(&cs, 0, &pair_memo, u64::MAX).unwrap_err(),
        ConditionError::UnexpectedShape
    );
}

#[test]
fn other_opcodes_are_passed_over() {
    let cs = spend();
    let out = list(vec![
        list(vec![a(&[52]), a(&[5])]),
        list(vec![a(&[51, 0]), a(&[5])]),
        list(vec![SExp::pair(a(&[51]), a(&[1]))]),
        create_coin(&[0x44; 32], &[], &[b"a", b"", b"ccc"]),
    ]);
    let (adds, cost) = compute_additions_with_cost_for_memos(&cs, 0, &out, u64::MAX).unwrap();
    assert_eq!(cost, CREATE_COIN_COST);
    assert_eq!(adds.len(), 1);
    assert_eq!(adds[0].0.amount, 0);
    let memos = adds[0].1.as_ref().unwrap();
    assert_eq!(memos.len(), 3);
    assert_eq!(memos[0].bytes, b"a".to_vec());
    assert_eq!(memos[1].bytes, Vec::<u8>::new());
    assert_eq!(memos[2].bytes, b"ccc".to_vec());
}

#[test]
fn spend_views_use_no_ceiling() {
    let cs = spend();
    let h = [0x33u8; 32];
    let out = list(vec![
        create_coin(&h, &[0x03, 0xE8], &[b"m1"]),
        create_coin(&h, &[0x01], &[]),
    ]);
    let coins = cs.additions(0, &out).unwrap();
    assert_eq!(coins.len(), 2);
    assert_eq!(coins[1].amount, 1);
    let with_memos = cs.memos(0, &out);
    assert_eq!(with_memos.len(), 2);
    assert!(with_memos[1].1.is_none());
    let bad = list(vec![SExp::null()]);
    assert_eq!(cs.additions(0, &bad).unwrap_err(), ConditionError::EmptyConditionAtoms);
    assert_eq!(cs.memos(0, &bad).len(), 0);
}

#[test]
fn amounts_as_atoms() {
    assert_eq!(u64_to_atom(0), Vec::<u8>::new());
    assert_eq!(u64_to_atom(1), vec![1u8]);
    assert_eq!(u64_to_atom(127), vec![0x7Fu8]);
    assert_eq!(u64_to_atom(128), vec![0x00u8, 0x80]);
    assert_eq!(u64_to_atom(1000), vec![0x03u8, 0xE8]);
    assert_eq!(u64_to_atom(u64::MAX), vec![0u8, 255, 255, 255, 255, 255, 255, 255, 255]);
    assert_eq!(atom_to_u64(&vec![]), Some(0));
    assert_eq!(atom_to_u64(&vec![0x03, 0xE8]), Some(1000));
    assert_eq!(atom_to_u64(&vec![0x00, 0x80]), Some(128));
    assert_eq!(atom_to_u64(&vec![0x80]), None);
    assert_eq!(atom_to_u64(&vec![0x7F, 0xFF, 0xFF, 0xFF, 0xFF, 0xFF, 0xFF, 0xFF]), Some(i64::MAX as u64));
    assert_eq!(atom_to_u64(&vec![1, 0, 0, 0, 0, 0, 0, 0, 0]), None);
    for n in [0u64, 1, 255, 256, 65535, 1 << 40, u64::MAX - 1] {
        assert_eq!(atom_to_u64(&u64_to_atom(n)), Some(n));
    }
}

#[test]
fn item_errors_come_before_a_cost_that_leaves_64_bits() {
    let cs = spend();
    let short = list(vec![list(vec![a(&[51]), a(&[0x33; 32])])]);
    assert_eq!(
        compute_additions_with_cost_for_memos(&cs, u64::MAX, &short, u64::MAX).unwrap_err(),
        ConditionError::InvalidConditionArity
    );
    assert_eq!(
        compute_additions_with_cost(&cs, u64::MAX, &short, u64::MAX).unwrap_err(),
        ConditionError::InvalidConditionArity
    );
    let negative = list(vec![create_coin(&[0x33; 32], &[0x80], &[])]);
    assert_eq!(
        compute_additions_with_cost_for_memos(&cs, u64::MAX - 1, &negative, u64::MAX).unwrap_err(),
        ConditionError::NegativeOrOverflowAmount
    );
    assert_eq!(
        compute_additions_with_cost(&cs, u64::MAX - 1, &negative, u64::MAX).unwrap_err(),
        ConditionError::NegativeOrOverflowAmount
    );
    let good = list(vec![create_coin(&[0x33; 32], &[0x01], &[])]);
    assert_eq!(
        compute_additions_with_cost(&cs, u64::MAX - 1, &good, u64::MAX).unwrap_err(),
        ConditionError::CostExceeded
    );
}
