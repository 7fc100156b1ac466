use clvm_tree::bytes::{Bytes32, UnsizedBytes};
use clvm_tree::codec::sexp_to_bytes;
use clvm_tree::coin::Coin;
use clvm_tree::coin_spend::{CoinSpend, ConditionError};
use clvm_tree::hash::tree_hash;
use clvm_tree::payment::Payment;
use clvm_tree::program::SerializedProgram;
use clvm_tree::records::{AssertCoinAnnouncement, AssertPuzzleAnnouncement, BlockRecord, VdfOutput};
use clvm_tree::sexp::SExp;

fn payment(amount: u64, memos: &[&[u8]]) -> Payment {
    Payment {
        puzzle_hash: Bytes32::new(&vec![0x55u8; 32]).unwrap(),
        amount,
        memos: memos.iter().map(|m| UnsizedBytes::new(&m.to_vec())).collect(),
    }
}

#[test]
fn payment_condition_encoding() {
    let p = payment(1000, &[b"hi"]);
    let mut expected: Vec<u8> = vec![0xFF, 0x33, 0xFF, 0xA0];
    expected.extend_from_slice(&[0x55; 32]);
    expected.extend_from_slice(&[0xFF, 0x82, 0x03, 0xE8, 0xFF, 0x82, b'h', b'i', 0x80]);
    assert_eq!(sexp_to_bytes(&p.as_condition()).unwrap(), expected);
    let args = p.as_condition_args();
    assert_eq!(args.len(), 3);
    assert_eq!(sexp_to_bytes(&args[1]).unwrap(), vec![0x82u8, 0x03, 0xE8]);
}

#[test]
fn payment_round_trips_through_its_condition() {
    for (amount, memos) in [
        (0u64, vec![]),
        (1000, vec![&b"m1"[..]]),
        (u64::MAX, vec![&b""[..], &b"abc"[..], &[0xFFu8][..]]),
    ] {
        let p = payment(amount, &memos);
        let back = Payment::from_condition(&p.as_condition()).unwrap();
        assert_eq!(back.puzzle_hash.bytes, p.puzzle_hash.bytes);
        assert_eq!(back.amount, amount);
        assert_eq!(back.memos.len(), memos.len());
        for i in 0..memos.len() {
            assert_eq!(back.memos[i].bytes, memos[i].to_vec());
        }
        assert_eq!(back.name().bytes, p.name().bytes);
    }
}

#[test]
fn payment_name_is_the_hash_of_its_condition() {
    let p = payment(7, &[]);
    assert_eq!(p.name().bytes, tree_hash(&p.as_condition()).bytes);
    assert_ne!(p.name().bytes, payment(8, &[]).name().bytes);
}

#[test]
fn payment_from_a_bad_condition() {
    let short = SExp::list(&vec![SExp::atom(vec![51]), SExp::atom(vec![0x55; 32])]);
    assert_eq!(Payment::from_condition(&short).unwrap_err(), ConditionError::InvalidConditionArity);
    let negative = SExp::list(&vec![
        SExp::atom(vec![51]),
        SExp::atom(vec![0x55; 32]),
        SExp::atom(vec![0x80]),
    ]);
    assert_eq!(
        Payment::from_condition(&negative).unwrap_err(),
        ConditionError::NegativeOrOverflowAmount
    );
    assert_eq!(
        Payment::from_condition(&SExp::null()).unwrap_err(),
        ConditionError::InvalidConditionArity
    );
}

fn spend() -> CoinSpend {
    CoinSpend {
        coin: Coin {
            parent_coin_info: Bytes32::new(&vec![0x11u8; 32]).unwrap(),
            puzzle_hash: Bytes32::new(&vec![0x22u8; 32]).unwrap(),
            amount: 1000,
        },
        puzzle_reveal: SerializedProgram::from_bytes(&vec![0x01u8]),
        solution: SerializedProgram::from_bytes(&vec![0x80u8]),
    }
}

fn reserve(amount: &[u8]) -> SExp {
    SExp::list(&vec![SExp::atom(vec![52]), SExp::atom(amount.to_vec())])
}

#[test]
fn reserved_fee_sums_the_reserve_conditions() {
    let cs = spend();
    let out = SExp::list(&vec![
        reserve(&[5]),
        payment(1, &[]).as_condition(),
        reserve(&[0x03, 0xE8]),
    ]);
    assert_eq!(cs.reserved_fee(0, &out).unwrap(), 1005);
    assert_eq!(cs.additions(0, &out).unwrap().len(), 1);
    assert_eq!(cs.reserved_fee(0, &SExp::null()).unwrap(), 0);
}

#[test]
fn reserved_fee_errors() {
    let cs = spend();
    let negative = SExp::list(&vec![reserve(&[0xFF])]);
    assert_eq!(
        cs.reserved_fee(0, &negative).unwrap_err(),
        ConditionError::NegativeOrOverflowAmount
    );
    // a bad reserve condition does not touch the additions
    assert_eq!(cs.additions(0, &negative).unwrap().len(), 0);
    let no_amount = SExp::list(&vec![SExp::list(&vec![SExp::atom(vec![52])])]);
    assert_eq!(cs.reserved_fee(0, &no_amount).unwrap_err(), ConditionError::InvalidConditionArity);
    let too_much = SExp::list(&vec![
        reserve(&[0, 255, 255, 255, 255, 255, 255, 255, 255]),
        reserve(&[1]),
    ]);
    assert_eq!(
        cs.reserved_fee(0, &too_much).unwrap_err(),
        ConditionError::NegativeOrOverflowAmount
    );
    let empty_condition = SExp::list(&vec![SExp::null()]);
    assert_eq!(
        cs.reserved_fee(0, &empty_condition).unwrap_err(),
        ConditionError::EmptyConditionAtoms
    );
}

#[test]
fn announcements_hold_what_they_are_given() {
    let id = Bytes32::new(&vec![9u8; 32]).unwrap();
    let a = AssertCoinAnnouncement::new(id, vec![1, 2], Some(vec![3]));
    assert_eq!(a.coin_id.bytes, vec![9u8; 32]);
    assert_eq!(a.message.bytes, vec![1u8, 2]);
    assert_eq!(a.morph_bytes.unwrap().bytes, vec![3u8]);
    let id = Bytes32::new(&vec![8u8; 32]).unwrap();
    let b = AssertPuzzleAnnouncement::new(id, vec![], None);
    assert_eq!(b.puzzle_hash.bytes, vec![8u8; 32]);
    assert_eq!(b.message.bytes, Vec::<u8>::new());
    assert!(b.morph_bytes.is_none());
}

#[test]
fn blank_block_record() {
    let mut r = BlockRecord::default();
    assert!(!r.is_transaction_block());
    assert_eq!(r.height, 0);
    assert_eq!(r.header_hash.bytes, vec![0u8; 32]);
    assert!(r.fees.is_none());
    r.timestamp = Some(12);
    assert!(r.is_transaction_block());
    assert_eq!(VdfOutput::default().data.bytes, Vec::<u8>::new());
}

#[test]
fn identifiers_are_32_bytes() {
    assert!(Bytes32::new(&vec![0u8; 31]).is_none());
    assert!(Bytes32::new(&vec![0u8; 33]).is_none());
    assert_eq!(Bytes32::new(&vec![7u8; 32]).unwrap().bytes, vec![7u8; 32]);
    assert_eq!(Bytes32::zero().bytes, vec![0u8; 32]);
}
