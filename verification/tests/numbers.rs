use clvm_tree::number::{atom_to_u64, u64_to_atom};
use num_bigint::BigInt;
use num_traits::ToPrimitive;

fn samples() -> Vec<Vec<u8>> {
    let mut out: Vec<Vec<u8>> = vec![vec![]];
    let bytes = [0x00u8, 0x01, 0x7F, 0x80, 0xE8, 0xFF];
    for a in bytes {
        out.push(vec![a]);
        for b in bytes {
            out.push(vec![a, b]);
            out.push(vec![a, b, 0x55, 0xAA, 0x00, 0xFF, 0x10, a]);
            out.push(vec![a, b, 0x55, 0xAA, 0x00, 0xFF, 0x10, a, b]);
            out.push(vec![0, a, b, 0x55, 0xAA, 0x00, 0xFF, 0x10, a, b]);
            out.push(vec![0, 0, 0, a, b]);
        }
    }
    out
}

#[test]
fn reading_agrees_with_big_integers() {
    for bytes in samples() {
        let expected = BigInt::from_signed_bytes_be(&bytes).to_u64();
        assert_eq!(atom_to_u64(&bytes), expected, "{:?}", bytes);
    }
}

#[test]
fn writing_agrees_with_big_integers() {
    for n in [1u64, 2, 127, 128, 255, 256, 1000, 32767, 32768, 1 << 31, 1 << 32, u64::MAX >> 1, (u64::MAX >> 1) + 1, u64::MAX] {
        assert_eq!(u64_to_atom(n), BigInt::from(n).to_signed_bytes_be(), "{}", n);
    }
    assert_eq!(u64_to_atom(0), Vec::<u8>::new());
}
