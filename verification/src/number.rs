//! Atoms read and written as integers: big-endian, two's complement, in
//! the fewest bytes.

use vstd::prelude::*;

verus! {

/// The number that `b` writes in base 256, most significant byte first.
pub open spec fn unsigned_value(b: Seq<u8>) -> nat
    decreases b.len(),
{
    if b.len() == 0 {
        0
    } else {
        unsigned_value(b.drop_last()) * 256 + b.last() as nat
    }
}

/// The amount that an atom holds: none where the atom is a negative number
/// (its first byte has the high bit set) or does not fit in 64 bits.
pub open spec fn amount_of(b: Seq<u8>) -> Option<u64> {
    if b.len() > 0 && b[0] >= 0x80 {
        None
    } else if unsigned_value(b) > u64::MAX {
        None
    } else {
        Some(unsigned_value(b) as u64)
    }
}

/// The digits of `n` in base 256, most significant first, none for zero.
pub open spec fn be_digits(n: nat) -> Seq<u8>
    decreases n,
{
    if n == 0 {
        Seq::empty()
    } else {
        be_digits(n / 256).push((n % 256) as u8)
    }
}

/// The atom that holds the non-negative number `n`: its digits, behind a
/// zero byte where the first digit would make it read as negative.
pub open spec fn int_bytes(n: nat) -> Seq<u8> {
    let d = be_digits(n);
    if d.len() > 0 && d[0] >= 0x80 {
        seq![0u8] + d
    } else {
        d
    }
}

/// A number is at least the number that any prefix of its bytes writes.
pub proof fn lemma_prefix_value(b: Seq<u8>, k: int)
    requires
        0 <= k <= b.len(),
    ensures
        unsigned_value(b.subrange(0, k)) <= unsigned_value(b),
    decreases b.len(),
{
    if k == b.len() {
        assert(b.subrange(0, k) =~= b);
    } else {
        assert(b.drop_last().subrange(0, k) =~= b.subrange(0, k));
        lemma_prefix_value(b.drop_last(), k);
        assert(unsigned_value(b.drop_last()) * 256 >= unsigned_value(b.drop_last())) by (nonlinear_arith);
    }
}

/// Reads an atom as an amount.
pub fn atom_to_u64(bytes: &Vec<u8>) -> (r: Option<u64>)
    ensures
        r == amount_of(bytes@),
{
    if bytes.len() > 0 && bytes[0] >= 0x80 {
        return None;
    }
    let mut acc: u64 = 0;
    let mut i: usize = 0;
    while i < bytes.len()
        invariant
            i <= bytes@.len(),
            acc == unsigned_value(bytes@.subrange(0, i as int)),
        decreases bytes@.len() - i,
    {
        let d: u64 = bytes[i] as u64;
        proof {
            assert(bytes@.subrange(0, i + 1).drop_last() =~= bytes@.subrange(0, i as int));
            lemma_prefix_value(bytes@, i + 1);
        }
        if acc > (u64::MAX - d) / 256 {
            return None;
        }
        acc = acc * 256 + d;
        i += 1;
    }
    assert(bytes@.subrange(0, i as int) =~= bytes@);
    Some(acc)
}

fn write_digits(n: u64, out: &mut Vec<u8>)
    ensures
        final(out)@ == old(out)@ + be_digits(n as nat),
    decreases n,
{
    if n != 0 {
        write_digits(n / 256, out);
        out.push((n % 256) as u8);
    }
    assert(out@ =~= old(out)@ + be_digits(n as nat));
}

/// Writes an amount as an atom.
pub fn u64_to_atom(n: u64) -> (r: Vec<u8>)
    ensures
        r@ == int_bytes(n as nat),
{
    let mut digits: Vec<u8> = Vec::new();
    write_digits(n, &mut digits);
    assert(digits@ =~= be_digits(n as nat));
    if digits.len() > 0 && digits[0] >= 0x80 {
        let mut out: Vec<u8> = Vec::new();
        out.push(0u8);
        out.extend_from_slice(digits.as_slice());
        assert(out@ =~= seq![0u8] + digits@);
        out
    } else {
        digits
    }
}

/// The digits of a number write that number.
pub proof fn lemma_digits_value(n: nat)
    ensures
        unsigned_value(be_digits(n)) == n,
    decreases n,
{
    if n != 0 {
        lemma_digits_value(n / 256);
        assert(be_digits(n).drop_last() =~= be_digits(n / 256));
    }
}

/// A zero byte in front does not change the number.
pub proof fn lemma_leading_zero(b: Seq<u8>)
    ensures
        unsigned_value(seq![0u8] + b) == unsigned_value(b),
    decreases b.len(),
{
    reveal_with_fuel(unsigned_value, 2);
    if b.len() == 0 {
        assert((seq![0u8] + b).drop_last() =~= Seq::<u8>::empty());
    } else {
        assert((seq![0u8] + b).drop_last() =~= seq![0u8] + b.drop_last());
        lemma_leading_zero(b.drop_last());
    }
}

/// The first digit of a positive number is not zero.
pub proof fn lemma_digits_minimal(n: nat)
    ensures
        n > 0 ==> be_digits(n).len() > 0 && be_digits(n)[0] != 0,
    decreases n,
{
    if n != 0 {
        lemma_digits_minimal(n / 256);
        if n / 256 == 0 {
            assert(be_digits(n / 256).len() == 0);
            assert(be_digits(n)[0] == (n % 256) as u8);
            assert(n % 256 == n);
        } else {
            assert(be_digits(n)[0] == be_digits(n / 256)[0]);
        }
    }
}

/// Round trip of amounts: the atom written for an amount reads as that
/// amount.
pub proof fn lemma_amount_round_trip(n: u64)
    ensures
        amount_of(int_bytes(n as nat)) == Some(n),
{
    lemma_digits_value(n as nat);
    lemma_leading_zero(be_digits(n as nat));
}

} // verus!
