//! The canonical byte encoding of trees.

use vstd::prelude::*;
use crate::sexp::{SExp, Tree, pair_of};

verus! {

/// Why a byte stream is not the encoding of exactly one tree, or why a tree
/// has no encoding.
#[derive(Debug, Clone, Copy, PartialEq, Eq, Structural)]
pub enum CodecError {
    /// The stream ends where a lead byte or a length byte is expected.
    TruncatedInput,
    /// Bytes remain after one complete tree.
    TrailingBytes,
    /// An atom's length cannot be written in four bytes, or a length read
    /// from the stream asks for more bytes than remain.
    OversizedAtomLength,
}

/// The longest atom that has an encoding.
pub open spec fn max_atom_len() -> nat {
    0xFFFF_FFFF
}

/// The length prefix of an atom of `n` bytes, for `0 < n <= max_atom_len()`.
pub open spec fn length_prefix(n: nat) -> Seq<u8> {
    if n <= 0x3F {
        seq![(0x80 + n) as u8]
    } else if n <= 0x1FFF {
        seq![(0xC0 + n / 0x100) as u8, (n % 0x100) as u8]
    } else if n <= 0xF_FFFF {
        seq![(0xE0 + n / 0x1_0000) as u8, (n / 0x100 % 0x100) as u8, (n % 0x100) as u8]
    } else if n <= 0x7FF_FFFF {
        seq![
            (0xF0 + n / 0x100_0000) as u8,
            (n / 0x1_0000 % 0x100) as u8,
            (n / 0x100 % 0x100) as u8,
            (n % 0x100) as u8,
        ]
    } else {
        seq![
            0xF8u8,
            (n / 0x100_0000 % 0x100) as u8,
            (n / 0x1_0000 % 0x100) as u8,
            (n / 0x100 % 0x100) as u8,
            (n % 0x100) as u8,
        ]
    }
}

/// The encoding of an atom.
pub open spec fn encode_atom(b: Seq<u8>) -> Seq<u8> {
    if b.len() == 0 {
        seq![0x80u8]
    } else if b.len() == 1 && b[0] < 0x80 {
        b
    } else {
        length_prefix(b.len()) + b
    }
}

/// The encoding of a tree: an atom by its size class, a pair as `0xFF`
/// followed by its two children.
pub open spec fn encode(t: Tree) -> Seq<u8>
    decreases t,
{
    match t {
        Tree::Atom(b) => encode_atom(b),
        Tree::Pair(f, r) => seq![0xFFu8] + encode(*f) + encode(*r),
    }
}

/// Whether every atom of `t` is short enough to be encoded.
pub open spec fn encodable(t: Tree) -> bool
    decreases t,
{
    match t {
        Tree::Atom(b) => b.len() <= max_atom_len(),
        Tree::Pair(f, r) => encodable(*f) && encodable(*r),
    }
}

/// The number of bytes, lead byte included, that come before an atom's
/// content when its lead byte is `lead`, for `0x80 <= lead <= 0xF8`.
pub open spec fn header_size(lead: u8) -> nat {
    if lead < 0xC0 {
        1
    } else if lead < 0xE0 {
        2
    } else if lead < 0xF0 {
        3
    } else if lead < 0xF8 {
        4
    } else {
        5
    }
}

/// The content length that the header at the start of `s` declares.
pub open spec fn declared_length(s: Seq<u8>) -> nat
    recommends
        s.len() >= 1,
        0x80 <= s[0] <= 0xF8,
        s.len() >= header_size(s[0]),
{
    let b = s[0] as nat;
    if b < 0xC0 {
        (b - 0x80) as nat
    } else if b < 0xE0 {
        ((b - 0xC0) * 0x100 + s[1] as nat) as nat
    } else if b < 0xF0 {
        ((b - 0xE0) * 0x1_0000 + (s[1] as nat) * 0x100 + s[2] as nat) as nat
    } else if b < 0xF8 {
        ((b - 0xF0) * 0x100_0000 + (s[1] as nat) * 0x1_0000 + (s[2] as nat) * 0x100
            + s[3] as nat) as nat
    } else {
        (s[1] as nat) * 0x100_0000 + (s[2] as nat) * 0x1_0000 + (s[3] as nat) * 0x100
            + s[4] as nat
    }
}

/// Reads one atom from the start of a non-empty `s` whose first byte is not
/// `0xFF`, and gives the atom with the bytes that follow it.
pub open spec fn parse_atom(s: Seq<u8>) -> Result<(Tree, Seq<u8>), CodecError>
    recommends
        s.len() >= 1,
        s[0] != 0xFF,
{
    let b = s[0];
    if b < 0x80 {
        Ok((Tree::Atom(seq![b]), s.skip(1)))
    } else if b > 0xF8 {
        Err(CodecError::OversizedAtomLength)
    } else if s.len() < header_size(b) {
        Err(CodecError::TruncatedInput)
    } else if s.len() - header_size(b) < declared_length(s) {
        Err(CodecError::OversizedAtomLength)
    } else {
        let h = header_size(b) as int;
        let n = declared_length(s) as int;
        Ok((Tree::Atom(s.subrange(h, h + n)), s.skip(h + n)))
    }
}

/// Reads one tree from the start of `s` and gives it with the bytes that
/// follow it. The test on the length of what follows the first child only
/// shows that the recursion ends: `lemma_parse_consumes` proves that it
/// never fails.
pub open spec fn parse(s: Seq<u8>) -> Result<(Tree, Seq<u8>), CodecError>
    decreases s.len(),
{
    if s.len() == 0 {
        Err(CodecError::TruncatedInput)
    } else if s[0] == 0xFF {
        match parse(s.skip(1)) {
            Err(e) => Err(e),
            Ok((first, after_first)) => {
                if after_first.len() >= s.len() {
                    Err(CodecError::TruncatedInput)
                } else {
                    match parse(after_first) {
                        Err(e) => Err(e),
                        Ok((rest, after)) => Ok((pair_of(first, rest), after)),
                    }
                }
            },
        }
    } else {
        parse_atom(s)
    }
}

/// What a whole stream decodes to: the one tree it holds, or the reason why
/// it holds none.
pub open spec fn decode(s: Seq<u8>) -> Result<Tree, CodecError> {
    match parse(s) {
        Err(e) => Err(e),
        Ok((t, after)) => if after.len() == 0 {
            Ok(t)
        } else {
            Err(CodecError::TrailingBytes)
        },
    }
}

/// A successful read consumes at least one byte and leaves a suffix of its
/// input.
pub proof fn lemma_parse_consumes(s: Seq<u8>)
    ensures
        parse(s) is Ok ==> parse(s).unwrap().1.len() < s.len() && parse(s).unwrap().1
            == s.skip(s.len() - parse(s).unwrap().1.len()),
    decreases s.len(),
{
    if s.len() > 0 && s[0] == 0xFF {
        let s1 = s.skip(1);
        lemma_parse_consumes(s1);
        if let Ok((first, after_first)) = parse(s1) {
            lemma_parse_consumes(after_first);
            if let Ok((rest, after)) = parse(after_first) {
                let k1 = s1.len() - after_first.len();
                let k2 = after_first.len() - after.len();
                assert(after =~= s.skip(s.len() - after.len()));
            }
        }
    } else if s.len() > 0 {
        if let Ok((t, after)) = parse_atom(s) {
            assert(after =~= s.skip(s.len() - after.len()));
        }
    }
}

fn write_length_prefix(n: usize, out: &mut Vec<u8>)
    requires
        0 < n <= 0xFFFF_FFFF,
    ensures
        final(out)@ == old(out)@ + length_prefix(n as nat),
{
    if n <= 0x3F {
        out.push((0x80 + n) as u8);
        assert(final(out)@ =~= old(out)@ + length_prefix(n as nat));
    } else if n <= 0x1FFF {
        out.push((0xC0 + n / 0x100) as u8);
        out.push((n % 0x100) as u8);
        assert(out@ =~= old(out)@ + length_prefix(n as nat));
    } else if n <= 0xF_FFFF {
        out.push((0xE0 + n / 0x1_0000) as u8);
        out.push((n / 0x100 % 0x100) as u8);
        out.push((n % 0x100) as u8);
        assert(out@ =~= old(out)@ + length_prefix(n as nat));
    } else if n <= 0x7FF_FFFF {
        out.push((0xF0 + n / 0x100_0000) as u8);
        out.push((n / 0x1_0000 % 0x100) as u8);
        out.push((n / 0x100 % 0x100) as u8);
        out.push((n % 0x100) as u8);
        assert(out@ =~= old(out)@ + length_prefix(n as nat));
    } else {
        out.push(0xF8u8);
        out.push((n / 0x100_0000 % 0x100) as u8);
        out.push((n / 0x1_0000 % 0x100) as u8);
        out.push((n / 0x100 % 0x100) as u8);
        out.push((n % 0x100) as u8);
        assert(out@ =~= old(out)@ + length_prefix(n as nat));
    }
}

fn write_tree(t: &SExp, out: &mut Vec<u8>) -> (r: Result<(), CodecError>)
    ensures
        encodable(t@) ==> r is Ok && final(out)@ == old(out)@ + encode(t@),
        !encodable(t@) ==> r == Err::<(), CodecError>(CodecError::OversizedAtomLength),
    decreases t,
{
    match t {
        SExp::Atom(b) => {
            if b.len() == 0 {
                out.push(0x80u8);
                assert(out@ =~= old(out)@ + encode(t@));
                Ok(())
            } else if b.len() == 1 && b[0] < 0x80 {
                out.push(b[0]);
                assert(out@ =~= old(out)@ + encode(t@));
                Ok(())
            } else if b.len() > 0xFFFF_FFFF {
                Err(CodecError::OversizedAtomLength)
            } else {
                write_length_prefix(b.len(), out);
                out.extend_from_slice(b.as_slice());
                assert(out@ =~= old(out)@ + encode(t@));
                Ok(())
            }
        },
        SExp::Pair(f, r) => {
            out.push(0xFFu8);
            match write_tree(f, out) {
                Err(e) => Err(e),
                Ok(()) => {
                    let res = write_tree(r, out);
                    proof {
                        if encodable(r@) {
                            assert(out@ =~= old(out)@ + encode(t@));
                        }
                    }
                    res
                },
            }
        },
    }
}

/// Encodes a tree. It fails only where an atom is longer than
/// `max_atom_len()`.
pub fn sexp_to_bytes(t: &SExp) -> (r: Result<Vec<u8>, CodecError>)
    ensures
        encodable(t@) ==> r is Ok && r.unwrap()@ == encode(t@),
        !encodable(t@) ==> r == Err::<Vec<u8>, CodecError>(CodecError::OversizedAtomLength),
{
    let mut out: Vec<u8> = Vec::new();
    match write_tree(t, &mut out) {
        Ok(()) => {
            assert(out@ =~= encode(t@));
            Ok(out)
        },
        Err(e) => Err(e),
    }
}

fn copy_range(bytes: &Vec<u8>, start: usize, end: usize) -> (r: Vec<u8>)
    requires
        start <= end <= bytes@.len(),
    ensures
        r@ == bytes@.subrange(start as int, end as int),
{
    let mut out: Vec<u8> = Vec::new();
    let mut i: usize = start;
    while i < end
        invariant
            start <= i <= end <= bytes@.len(),
            out@ == bytes@.subrange(start as int, i as int),
        decreases end - i,
    {
        out.push(bytes[i]);
        assert(out@ =~= bytes@.subrange(start as int, i + 1));
        i += 1;
    }
    out
}

fn read_atom(bytes: &Vec<u8>, pos: usize) -> (r: Result<(SExp, usize), CodecError>)
    requires
        pos < bytes@.len(),
        bytes@[pos as int] != 0xFF,
    ensures
        match parse_atom(bytes@.skip(pos as int)) {
            Ok((t, after)) => r is Ok && r.unwrap().0@ == t && pos < r.unwrap().1 <= bytes@.len()
                && after == bytes@.skip(r.unwrap().1 as int),
            Err(e) => r is Err && r.unwrap_err() == e,
        },
{
    let ghost s = bytes@.skip(pos as int);
    let avail: usize = bytes.len() - pos;
    let b: u8 = bytes[pos];
    if b < 0x80 {
        let mut v: Vec<u8> = Vec::new();
        v.push(b);
        assert(v@ =~= seq![b]);
        assert(s.skip(1) =~= bytes@.skip(pos + 1));
        return Ok((SExp::atom(v), pos + 1));
    }
    if b > 0xF8 {
        return Err(CodecError::OversizedAtomLength);
    }
    let h: usize = if b < 0xC0 {
        1
    } else if b < 0xE0 {
        2
    } else if b < 0xF0 {
        3
    } else if b < 0xF8 {
        4
    } else {
        5
    };
    if avail < h {
        return Err(CodecError::TruncatedInput);
    }
    let n: u64 = if b < 0xC0 {
        (b - 0x80) as u64
    } else if b < 0xE0 {
        (b - 0xC0) as u64 * 0x100 + bytes[pos + 1] as u64
    } else if b < 0xF0 {
        (b - 0xE0) as u64 * 0x1_0000 + bytes[pos + 1] as u64 * 0x100 + bytes[pos + 2] as u64
    } else if b < 0xF8 {
        (b - 0xF0) as u64 * 0x100_0000 + bytes[pos + 1] as u64 * 0x1_0000 + bytes[pos + 2] as u64
            * 0x100 + bytes[pos + 3] as u64
    } else {
        bytes[pos + 1] as u64 * 0x100_0000 + bytes[pos + 2] as u64 * 0x1_0000 + bytes[pos
            + 3] as u64 * 0x100 + bytes[pos + 4] as u64
    };
    assert(n == declared_length(s));
    if ((avail - h) as u64) < n {
        return Err(CodecError::OversizedAtomLength);
    }
    let start: usize = pos + h;
    let end: usize = start + n as usize;
    let v = copy_range(bytes, start, end);
    assert(v@ =~= s.subrange(h as int, h + n));
    assert(s.skip(h + n) =~= bytes@.skip(end as int));
    Ok((SExp::atom(v), end))
}

fn read_tree(bytes: &Vec<u8>, pos: usize) -> (r: Result<(SExp, usize), CodecError>)
    requires
        pos <= bytes@.len(),
    ensures
        match parse(bytes@.skip(pos as int)) {
            Ok((t, after)) => r is Ok && r.unwrap().0@ == t && pos < r.unwrap().1 <= bytes@.len()
                && after == bytes@.skip(r.unwrap().1 as int),
            Err(e) => r is Err && r.unwrap_err() == e,
        },
    decreases bytes@.len() - pos,
{
    let ghost s = bytes@.skip(pos as int);
    if pos >= bytes.len() {
        return Err(CodecError::TruncatedInput);
    }
    if bytes[pos] != 0xFF {
        return read_atom(bytes, pos);
    }
    assert(s.skip(1) =~= bytes@.skip(pos + 1));
    match read_tree(bytes, pos + 1) {
        Err(e) => Err(e),
        Ok((first, mid)) => {
            match read_tree(bytes, mid) {
                Err(e) => Err(e),
                Ok((rest, end)) => Ok((SExp::pair(first, rest), end)),
            }
        },
    }
}

/// Decodes a stream that holds exactly one tree.
pub fn sexp_from_bytes(bytes: &Vec<u8>) -> (r: Result<SExp, CodecError>)
    ensures
        match decode(bytes@) {
            Ok(t) => r is Ok && r.unwrap()@ == t,
            Err(e) => r is Err && r.unwrap_err() == e,
        },
{
    assert(bytes@.skip(0) =~= bytes@);
    match read_tree(bytes, 0) {
        Err(e) => Err(e),
        Ok((t, end)) => {
            if end == bytes.len() {
                Ok(t)
            } else {
                Err(CodecError::TrailingBytes)
            }
        },
    }
}

/// The header that `length_prefix` writes declares the length it was
/// written for.
pub proof fn lemma_prefix_declares(n: nat, rest: Seq<u8>)
    requires
        0 < n <= max_atom_len(),
    ensures
        0x80 <= (length_prefix(n) + rest)[0] <= 0xF8,
        header_size((length_prefix(n) + rest)[0]) == length_prefix(n).len(),
        declared_length(length_prefix(n) + rest) == n,
{
    let p = length_prefix(n);
    let s = p + rest;
    if n <= 0x3F {
        assert(s[0] == p[0]);
        assert(p[0] == 0x80 + n);
    } else if n <= 0x1FFF {
        let a = n / 0x100;
        let c = n % 0x100;
        assert(a <= 0x1F && a * 0x100 + c == n);
        assert(s[0] == p[0] && s[1] == p[1]);
        assert(p[0] == 0xC0 + a && p[1] == c);
    } else if n <= 0xF_FFFF {
        let a = n / 0x1_0000;
        let c = n / 0x100 % 0x100;
        let d = n % 0x100;
        assert(a <= 0xF && a * 0x1_0000 + c * 0x100 + d == n);
        assert(s[0] == p[0] && s[1] == p[1] && s[2] == p[2]);
        assert(p[0] == 0xE0 + a && p[1] == c && p[2] == d);
    } else if n <= 0x7FF_FFFF {
        let a = n / 0x100_0000;
        let c = n / 0x1_0000 % 0x100;
        let d = n / 0x100 % 0x100;
        let e = n % 0x100;
        assert(a <= 0x7 && a * 0x100_0000 + c * 0x1_0000 + d * 0x100 + e == n);
        assert(s[0] == p[0] && s[1] == p[1] && s[2] == p[2] && s[3] == p[3]);
        assert(p[0] == 0xF0 + a && p[1] == c && p[2] == d && p[3] == e);
    } else {
        let a = n / 0x100_0000 % 0x100;
        let c = n / 0x1_0000 % 0x100;
        let d = n / 0x100 % 0x100;
        let e = n % 0x100;
        assert(a * 0x100_0000 + c * 0x1_0000 + d * 0x100 + e == n);
        assert(s[0] == p[0] && s[1] == p[1] && s[2] == p[2] && s[3] == p[3] && s[4] == p[4]);
        assert(p[0] == 0xF8 && p[1] == a && p[2] == c && p[3] == d && p[4] == e);
    }
}

/// Reading the encoding of an atom, whatever follows it, gives the atom and
/// what follows.
pub proof fn lemma_parse_encoded_atom(b: Seq<u8>, tail: Seq<u8>)
    requires
        b.len() <= max_atom_len(),
    ensures
        parse(encode_atom(b) + tail) == Ok::<(Tree, Seq<u8>), CodecError>((Tree::Atom(b), tail)),
{
    let s = encode_atom(b) + tail;
    if b.len() == 0 {
        assert(s.subrange(1, 1) =~= b);
        assert(s.skip(1) =~= tail);
    } else if b.len() == 1 && b[0] < 0x80 {
        assert(seq![s[0]] =~= b);
        assert(s.skip(1) =~= tail);
    } else {
        let n = b.len();
        let p = length_prefix(n);
        let h = p.len() as int;
        lemma_prefix_declares(n, b + tail);
        assert(s =~= p + (b + tail));
        assert(s.subrange(h, h + n) =~= b);
        assert(s.skip(h + n) =~= tail);
    }
}

/// Reading the encoding of a tree, whatever follows it, gives the tree and
/// what follows.
pub proof fn lemma_parse_encoded(t: Tree, tail: Seq<u8>)
    requires
        encodable(t),
    ensures
        parse(encode(t) + tail) == Ok::<(Tree, Seq<u8>), CodecError>((t, tail)),
    decreases t,
{
    match t {
        Tree::Atom(b) => {
            lemma_parse_encoded_atom(b, tail);
        },
        Tree::Pair(f, r) => {
            let s = encode(t) + tail;
            assert(s[0] == 0xFF);
            assert(s.skip(1) =~= encode(*f) + (encode(*r) + tail));
            lemma_parse_encoded(*f, encode(*r) + tail);
            lemma_parse_encoded(*r, tail);
            lemma_parse_consumes(s.skip(1));
        },
    }
}

/// Round trip: every tree that has an encoding is what its encoding
/// decodes to.
pub proof fn lemma_decode_encode(t: Tree)
    requires
        encodable(t),
    ensures
        decode(encode(t)) == Ok::<Tree, CodecError>(t),
{
    lemma_parse_encoded(t, Seq::empty());
    assert(encode(t) + Seq::<u8>::empty() =~= encode(t));
}

/// Two trees with the same encoding are the same tree: structural equality
/// is equality of the encoded bytes.
pub proof fn lemma_encode_injective(a: Tree, b: Tree)
    requires
        encodable(a),
        encodable(b),
        encode(a) == encode(b),
    ensures
        a == b,
{
    lemma_decode_encode(a);
    lemma_decode_encode(b);
}

/// Every tree that is read from a stream has an encoding.
pub proof fn lemma_parsed_is_encodable(s: Seq<u8>)
    ensures
        parse(s) is Ok ==> encodable(parse(s).unwrap().0),
    decreases s.len(),
{
    if s.len() > 0 && s[0] == 0xFF {
        let s1 = s.skip(1);
        lemma_parsed_is_encodable(s1);
        if let Ok((first, after_first)) = parse(s1) {
            if after_first.len() < s.len() {
                lemma_parsed_is_encodable(after_first);
            }
        }
    }
}

} // verus!
