//! Currying a program with fixed arguments, and taking a curried program
//! apart again.

use vstd::prelude::*;
use crate::sexp::{SExp, Tree, ShapeError, atom_of, pair_of, nil, size, atom_bytes, trees_of};
use crate::bindings::Bindings;
use crate::codec::{
    CodecError, decode, encode, encode_atom, encodable, max_atom_len, lemma_parsed_is_encodable,
};
use crate::program::SerializedProgram;
use crate::matching::{matched, match_sexp, is_single, capture_of, marker, unify};

verus! {

/// The name under which the inner program is captured.
pub open spec fn name_function() -> Seq<u8> {
    seq![0x66u8, 0x75u8, 0x6Eu8, 0x63u8, 0x74u8, 0x69u8, 0x6Fu8, 0x6Eu8]
}

/// The name under which the rest of the argument chain is captured.
pub open spec fn name_core() -> Seq<u8> {
    seq![0x63u8, 0x6Fu8, 0x72u8, 0x65u8]
}

/// The name under which one fixed argument is captured.
pub open spec fn name_parm() -> Seq<u8> {
    seq![0x70u8, 0x61u8, 0x72u8, 0x6Du8]
}

/// The opcode atom `q` (quote) is 1, `a` (apply) is 2 and `c` (cons) is 4.
pub open spec fn op(code: u8) -> Tree {
    atom_of(seq![code])
}

/// The proper list of three trees.
pub open spec fn list3(a: Tree, b: Tree, c: Tree) -> Tree {
    pair_of(a, pair_of(b, pair_of(c, nil())))
}

/// `(code (q . x) y)`: the operator `code` applied to the quoted `x` and to
/// `y`.
pub open spec fn combine(code: u8, x: Tree, y: Tree) -> Tree {
    list3(op(code), pair_of(op(1), x), y)
}

/// The `x` and `y` of a tree of the shape `combine(code, x, y)`.
pub open spec fn split(t: Tree, code: u8) -> Option<(Tree, Tree)> {
    match t {
        Tree::Pair(h, tl) => match *tl {
            Tree::Pair(qd, tl2) => match (*qd, *tl2) {
                (Tree::Pair(q, x), Tree::Pair(y, end)) => {
                    if *h == op(code) && *q == op(1) && *end == nil() {
                        Some((*x, *y))
                    } else {
                        None
                    }
                },
                _ => None,
            },
            _ => None,
        },
        _ => None,
    }
}

/// The pattern `(code (q . (: . name)) (: . core))`.
pub open spec fn pattern_of(code: u8, name: Seq<u8>) -> Tree {
    combine(code, pair_of(atom_of(marker(false)), atom_of(name)), pair_of(
        atom_of(marker(false)),
        atom_of(name_core()),
    ))
}

/// The pattern of a curried program: `(a (q . (: . function)) (: . core))`.
pub open spec fn function_pattern() -> Tree {
    pattern_of(2, name_function())
}

/// The pattern of one link of the argument chain:
/// `(c (q . (: . parm)) (: . core))`.
pub open spec fn core_pattern() -> Tree {
    pattern_of(4, name_parm())
}

/// The argument chain: each argument quoted and consed in front of the rest,
/// the atom 1 at the end.
pub open spec fn arg_chain(args: Seq<Tree>) -> Tree
    decreases args.len(),
{
    if args.len() == 0 {
        op(1)
    } else {
        combine(4, args[0], arg_chain(args.skip(1)))
    }
}

/// The program that applies `f` to the fixed `args` in front of its
/// environment.
pub open spec fn curried(f: Tree, args: Seq<Tree>) -> Tree {
    combine(2, f, arg_chain(args))
}

/// The parts of a split tree are smaller than the tree.
pub proof fn lemma_split_smaller(t: Tree, code: u8)
    ensures
        split(t, code) is Some ==> size(split(t, code).unwrap().0) < size(t) && size(
            split(t, code).unwrap().1,
        ) < size(t),
{
    reveal_with_fuel(size, 4);
}

/// The arguments at the head of a chain, in order.
pub open spec fn chain_args(core: Tree) -> Seq<Tree>
    decreases size(core),
{
    match split(core, 4) {
        Some((parm, next)) => {
            if size(next) < size(core) {
                seq![parm] + chain_args(next)
            } else {
                Seq::empty()
            }
        },
        None => Seq::empty(),
    }
}

/// What is left of a chain behind its arguments.
pub open spec fn chain_end(core: Tree) -> Tree
    decreases size(core),
{
    match split(core, 4) {
        Some((parm, next)) => {
            if size(next) < size(core) {
                chain_end(next)
            } else {
                core
            }
        },
        None => core,
    }
}

/// Whether every tree of `s` is an atom.
pub open spec fn all_atoms(s: Seq<Tree>) -> bool {
    forall|i: int| 0 <= i < s.len() ==> s[i] is Atom
}

/// The bytes of the atoms of `s`, one after the other.
pub open spec fn concat_bytes(s: Seq<Tree>) -> Seq<u8>
    decreases s.len(),
{
    if s.len() == 0 {
        Seq::empty()
    } else {
        atom_bytes(s[0]) + concat_bytes(s.skip(1))
    }
}

/// What a program is curried from: the inner program and the bytes of its
/// fixed arguments, where the program has the shape `(a (q . f) chain)`, the
/// chain ends in the atom 1 and every argument is an atom.
pub open spec fn uncurried(t: Tree) -> Option<(Tree, Seq<u8>)> {
    match split(t, 2) {
        None => None,
        Some((f, core)) => {
            if chain_end(core) == op(1) && all_atoms(chain_args(core)) {
                Some((f, concat_bytes(chain_args(core))))
            } else {
                None
            }
        },
    }
}

/// Adding a tree at the end of a sequence adds its bytes at the end.
pub proof fn lemma_concat_push(s: Seq<Tree>, t: Tree)
    ensures
        concat_bytes(s.push(t)) == concat_bytes(s) + atom_bytes(t),
    decreases s.len(),
{
    reveal_with_fuel(concat_bytes, 3);
    if s.len() == 0 {
        assert(s.push(t).skip(1) =~= Seq::<Tree>::empty());
        assert(concat_bytes(s.push(t)) =~= concat_bytes(s) + atom_bytes(t));
    } else {
        assert(s.push(t).skip(1) =~= s.skip(1).push(t));
        lemma_concat_push(s.skip(1), t);
        assert(concat_bytes(s.push(t)) =~= concat_bytes(s) + atom_bytes(t));
    }
}

/// Joins atoms into one atom that holds their bytes in order. A pair among
/// them is an error.
pub fn concat(sexps: &Vec<SExp>) -> (r: Result<SExp, ShapeError>)
    ensures
        all_atoms(trees_of(sexps@)) ==> r is Ok && r.unwrap()@ == atom_of(
            concat_bytes(trees_of(sexps@)),
        ),
        !all_atoms(trees_of(sexps@)) ==> r == Err::<SExp, ShapeError>(ShapeError::UnexpectedShape),
{
    let mut buf: Vec<u8> = Vec::new();
    let mut i: usize = 0;
    let ghost trees = trees_of(sexps@);
    while i < sexps.len()
        invariant
            i <= sexps@.len(),
            trees == trees_of(sexps@),
            all_atoms(trees.subrange(0, i as int)),
            buf@ == concat_bytes(trees.subrange(0, i as int)),
        decreases sexps@.len() - i,
    {
        match &sexps[i] {
            SExp::Atom(a) => {
                buf.extend_from_slice(a.as_slice());
                proof {
                    lemma_concat_push(trees.subrange(0, i as int), trees[i as int]);
                    assert(trees.subrange(0, i + 1) =~= trees.subrange(0, i as int).push(
                        trees[i as int],
                    ));
                }
            },
            SExp::Pair(_, _) => {
                assert(!(trees[i as int] is Atom));
                return Err(ShapeError::UnexpectedShape);
            },
        }
        i += 1;
    }
    assert(trees.subrange(0, i as int) =~= trees);
    Ok(SExp::atom(buf))
}

/// The pair of copies of two trees.
pub fn cons(first: &SExp, other: &SExp) -> (r: SExp)
    ensures
        r@ == pair_of(first@, other@),
{
    SExp::pair(first.duplicate(), other.duplicate())
}

fn op_atom(code: u8) -> (r: SExp)
    ensures
        r@ == op(code),
{
    let mut v: Vec<u8> = Vec::new();
    v.push(code);
    assert(v@ =~= seq![code]);
    SExp::atom(v)
}

fn combine_trees(code: u8, x: SExp, y: SExp) -> (r: SExp)
    ensures
        r@ == combine(code, x@, y@),
{
    SExp::pair(op_atom(code), SExp::pair(SExp::pair(op_atom(1), x), SExp::pair(y, SExp::null())))
}

/// Builds the argument chain of `args`, from the last argument to the first.
pub fn make_args(args: &Vec<SExp>) -> (r: SExp)
    ensures
        r@ == arg_chain(trees_of(args@)),
{
    let ghost trees = trees_of(args@);
    let mut cur = op_atom(1);
    let mut i: usize = args.len();
    assert(trees.skip(i as int) =~= Seq::<Tree>::empty());
    while i > 0
        invariant
            i <= args@.len(),
            trees == trees_of(args@),
            cur@ == arg_chain(trees.skip(i as int)),
        decreases i,
    {
        i -= 1;
        assert(trees.skip(i as int).skip(1) =~= trees.skip(i + 1));
        cur = combine_trees(4, args[i].duplicate(), cur);
    }
    assert(trees.skip(0) =~= trees);
    cur
}

/// Curries `program` with `args`.
pub fn curry(program: &SExp, args: &Vec<SExp>) -> (r: SExp)
    ensures
        r@ == curried(program@, trees_of(args@)),
{
    let chain = make_args(args);
    combine_trees(2, program.duplicate(), chain)
}

fn capture_any(name: Vec<u8>) -> (r: SExp)
    ensures
        r@ == pair_of(atom_of(marker(false)), atom_of(name@)),
{
    SExp::pair(op_atom(0x3Au8), SExp::atom(name))
}

fn core_name() -> (r: Vec<u8>)
    ensures
        r@ == name_core(),
{
    let v: Vec<u8> = vec![0x63u8, 0x6Fu8, 0x72u8, 0x65u8];
    assert(v@ =~= name_core());
    v
}

fn function_name() -> (r: Vec<u8>)
    ensures
        r@ == name_function(),
{
    let v: Vec<u8> = vec![0x66u8, 0x75u8, 0x6Eu8, 0x63u8, 0x74u8, 0x69u8, 0x6Fu8, 0x6Eu8];
    assert(v@ =~= name_function());
    v
}

fn parm_name() -> (r: Vec<u8>)
    ensures
        r@ == name_parm(),
{
    let v: Vec<u8> = vec![0x70u8, 0x61u8, 0x72u8, 0x6Du8];
    assert(v@ =~= name_parm());
    v
}

/// The pattern that a curried program matches.
pub fn uncurry_pattern_function() -> (r: SExp)
    ensures
        r@ == function_pattern(),
{
    combine_trees(2, capture_any(function_name()), capture_any(core_name()))
}

/// The pattern that one link of the argument chain matches.
pub fn uncurry_pattern_core() -> (r: SExp)
    ensures
        r@ == core_pattern(),
{
    combine_trees(4, capture_any(parm_name()), capture_any(core_name()))
}

/// Matching `pattern_of(code, name)` from the empty table succeeds exactly
/// on the trees of the shape `combine(code, x, y)`, and binds `name` to `x`
/// and the chain's name to `y`.
pub proof fn lemma_pattern_splits(code: u8, name: Seq<u8>, t: Tree)
    requires
        name != marker(false),
        name != name_core(),
    ensures
        matched(pattern_of(code, name), t, Map::empty()) == match split(t, code) {
            Some((x, y)) => Some(Map::<Seq<u8>, Tree>::empty().insert(name, x).insert(name_core(), y)),
            None => None,
        },
{
    let empty = Map::<Seq<u8>, Tree>::empty();
    let cap_x = pair_of(atom_of(marker(false)), atom_of(name));
    let cap_y = pair_of(atom_of(marker(false)), atom_of(name_core()));
    let quoted = pair_of(op(1), cap_x);
    let tail2 = pair_of(cap_y, nil());
    let tail = pair_of(quoted, tail2);
    let pattern = pair_of(op(code), tail);
    assert(pattern == pattern_of(code, name));
    assert(name_core().len() == 4);
    assert(marker(false).len() == 1);
    assert(name_core() != marker(false));
    assert(marker(false)[0] == 0x3Au8 && marker(true)[0] == 0x24u8);
    assert(marker(false) != marker(true));
    assert(capture_of(op(code), tail) is None);
    assert(capture_of(quoted, tail2) is None);
    assert(capture_of(op(1), cap_x) is None);
    assert(capture_of(cap_y, nil()) is None);
    assert(capture_of(atom_of(marker(false)), atom_of(name)) == Some((false, name)));
    assert(capture_of(atom_of(marker(false)), atom_of(name_core())) == Some((false, name_core())));
    reveal_with_fuel(matched, 2);
    assert forall|s: Tree, known: Map<Seq<u8>, Tree>| #[trigger]
        matched(cap_x, s, known) == unify(known, name, s) by {}
    assert forall|s: Tree, known: Map<Seq<u8>, Tree>| #[trigger]
        matched(cap_y, s, known) == unify(known, name_core(), s) by {}
    assert forall|s: Tree, known: Map<Seq<u8>, Tree>| #[trigger]
        matched(quoted, s, known) == (match s {
            Tree::Atom(_) => None,
            Tree::Pair(q, x) => if *q == op(1) {
                unify(known, name, *x)
            } else {
                None
            },
        }) by {}
    assert forall|s: Tree, known: Map<Seq<u8>, Tree>| #[trigger]
        matched(tail2, s, known) == (match s {
            Tree::Atom(_) => None,
            Tree::Pair(y, end) => match unify(known, name_core(), *y) {
                None => None,
                Some(m) => if *end == nil() {
                    Some(m)
                } else {
                    None
                },
            },
        }) by {}
    assert forall|s: Tree, known: Map<Seq<u8>, Tree>| #[trigger]
        matched(tail, s, known) == (match s {
            Tree::Atom(_) => None,
            Tree::Pair(qd, tl2) => match matched(quoted, *qd, known) {
                None => None,
                Some(mid) => matched(tail2, *tl2, mid),
            },
        }) by {}
    match t {
        Tree::Atom(_) => {},
        Tree::Pair(h, tl) => {
            if *h == op(code) {
                match *tl {
                    Tree::Atom(_) => {},
                    Tree::Pair(qd, tl2) => {
                        assert(matched(pattern, t, empty) == matched(tail, *tl, empty));
                        match (*qd, *tl2) {
                            (Tree::Pair(q, x), Tree::Pair(y, end)) => {
                                if *q == op(1) {
                                    let mid = empty.insert(name, *x);
                                    assert(matched(quoted, *qd, empty) == Some(mid));
                                    assert(!mid.contains_key(name_core()));
                                    assert(unify(mid, name_core(), *y) == Some(
                                        mid.insert(name_core(), *y),
                                    ));
                                }
                            },
                            _ => {},
                        }
                    },
                }
            }
        },
    }
}

/// Takes a curried program apart: the inner program and one atom that holds
/// the bytes of the fixed arguments in order. A tree of another shape, or
/// one with a pair among its arguments, gives nothing.
pub fn uncurry_tree(t: &SExp) -> (r: Option<(SExp, SExp)>)
    ensures
        match uncurried(t@) {
            Some((f, bytes)) => r is Some && r.unwrap().0@ == f && r.unwrap().1@ == atom_of(bytes),
            None => r is None,
        },
{
    let pattern_func = uncurry_pattern_function();
    let pattern_core = uncurry_pattern_core();
    let fname = function_name();
    let cname = core_name();
    let pname = parm_name();
    proof {
        assert(name_function().len() == 8 && name_core().len() == 4 && name_parm().len() == 4);
        assert(marker(false).len() == 1);
        assert(name_parm()[0] != name_core()[0]);
        lemma_pattern_splits(2, name_function(), t@);
    }
    let found = match match_sexp(&pattern_func, t, Bindings::new()) {
        None => {
            return None;
        },
        Some(b) => b,
    };
    let func = found.get(&fname).unwrap().duplicate();
    let mut core = found.get(&cname).unwrap().duplicate();
    let ghost core0 = core@;
    let mut args: Vec<SExp> = Vec::new();
    proof {
        lemma_pattern_splits(4, name_parm(), core@);
        assert(trees_of(args@) + chain_args(core@) =~= chain_args(core@));
    }
    let mut next = match_sexp(&pattern_core, &core, Bindings::new());
    while next.is_some()
        invariant
            pattern_core@ == core_pattern(),
            pname@ == name_parm(),
            cname@ == name_core(),
            name_parm() != name_core(),
            name_parm() != marker(false),
            chain_args(core0) == trees_of(args@) + chain_args(core@),
            chain_end(core0) == chain_end(core@),
            match split(core@, 4) {
                Some((x, y)) => next is Some && next.unwrap()@ == Map::<Seq<u8>, Tree>::empty().insert(
                    name_parm(),
                    x,
                ).insert(name_core(), y),
                None => next is None,
            },
        decreases size(core@),
    {
        let m = next.unwrap();
        let ghost x = split(core@, 4).unwrap().0;
        let ghost y = split(core@, 4).unwrap().1;
        let ghost before = trees_of(args@);
        proof {
            lemma_split_smaller(core@, 4);
        }
        let parm = m.get(&pname).unwrap().duplicate();
        let new_core = m.get(&cname).unwrap().duplicate();
        args.push(parm);
        proof {
            assert(trees_of(args@) =~= before.push(x));
            assert(chain_args(core@) == seq![x] + chain_args(y));
            assert(before.push(x) + chain_args(y) =~= before + (seq![x] + chain_args(y)));
        }
        core = new_core;
        proof {
            lemma_pattern_splits(4, name_parm(), core@);
        }
        next = match_sexp(&pattern_core, &core, Bindings::new());
    }
    proof {
        assert(trees_of(args@) + Seq::<Tree>::empty() =~= trees_of(args@));
    }
    match &core {
        SExp::Atom(buf) => {
            if is_single(buf, 1u8) {
                match concat(&args) {
                    Ok(joined) => Some((func, joined)),
                    Err(_) => None,
                }
            } else {
                None
            }
        },
        SExp::Pair(_, _) => None,
    }
}

/// Takes an encoded curried program apart, and gives the encodings of the
/// inner program and of the atom that holds the arguments' bytes. Bytes
/// that decode to no tree give the decoder's error; a program that is not
/// curried gives `Ok(None)`; arguments whose bytes together are too long
/// for one atom give `OversizedAtomLength`.
pub fn uncurry(curried_program: &SerializedProgram) -> (r: Result<
    Option<(SerializedProgram, SerializedProgram)>,
    CodecError,
>)
    ensures
        match decode(curried_program@) {
            Err(e) => r matches Err(x) && x == e,
            Ok(t) => match uncurried(t) {
                None => r matches Ok(o) && o is None,
                Some((f, bytes)) => if bytes.len() <= max_atom_len() {
                    r matches Ok(Some(parts)) && parts.0@ == encode(f) && parts.1@ == encode_atom(
                        bytes,
                    )
                } else {
                    r matches Err(x) && x == CodecError::OversizedAtomLength
                },
            },
        },
{
    let tree = match curried_program.to_program() {
        Err(e) => {
            return Err(e);
        },
        Ok(t) => t,
    };
    proof {
        lemma_parsed_is_encodable(curried_program@);
        reveal_with_fuel(encodable, 4);
    }
    match uncurry_tree(&tree) {
        None => Ok(None),
        Some((func, joined)) => {
            let first = match SerializedProgram::from_tree(&func) {
                Err(e) => {
                    return Err(e);
                },
                Ok(p) => p,
            };
            match SerializedProgram::from_tree(&joined) {
                Err(e) => Err(e),
                Ok(second) => Ok(Some((first, second))),
            }
        },
    }
}

/// The chain built from a list of arguments holds those arguments and ends
/// in the atom 1.
pub proof fn lemma_chain_of_args(args: Seq<Tree>)
    ensures
        chain_args(arg_chain(args)) == args,
        chain_end(arg_chain(args)) == op(1),
    decreases args.len(),
{
    if args.len() == 0 {
        assert(split(op(1), 4) is None);
        assert(chain_args(arg_chain(args)) =~= args);
    } else {
        let next = arg_chain(args.skip(1));
        let core = arg_chain(args);
        assert(split(core, 4) == Some((args[0], next)));
        lemma_split_smaller(core, 4);
        lemma_chain_of_args(args.skip(1));
        assert(seq![args[0]] + args.skip(1) =~= args);
    }
}

/// Currying and then uncurrying gives the program and the arguments back:
/// for every program `f` and every list of atoms, the curried program is
/// taken apart into `f` and the bytes of the atoms in order.
pub proof fn lemma_uncurry_curry(f: Tree, args: Seq<Tree>)
    requires
        all_atoms(args),
    ensures
        uncurried(curried(f, args)) == Some((f, concat_bytes(args))),
{
    lemma_chain_of_args(args);
    assert(split(curried(f, args), 2) == Some((f, arg_chain(args))));
}

/// The chain of arguments that have an encoding has one too.
pub proof fn lemma_chain_encodable(args: Seq<Tree>)
    requires
        forall|i: int| 0 <= i < args.len() ==> encodable(#[trigger] args[i]),
    ensures
        encodable(arg_chain(args)),
    decreases args.len(),
{
    reveal_with_fuel(encodable, 5);
    if args.len() > 0 {
        assert forall|i: int| 0 <= i < args.skip(1).len() implies encodable(
            #[trigger] args.skip(1)[i],
        ) by {
            assert(args.skip(1)[i] == args[i + 1]);
        }
        lemma_chain_encodable(args.skip(1));
    }
}

/// The inverse law on bytes: the encoding of a curried program decodes to
/// that program, which is taken apart into the inner program and the bytes
/// of the arguments, for every program and every list of atoms that have an
/// encoding.
pub proof fn lemma_uncurry_encoded_curry(f: Tree, args: Seq<Tree>)
    requires
        encodable(f),
        all_atoms(args),
        forall|i: int| 0 <= i < args.len() ==> encodable(#[trigger] args[i]),
    ensures
        decode(encode(curried(f, args))) == Ok::<Tree, CodecError>(curried(f, args)),
        uncurried(curried(f, args)) == Some((f, concat_bytes(args))),
{
    lemma_chain_encodable(args);
    reveal_with_fuel(encodable, 5);
    crate::codec::lemma_decode_encode(curried(f, args));
    lemma_uncurry_curry(f, args);
}

/// A program that is not of the curried shape, a bare atom among them, is
/// taken apart into nothing.
pub proof fn lemma_uncurry_other_shape(t: Tree)
    ensures
        t is Atom ==> uncurried(t) is None,
        split(t, 2) is None ==> uncurried(t) is None,
{
}

/// The proper list of two trees.
pub open spec fn list2(a: Tree, b: Tree) -> Tree {
    pair_of(a, pair_of(b, nil()))
}

/// The proper list of four trees.
pub open spec fn list4(a: Tree, b: Tree, c: Tree, d: Tree) -> Tree {
    pair_of(a, list3(b, c, d))
}

/// The proper list of five trees.
pub open spec fn list5(a: Tree, b: Tree, c: Tree, d: Tree, e: Tree) -> Tree {
    pair_of(a, list4(b, c, d, e))
}

/// The quoted program at the head of the curry object:
/// `(q #a 4 (c 2 (c 5 (c 7 0))))`.
pub open spec fn curry_object_head() -> Tree {
    list4(
        op(1),
        op(2),
        op(4),
        list3(op(4), op(2), list3(op(4), op(5), list3(op(4), op(7), nil()))),
    )
}

/// The first of the curry object's two quoted routines:
/// `(c (q . 2) (c (c (q . 1) 5) (c (a 6 (c 2 (c 11 (q 1)))) 0)))`.
pub open spec fn curry_object_wrap() -> Tree {
    list3(
        op(4),
        pair_of(op(1), op(2)),
        list3(
            op(4),
            list3(op(4), pair_of(op(1), op(1)), op(5)),
            list3(
                op(4),
                list3(
                    op(2),
                    op(6),
                    list3(op(4), op(2), list3(op(4), op(11), list2(op(1), op(1)))),
                ),
                nil(),
            ),
        ),
    )
}

/// The second of the curry object's two quoted routines:
/// `(i 5 (q 4 (q . 4) (c (c (q . 1) 9) (c (a 6 (c 2 (c 13 (c 11 0)))) 0))) (q . 11))`.
pub open spec fn curry_object_chain() -> Tree {
    list4(
        op(3),
        op(5),
        list4(
            op(1),
            op(4),
            pair_of(op(1), op(4)),
            list3(
                op(4),
                list3(op(4), pair_of(op(1), op(1)), op(9)),
                list3(
                    op(4),
                    list3(
                        op(2),
                        op(6),
                        list3(op(4), op(2), list3(op(4), op(13), list3(op(4), op(11), nil()))),
                    ),
                    nil(),
                ),
            ),
        ),
        pair_of(op(1), op(11)),
    )
}

/// The curry object: the fixed program that, run on a program and a list
/// of arguments, gives the curried program. It applies its head to the
/// environment made of its two quoted routines and its own environment:
/// `(a head (c (q wrap #a chain 1) 1))`.
pub open spec fn curry_object() -> Tree {
    list3(
        op(2),
        curry_object_head(),
        list3(
            op(4),
            list5(op(1), curry_object_wrap(), op(2), curry_object_chain(), op(1)),
            op(1),
        ),
    )
}

fn tree2(a: SExp, b: SExp) -> (r: SExp)
    ensures
        r@ == list2(a@, b@),
{
    SExp::pair(a, SExp::pair(b, SExp::null()))
}

fn tree3(a: SExp, b: SExp, c: SExp) -> (r: SExp)
    ensures
        r@ == list3(a@, b@, c@),
{
    SExp::pair(a, tree2(b, c))
}

fn tree4(a: SExp, b: SExp, c: SExp, d: SExp) -> (r: SExp)
    ensures
        r@ == list4(a@, b@, c@, d@),
{
    SExp::pair(a, tree3(b, c, d))
}

fn curry_head_code() -> (r: SExp)
    ensures
        r@ == curry_object_head(),
{
    let inner = tree3(op_atom(4), op_atom(5), tree3(op_atom(4), op_atom(7), SExp::null()));
    tree4(op_atom(1), op_atom(2), op_atom(4), tree3(op_atom(4), op_atom(2), inner))
}

fn curry_wrap_code() -> (r: SExp)
    ensures
        r@ == curry_object_wrap(),
{
    let quoted_one = tree2(op_atom(1), op_atom(1));
    let call = tree3(
        op_atom(2),
        op_atom(6),
        tree3(op_atom(4), op_atom(2), tree3(op_atom(4), op_atom(11), quoted_one)),
    );
    let first = tree3(op_atom(4), SExp::pair(op_atom(1), op_atom(1)), op_atom(5));
    tree3(
        op_atom(4),
        SExp::pair(op_atom(1), op_atom(2)),
        tree3(op_atom(4), first, tree3(op_atom(4), call, SExp::null())),
    )
}

fn curry_chain_code() -> (r: SExp)
    ensures
        r@ == curry_object_chain(),
{
    let rest = tree3(op_atom(4), op_atom(13), tree3(op_atom(4), op_atom(11), SExp::null()));
    let call = tree3(op_atom(2), op_atom(6), tree3(op_atom(4), op_atom(2), rest));
    let first = tree3(op_atom(4), SExp::pair(op_atom(1), op_atom(1)), op_atom(9));
    let more = tree4(
        op_atom(1),
        op_atom(4),
        SExp::pair(op_atom(1), op_atom(4)),
        tree3(op_atom(4), first, tree3(op_atom(4), call, SExp::null())),
    );
    tree4(op_atom(3), op_atom(5), more, SExp::pair(op_atom(1), op_atom(11)))
}

/// The curry object.
pub fn curry_obj_code() -> (r: SExp)
    ensures
        r@ == curry_object(),
{
    let routines = SExp::pair(
        op_atom(1),
        tree4(curry_wrap_code(), op_atom(2), curry_chain_code(), op_atom(1)),
    );
    tree3(op_atom(2), curry_head_code(), tree3(op_atom(4), routines, op_atom(1)))
}

} // verus!
