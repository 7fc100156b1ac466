//! Matching a pattern tree against a subject tree by unification.

use vstd::prelude::*;
use crate::sexp::{SExp, Tree, bytes_eq};
use crate::bindings::Bindings;

verus! {

/// The table of captures as contracts see it.
pub type Table = Map<Seq<u8>, Tree>;

/// The marker byte of a capture: `$` takes one atom, `:` takes any subtree.
pub open spec fn marker(atoms_only: bool) -> Seq<u8> {
    if atoms_only {
        seq![0x24u8]
    } else {
        seq![0x3Au8]
    }
}

/// Reads a pair pattern as a capture: where its first child is the atom of
/// one marker byte and its other child is an atom, the kind of the capture
/// (whether it takes atoms only) and the name.
pub open spec fn capture_of(first: Tree, rest: Tree) -> Option<(bool, Seq<u8>)> {
    match (first, rest) {
        (Tree::Atom(m), Tree::Atom(name)) => {
            if m == marker(true) {
                Some((true, name))
            } else if m == marker(false) {
                Some((false, name))
            } else {
                None
            }
        },
        _ => None,
    }
}

/// Binding `name` to `value` in `known`: a name that is bound already must
/// be bound to an equal subtree.
pub open spec fn unify(known: Table, name: Seq<u8>, value: Tree) -> Option<Table> {
    if known.contains_key(name) {
        if known[name] == value {
            Some(known)
        } else {
            None
        }
    } else {
        Some(known.insert(name, value))
    }
}

/// The table that matching `pattern` against `subject` gives, starting from
/// `known`, or `None` where they do not match.
///
/// An atom matches the equal atom. A capture whose name is its own marker is
/// anonymous: it matches only the atom of that marker and binds nothing.
/// Another capture binds its name to the subject, `$` to an atom only. Any
/// other pair matches a pair, child by child, the table of the first child
/// handed on to the second. The table only grows: see
/// `lemma_match_keeps_bindings`.
pub open spec fn matched(pattern: Tree, subject: Tree, known: Table) -> Option<Table>
    decreases pattern,
{
    match pattern {
        Tree::Atom(p) => if subject == Tree::Atom(p) {
            Some(known)
        } else {
            None
        },
        Tree::Pair(l, r) => match capture_of(*l, *r) {
            Some((atoms_only, name)) => {
                if name == marker(atoms_only) {
                    if subject == Tree::Atom(marker(atoms_only)) {
                        Some(known)
                    } else {
                        None
                    }
                } else if atoms_only && subject is Pair {
                    None
                } else {
                    unify(known, name, subject)
                }
            },
            None => match subject {
                Tree::Atom(_) => None,
                Tree::Pair(sf, sr) => match matched(*l, *sf, known) {
                    None => None,
                    Some(mid) => matched(*r, *sr, mid),
                },
            },
        },
    }
}

/// Whether `v` holds the one byte `b`.
pub fn is_single(v: &Vec<u8>, b: u8) -> (r: bool)
    ensures
        r == (v@ == seq![b]),
{
    if v.len() == 1 && v[0] == b {
        assert(v@ =~= seq![b]);
        true
    } else {
        assert(seq![b].len() == 1 && seq![b][0] == b);
        false
    }
}

fn capture_name<'a>(first: &SExp, rest: &'a SExp) -> (c: Option<(bool, &'a Vec<u8>)>)
    ensures
        match capture_of(first@, rest@) {
            Some((k, name)) => c is Some && c.unwrap().0 == k && c.unwrap().1@ == name,
            None => c is None,
        },
{
    match first {
        SExp::Atom(m) => match rest {
            SExp::Atom(name) => {
                if is_single(m, 0x24u8) {
                    Some((true, name))
                } else if is_single(m, 0x3Au8) {
                    Some((false, name))
                } else {
                    None
                }
            },
            SExp::Pair(_, _) => None,
        },
        SExp::Pair(_, _) => None,
    }
}

/// Binds `new_key` to `new_value` in `bindings`, or finds that the name is
/// bound to a different subtree and gives nothing.
pub fn unify_bindings(bindings: Bindings, new_key: &Vec<u8>, new_value: &SExp) -> (r: Option<
    Bindings,
>)
    ensures
        match unify(bindings@, new_key@, new_value@) {
            Some(m) => r is Some && r.unwrap()@ == m,
            None => r is None,
        },
{
    let mut bindings = bindings;
    let same: Option<bool> = match bindings.get(new_key) {
        Some(binding) => Some(crate::sexp::equal_to(binding, new_value)),
        None => None,
    };
    match same {
        Some(true) => Some(bindings),
        Some(false) => None,
        None => {
            bindings.insert(new_key, new_value.duplicate());
            Some(bindings)
        },
    }
}

/// Matches `pattern` against `sexp`, starting from `known_bindings`.
pub fn match_sexp(pattern: &SExp, sexp: &SExp, known_bindings: Bindings) -> (r: Option<Bindings>)
    ensures
        match matched(pattern@, sexp@, known_bindings@) {
            Some(m) => r is Some && r.unwrap()@ == m,
            None => r is None,
        },
    decreases pattern,
{
    match pattern {
        SExp::Atom(pat_buf) => match sexp {
            SExp::Atom(sexp_buf) => {
                if bytes_eq(pat_buf, sexp_buf) {
                    Some(known_bindings)
                } else {
                    None
                }
            },
            SExp::Pair(_, _) => None,
        },
        SExp::Pair(pf, pr) => match capture_name(pf, pr) {
            Some((atoms_only, name)) => {
                let mark: u8 = if atoms_only {
                    0x24u8
                } else {
                    0x3Au8
                };
                if is_single(name, mark) {
                    match sexp {
                        SExp::Atom(b) => {
                            if is_single(b, mark) {
                                Some(known_bindings)
                            } else {
                                None
                            }
                        },
                        SExp::Pair(_, _) => None,
                    }
                } else if atoms_only && !sexp.is_atom() {
                    None
                } else {
                    unify_bindings(known_bindings, name, sexp)
                }
            },
            None => match sexp {
                SExp::Atom(_) => None,
                SExp::Pair(sf, sr) => match match_sexp(pf, sf, known_bindings) {
                    None => None,
                    Some(mid) => match_sexp(pr, sr, mid),
                },
            },
        },
    }
}

/// A pattern that captures one atom under `name` in two places matches a
/// pair of two atoms exactly where the atoms are equal, and then binds the
/// name to that atom and nothing else.
pub proof fn lemma_repeated_capture(name: Seq<u8>, a: Seq<u8>, b: Seq<u8>)
    requires
        name != marker(true),
    ensures
        ({
            let capture = crate::sexp::pair_of(Tree::Atom(marker(true)), Tree::Atom(name));
            let pattern = crate::sexp::pair_of(capture, capture);
            let subject = crate::sexp::pair_of(Tree::Atom(a), Tree::Atom(b));
            let found = matched(pattern, subject, Map::empty());
            &&& a != b ==> found is None
            &&& a == b ==> found == Some(Map::<Seq<u8>, Tree>::empty().insert(name, Tree::Atom(a)))
        }),
{
    let capture = crate::sexp::pair_of(Tree::Atom(marker(true)), Tree::Atom(name));
    let pattern = crate::sexp::pair_of(capture, capture);
    let subject = crate::sexp::pair_of(Tree::Atom(a), Tree::Atom(b));
    let empty = Map::<Seq<u8>, Tree>::empty();
    assert(capture_of(capture, capture) is None);
    assert(capture_of(Tree::Atom(marker(true)), Tree::Atom(name)) == Some((true, name)));
    reveal_with_fuel(matched, 3);
    let mid = empty.insert(name, Tree::Atom(a));
    assert(matched(capture, Tree::Atom(a), empty) == Some(mid));
    assert(matched(capture, Tree::Atom(b), mid) == unify(mid, name, Tree::Atom(b)));
    assert(matched(pattern, subject, empty) == matched(capture, Tree::Atom(b), mid));
    if a != b {
        assert(Tree::Atom(a) != Tree::Atom(b));
    }
}

/// Matching only adds to the table: every name bound before a successful
/// match is bound to the same subtree after it.
pub proof fn lemma_match_keeps_bindings(pattern: Tree, subject: Tree, known: Table)
    ensures
        matched(pattern, subject, known) is Some ==> forall|name: Seq<u8>|
            known.contains_key(name) ==> #[trigger] matched(
                pattern,
                subject,
                known,
            ).unwrap().contains_key(name) && matched(pattern, subject, known).unwrap()[name]
                == known[name],
    decreases pattern,
{
    match pattern {
        Tree::Atom(_) => {},
        Tree::Pair(l, r) => {
            if capture_of(*l, *r) is None {
                match subject {
                    Tree::Atom(_) => {},
                    Tree::Pair(sf, sr) => {
                        lemma_match_keeps_bindings(*l, *sf, known);
                        if let Some(mid) = matched(*l, *sf, known) {
                            lemma_match_keeps_bindings(*r, *sr, mid);
                        }
                    },
                }
            }
        },
    }
}

/// A name that is bound before a match stands for one subtree: a capture
/// of that name matches only a subject equal to what the name is bound to.
pub proof fn lemma_bound_name_must_agree(
    atoms_only: bool,
    name: Seq<u8>,
    subject: Tree,
    known: Table,
)
    requires
        name != marker(atoms_only),
        known.contains_key(name),
    ensures
        matched(
            crate::sexp::pair_of(Tree::Atom(marker(atoms_only)), Tree::Atom(name)),
            subject,
            known,
        ) is Some ==> subject == known[name],
{
    assert(marker(false)[0] == 0x3Au8 && marker(true)[0] == 0x24u8);
    assert(capture_of(Tree::Atom(marker(atoms_only)), Tree::Atom(name)) == Some(
        (atoms_only, name),
    ));
}

} // verus!
