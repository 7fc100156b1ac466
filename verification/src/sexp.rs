//! The atom/pair tree and its mathematical model.

use vstd::prelude::*;
use std::sync::Arc;

verus! {

/// A view that asks for an atom found a pair, or the reverse.
#[derive(Debug, Clone, Copy, PartialEq, Eq, Structural)]
pub enum ShapeError {
    UnexpectedShape,
}

/// The mathematical tree that an [`SExp`] stands for.
pub enum Tree {
    Atom(Seq<u8>),
    Pair(Box<Tree>, Box<Tree>),
}

/// A finite binary tree whose leaves are byte strings. The nodes are shared:
/// a copy of a tree points at the same bytes and children and copies
/// nothing.
#[derive(Debug, Clone, PartialEq, Eq)]
pub enum SExp {
    Atom(Arc<Vec<u8>>),
    Pair(Arc<SExp>, Arc<SExp>),
}

/// Calls `Arc::clone`, which gives one more pointer to the value that `t`
/// points to and copies nothing. Trusted: the new pointer points to an equal
/// value.
#[verifier::external_body]
fn share<T>(t: &Arc<T>) -> (r: Arc<T>)
    ensures
        *r == **t,
{
    Arc::clone(t)
}

/// The tree that `s` stands for.
pub open spec fn tree_of(s: SExp) -> Tree
    decreases s,
{
    match s {
        SExp::Atom(b) => Tree::Atom(b@),
        SExp::Pair(f, r) => Tree::Pair(Box::new(tree_of(*f)), Box::new(tree_of(*r))),
    }
}

impl View for SExp {
    type V = Tree;

    open spec fn view(&self) -> Tree {
        tree_of(*self)
    }
}

/// The atom holding `bytes`.
pub open spec fn atom_of(bytes: Seq<u8>) -> Tree {
    Tree::Atom(bytes)
}

/// The pair of `first` and `rest`.
pub open spec fn pair_of(first: Tree, rest: Tree) -> Tree {
    Tree::Pair(Box::new(first), Box::new(rest))
}

/// The empty atom, which ends every list.
pub open spec fn nil() -> Tree {
    Tree::Atom(Seq::empty())
}

/// The number of nodes of a tree.
pub open spec fn size(t: Tree) -> nat
    decreases t,
{
    match t {
        Tree::Atom(_) => 1,
        Tree::Pair(f, r) => 1 + size(*f) + size(*r),
    }
}

/// The bytes of an atom; a pair has none.
pub open spec fn atom_bytes(t: Tree) -> Seq<u8> {
    match t {
        Tree::Atom(b) => b,
        Tree::Pair(_, _) => Seq::empty(),
    }
}

/// The items of a list: the first children along the chain of pairs, up to
/// the atom that ends it.
pub open spec fn list_items(t: Tree) -> Seq<Tree>
    decreases t,
{
    match t {
        Tree::Atom(_) => Seq::empty(),
        Tree::Pair(f, r) => seq![*f] + list_items(*r),
    }
}

/// The proper list of `items`: a chain of pairs that ends in the empty atom.
pub open spec fn list_of(items: Seq<Tree>) -> Tree
    decreases items.len(),
{
    if items.len() == 0 {
        nil()
    } else {
        pair_of(items[0], list_of(items.skip(1)))
    }
}

/// The trees that a vector of references points to.
pub open spec fn refs_trees(v: Seq<&SExp>) -> Seq<Tree> {
    Seq::new(v.len(), |i: int| v[i]@)
}

/// The trees that a vector holds.
pub open spec fn trees_of(v: Seq<SExp>) -> Seq<Tree> {
    Seq::new(v.len(), |i: int| v[i]@)
}

/// A list built from items has those items.
pub proof fn lemma_list_items_of_list(items: Seq<Tree>)
    ensures
        list_items(list_of(items)) == items,
    decreases items.len(),
{
    if items.len() == 0 {
        assert(list_items(list_of(items)) =~= items);
    } else {
        lemma_list_items_of_list(items.skip(1));
        assert(seq![items[0]] + items.skip(1) =~= items);
    }
}

/// Whether two byte strings hold the same bytes.
pub fn bytes_eq(a: &Vec<u8>, b: &Vec<u8>) -> (r: bool)
    ensures
        r == (a@ == b@),
{
    if a.len() != b.len() {
        return false;
    }
    let mut i: usize = 0;
    while i < a.len()
        invariant
            a@.len() == b@.len(),
            i <= a@.len(),
            forall|j: int| 0 <= j < i ==> a@[j] == b@[j],
        decreases a@.len() - i,
    {
        if a[i] != b[i] {
            return false;
        }
        i += 1;
    }
    assert(a@ =~= b@);
    true
}

/// A fresh copy of a byte string.
pub fn copy_bytes(a: &Vec<u8>) -> (r: Vec<u8>)
    ensures
        r@ == a@,
{
    let mut out: Vec<u8> = Vec::new();
    let mut i: usize = 0;
    while i < a.len()
        invariant
            i <= a@.len(),
            out@ == a@.subrange(0, i as int),
        decreases a@.len() - i,
    {
        out.push(a[i]);
        assert(out@ =~= a@.subrange(0, i + 1));
        i += 1;
    }
    assert(out@ =~= a@);
    out
}

/// Structural equality of two trees.
pub fn equal_to(first: &SExp, second: &SExp) -> (r: bool)
    ensures
        r == (first@ == second@),
    decreases first,
{
    match (first, second) {
        (SExp::Atom(fbuf), SExp::Atom(sbuf)) => bytes_eq(fbuf, sbuf),
        (SExp::Pair(ff, fr), SExp::Pair(sf, sr)) => equal_to(ff, sf) && equal_to(fr, sr),
        _ => false,
    }
}

impl SExp {
    /// The atom that holds `bytes`.
    pub fn atom(bytes: Vec<u8>) -> (r: SExp)
        ensures
            r@ == atom_of(bytes@),
    {
        SExp::Atom(Arc::new(bytes))
    }

    /// The empty atom.
    pub fn null() -> (r: SExp)
        ensures
            r@ == nil(),
    {
        SExp::Atom(Arc::new(Vec::new()))
    }

    /// The pair of two owned trees.
    pub fn pair(first: SExp, rest: SExp) -> (r: SExp)
        ensures
            r@ == pair_of(first@, rest@),
    {
        SExp::Pair(Arc::new(first), Arc::new(rest))
    }

    /// A copy that is structurally equal to `self` and shares its nodes.
    pub fn duplicate(&self) -> (r: SExp)
        ensures
            r@ == self@,
    {
        match self {
            SExp::Atom(b) => SExp::Atom(share(b)),
            SExp::Pair(f, r) => SExp::Pair(share(f), share(r)),
        }
    }

    /// Whether this node is an atom.
    pub fn is_atom(&self) -> (r: bool)
        ensures
            r == (self@ is Atom),
    {
        match self {
            SExp::Atom(_) => true,
            SExp::Pair(_, _) => false,
        }
    }

    /// The bytes of an atom. A pair has none.
    pub fn as_atom(&self) -> (r: Result<&Vec<u8>, ShapeError>)
        ensures
            self@ is Atom ==> r is Ok && r.unwrap()@ == atom_bytes(self@),
            self@ is Pair ==> r is Err,
    {
        match self {
            SExp::Atom(b) => Ok(b),
            SExp::Pair(_, _) => Err(ShapeError::UnexpectedShape),
        }
    }

    /// The two children of a pair. An atom has none.
    pub fn as_pair(&self) -> (r: Result<(&SExp, &SExp), ShapeError>)
        ensures
            self@ is Pair ==> r is Ok && self@ == pair_of(r.unwrap().0@, r.unwrap().1@),
            self@ is Atom ==> r is Err,
    {
        match self {
            SExp::Atom(_) => Err(ShapeError::UnexpectedShape),
            SExp::Pair(f, r) => Ok((f, r)),
        }
    }

    /// The items of the list that starts at this node, in order. An atom is
    /// the list without items.
    pub fn as_list(&self) -> (r: Vec<&SExp>)
        ensures
            refs_trees(r@) == list_items(self@),
    {
        let mut out: Vec<&SExp> = Vec::new();
        let mut cur: &SExp = self;
        let mut done = false;
        assert(refs_trees(out@) + list_items(cur@) =~= list_items(self@));
        while !done
            invariant
                list_items(self@) == refs_trees(out@) + list_items(cur@),
                done ==> cur@ is Atom,
            decreases size(cur@) + (if done { 0nat } else { 1nat }),
        {
            let ghost before = refs_trees(out@);
            match cur.as_pair() {
                Ok((f, r)) => {
                    out.push(f);
                    assert(refs_trees(out@) =~= before.push(f@));
                    assert(before.push(f@) + list_items(r@) =~= before + list_items(cur@));
                    cur = r;
                },
                Err(_) => {
                    done = true;
                },
            }
        }
        assert(refs_trees(out@) + list_items(cur@) =~= refs_trees(out@));
        out
    }

    /// The proper list of copies of `items`.
    pub fn list(items: &Vec<SExp>) -> (r: SExp)
        ensures
            r@ == list_of(trees_of(items@)),
    {
        let ghost trees = trees_of(items@);
        let mut cur = SExp::null();
        let mut i: usize = items.len();
        assert(trees.skip(i as int) =~= Seq::<Tree>::empty());
        while i > 0
            invariant
                i <= items@.len(),
                trees == trees_of(items@),
                cur@ == list_of(trees.skip(i as int)),
            decreases i,
        {
            i -= 1;
            assert(trees.skip(i as int).skip(1) =~= trees.skip(i + 1));
            cur = SExp::pair(items[i].duplicate(), cur);
        }
        assert(trees.skip(0) =~= trees);
        cur
    }
}

} // verus!
