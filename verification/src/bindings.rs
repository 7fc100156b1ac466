//! The table of captures that matching fills.

use vstd::prelude::*;
use crate::sexp::{SExp, Tree, bytes_eq, copy_bytes};

verus! {

/// One capture: a name and the subtree bound to it.
#[derive(Debug, Clone, PartialEq, Eq)]
pub struct Binding {
    pub name: Vec<u8>,
    pub value: SExp,
}

/// A table from capture names to subtrees. A later entry for a name hides an
/// earlier one.
#[derive(Debug, Clone, PartialEq, Eq)]
pub struct Bindings {
    pub entries: Vec<Binding>,
}

/// The map that a sequence of entries stands for.
pub open spec fn table_of(entries: Seq<Binding>) -> Map<Seq<u8>, Tree>
    decreases entries.len(),
{
    if entries.len() == 0 {
        Map::empty()
    } else {
        table_of(entries.drop_last()).insert(entries.last().name@, entries.last().value@)
    }
}

impl View for Bindings {
    type V = Map<Seq<u8>, Tree>;

    open spec fn view(&self) -> Map<Seq<u8>, Tree> {
        table_of(self.entries@)
    }
}

/// The last entry for a name is the one the table holds.
pub proof fn lemma_table_found(entries: Seq<Binding>, i: int, name: Seq<u8>)
    requires
        0 <= i < entries.len(),
        entries[i].name@ == name,
        forall|j: int| i < j < entries.len() ==> entries[j].name@ != name,
    ensures
        table_of(entries).contains_key(name),
        table_of(entries)[name] == entries[i].value@,
    decreases entries.len(),
{
    if i < entries.len() - 1 {
        lemma_table_found(entries.drop_last(), i, name);
    }
}

/// A name that no entry has is not in the table.
pub proof fn lemma_table_absent(entries: Seq<Binding>, name: Seq<u8>)
    requires
        forall|j: int| 0 <= j < entries.len() ==> entries[j].name@ != name,
    ensures
        !table_of(entries).contains_key(name),
    decreases entries.len(),
{
    if entries.len() > 0 {
        lemma_table_absent(entries.drop_last(), name);
    }
}

impl Bindings {
    /// The empty table.
    pub fn new() -> (r: Bindings)
        ensures
            r@ == Map::<Seq<u8>, Tree>::empty(),
    {
        Bindings { entries: Vec::new() }
    }

    /// The subtree bound to `name`, if any.
    pub fn get(&self, name: &Vec<u8>) -> (r: Option<&SExp>)
        ensures
            self@.contains_key(name@) ==> r is Some && r.unwrap()@ == self@[name@],
            !self@.contains_key(name@) ==> r is None,
    {
        let mut i: usize = self.entries.len();
        while i > 0
            invariant
                i <= self.entries@.len(),
                forall|j: int| i <= j < self.entries@.len() ==> self.entries@[j].name@ != name@,
            decreases i,
        {
            i -= 1;
            if bytes_eq(&self.entries[i].name, name) {
                proof {
                    lemma_table_found(self.entries@, i as int, name@);
                }
                return Some(&self.entries[i].value);
            }
        }
        proof {
            lemma_table_absent(self.entries@, name@);
        }
        None
    }

    /// Binds `name` to `value`.
    pub fn insert(&mut self, name: &Vec<u8>, value: SExp)
        ensures
            final(self)@ == old(self)@.insert(name@, value@),
    {
        self.entries.push(Binding { name: copy_bytes(name), value });
        assert(self.entries@.drop_last() =~= old(self).entries@);
    }
}

} // verus!
