//! Interned names.

use vstd::prelude::*;
use crate::latin_1::Latin1String;

verus! {

/// The handle of an interned name: the index that the table gave the name,
/// and the name itself. Its view is the text of the name.
#[derive(Debug)]
pub struct Symbol {
    id: usize,
    name: Latin1String,
}

impl View for Symbol {
    type V = Seq<u8>;

    closed spec fn view(&self) -> Seq<u8> {
        self.name@
    }
}

impl Clone for Symbol {
    fn clone(&self) -> (res: Self)
        ensures
            res@ == self@,
            res.spec_id() == self.spec_id(),
    {
        Symbol { id: self.id, name: self.name.clone() }
    }
}

impl Symbol {
    pub closed spec fn spec_id(&self) -> usize {
        self.id
    }

    #[verifier::when_used_as_spec(spec_id)]
    pub fn id(&self) -> (id: usize)
        ensures
            id == self.spec_id(),
    {
        self.id
    }

    pub fn name(&self) -> (name: &Latin1String)
        ensures
            name@ == self@,
    {
        &self.name
    }

    /// Whether two symbols stand for the same text.
    pub fn same_name(&self, other: &Symbol) -> (same: bool)
        ensures
            same == (self@ == other@),
    {
        self.name.same_text(&other.name)
    }
}

/// The table of interned names. A name enters it once and is never removed;
/// its index in the table is its handle. The view is the sequence of the
/// names in the order in which they entered.
pub struct SymbolTable {
    names: Vec<Latin1String>,
}

impl View for SymbolTable {
    type V = Seq<Seq<u8>>;

    closed spec fn view(&self) -> Seq<Seq<u8>> {
        Seq::new(self.names@.len(), |i: int| self.names@[i]@)
    }
}

/// The names of a table after `name` was interned: the name is added at
/// the end unless the table holds it.
pub open spec fn interned(names: Seq<Seq<u8>>, name: Seq<u8>) -> Seq<Seq<u8>> {
    if names.contains(name) {
        names
    } else {
        names.push(name)
    }
}

/// No name occurs twice in the table.
pub open spec fn distinct_names(names: Seq<Seq<u8>>) -> bool {
    forall|i: int, j: int| 0 <= i < j < names.len() ==> names[i] != names[j]
}

impl SymbolTable {
    /// The symbol is one that this table handed out.
    pub open spec fn owns(&self, sym: &Symbol) -> bool {
        sym.spec_id() < self@.len() && self@[sym.spec_id() as int] == sym@
    }

    pub fn new() -> (table: SymbolTable)
        ensures
            table@ == Seq::<Seq<u8>>::empty(),
    {
        let table = SymbolTable { names: Vec::new() };
        assert(table@ =~= Seq::<Seq<u8>>::empty());
        table
    }

    /// The symbol of `name`, if the name was interned.
    pub fn lookup(&self, name: &Latin1String) -> (found: Option<Symbol>)
        ensures
            found is Some <==> self@.contains(name@),
            found matches Some(sym) ==> sym@ == name@ && self.owns(&sym),
    {
        let mut i: usize = 0;
        while i < self.names.len()
            invariant
                i <= self.names.len(),
                forall|j: int| 0 <= j < i ==> self@[j] != name@,
            decreases self.names.len() - i,
        {
            if self.names[i].same_text(name) {
                assert(self@[i as int] == name@);
                return Some(Symbol { id: i, name: name.clone() });
            }
            i += 1;
        }
        None
    }

    /// Interns `name`: the symbol it already has, or a new one at the end
    /// of the table.
    pub fn insert(&mut self, name: &Latin1String) -> (sym: Symbol)
        ensures
            sym@ == name@,
            final(self).owns(&sym),
            final(self)@ == interned(old(self)@, name@),
            distinct_names(old(self)@) ==> distinct_names(final(self)@),
    {
        match self.lookup(name) {
            Some(sym) => sym,
            None => {
                let id = self.names.len();
                self.names.push(name.clone());
                assert(self@ =~= old(self)@.push(name@));
                Symbol { id, name: name.clone() }
            },
        }
    }
}

/// Within one table with pairwise distinct names a handle stands for one
/// text: two symbols of the table have the same index exactly when they
/// have the same text.
pub proof fn lemma_handles_are_canonical(table: &SymbolTable, a: &Symbol, b: &Symbol)
    requires
        distinct_names(table@),
        table.owns(a),
        table.owns(b),
    ensures
        a.spec_id() == b.spec_id() <==> a@ == b@,
{
}

} // verus!
