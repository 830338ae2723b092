//! The records that the tables of a BEAM file are made of.
use vstd::prelude::*;

/// A term of the external term format. It is carried through and never
/// looked into here; to work with what it holds, use the `eetf` crate.
pub use eetf::Term as EtfTerm;

verus! {

/// The identifier of an atom: a one-based index into the atom table of the
/// same file. Nothing here checks that it is in range.
pub type AtomId = u32;

/// The number of arguments that a function takes.
pub type Arity = u32;

/// An atom: one interned name. Its place in the atom table, counted from
/// one, is its `AtomId`.
#[derive(Debug, PartialEq, Eq)]
pub struct Atom {
    pub name: String,
}

/// An imported function.
#[derive(Debug, PartialEq, Eq)]
pub struct Import {
    pub module: AtomId,
    pub function: AtomId,
    pub arity: Arity,
}

/// An exported function. `label` is a jump target in the code section.
#[derive(Debug, PartialEq, Eq)]
pub struct Export {
    pub function: AtomId,
    pub arity: Arity,
    pub label: u32,
}

/// A local function.
#[derive(Debug, PartialEq, Eq)]
pub struct Local {
    pub function: AtomId,
    pub arity: Arity,
    pub label: u32,
}

/// An anonymous function.
#[derive(Debug, PartialEq, Eq)]
pub struct Function {
    pub function: AtomId,
    pub arity: Arity,
    pub label: u32,
    pub index: u32,
    pub num_free: u32,
    pub old_uniq: u32,
}

impl View for Atom {
    type V = Seq<char>;

    /// The characters of the name.
    open spec fn view(&self) -> Seq<char> {
        self.name@
    }
}

/// The names of a sequence of atoms, in the same order.
pub open spec fn names_of(atoms: Seq<Atom>) -> Seq<Seq<char>> {
    Seq::new(atoms.len(), |i: int| atoms[i]@)
}

} // verus!
