//! The symbol table: the string interner that gives every identifier and
//! string literal a small integer id, and the few operations the library
//! needs of it.
//!
//! The interner is foreign code. What this module states of it is taken on
//! trust; everything built on top is proved from these statements.

use string_interner::{DefaultStringInterner, DefaultSymbol, Symbol as _};
use vstd::prelude::*;

verus! {

/// The interner itself. Verus is told nothing of its fields: all that is known
/// of a table is what [`interned`] names and the functions below state.
#[verifier::external_body]
#[derive(Debug, PartialEq, Eq)]
pub struct SymbolTable {
    inner: DefaultStringInterner,
}

/// The id of an interned string: its position in the order of first interning.
pub type Symbol = u32;

/// The strings that an interner holds, in the order in which they were first
/// interned. The string with id `i` is `interned(si)[i]`.
pub uninterp spec fn interned(si: SymbolTable) -> Seq<Seq<char>>;

/// `StringInterner::new`: a fresh interner holds no string.
#[verifier::external_body]
pub(crate) fn new_interner() -> (si: SymbolTable)
    ensures
        interned(si) == Seq::<Seq<char>>::empty(),
{
    SymbolTable { inner: DefaultStringInterner::new() }
}

/// `StringInterner::get_or_intern`, with the symbol turned into its index by
/// `Symbol::to_usize`. A string that is already held keeps its id and the
/// interner is left as it was; a new string is appended and gets the next id.
/// The call panics only when a new string would get an id that no `SymbolU32`
/// can hold, which the precondition rules out.
#[verifier::external_body]
pub(crate) fn intern(si: &mut SymbolTable, text: &str) -> (sym: Symbol)
    requires
        interned(*old(si)).len() < u32::MAX,
    ensures
        interned(*old(si)).contains(text@) ==> {
            &&& interned(*final(si)) == interned(*old(si))
            &&& sym < interned(*old(si)).len()
            &&& interned(*old(si))[sym as int] == text@
        },
        !interned(*old(si)).contains(text@) ==> {
            &&& interned(*final(si)) == interned(*old(si)).push(text@)
            &&& sym == interned(*old(si)).len()
        },
{
    si.inner.get_or_intern(text).to_usize() as u32
}

/// `StringInterner::resolve`, on the symbol that `Symbol::try_from_usize`
/// makes of the index: the string with that id, or `None` when the interner
/// holds no such id.
#[verifier::external_body]
pub(crate) fn resolve(si: &SymbolTable, sym: Symbol) -> (text: Option<&str>)
    ensures
        sym < interned(*si).len() ==> text is Some && text->0@ == interned(*si)[sym as int],
        sym >= interned(*si).len() ==> text is None,
{
    match DefaultSymbol::try_from_usize(sym as usize) {
        Some(symbol) => si.inner.resolve(symbol),
        None => None,
    }
}

/// `StringInterner::len`: the number of strings held.
#[verifier::external_body]
pub(crate) fn count(si: &SymbolTable) -> (n: usize)
    ensures
        n == interned(*si).len(),
{
    si.inner.len()
}

impl SymbolTable {
    /// An empty table.
    pub fn new() -> (table: SymbolTable)
        ensures
            interned(table) == Seq::<Seq<char>>::empty(),
    {
        new_interner()
    }

    /// The number of strings in the table.
    pub fn len(&self) -> (n: usize)
        ensures
            n == interned(*self).len(),
    {
        count(self)
    }

    /// The id of `text`, which is entered in the table if it is new. A
    /// table that holds as many strings as there are ids is full: it is left
    /// as it is and answers `None` for every text, also for one that it
    /// holds, whose id [`SymbolTable::resolve`] still finds.
    pub fn get_or_intern(&mut self, text: &str) -> (sym: Option<Symbol>)
        ensures
            sym is None <==> interned(*old(self)).len() >= u32::MAX,
            match sym {
                Some(sym) => {
                    &&& sym < interned(*final(self)).len()
                    &&& interned(*final(self))[sym as int] == text@
                    &&& interned(*final(self)) == if interned(*old(self)).contains(text@) {
                        interned(*old(self))
                    } else {
                        interned(*old(self)).push(text@)
                    }
                    &&& !interned(*old(self)).contains(text@) ==> sym == interned(*old(self)).len()
                },
                None => interned(*old(self)).len() >= u32::MAX && *final(self) == *old(self),
            },
    {
        if count(self) < u32::MAX as usize {
            Some(intern(self, text))
        } else {
            None
        }
    }

    /// The text behind an id, `None` for an id that the table does not hold.
    pub fn resolve(&self, sym: Symbol) -> (text: Option<&str>)
        ensures
            sym < interned(*self).len() ==> text is Some && text->0@ == interned(*self)[sym as int],
            sym >= interned(*self).len() ==> text is None,
    {
        resolve(self, sym)
    }
}

} // verus!
