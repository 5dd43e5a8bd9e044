//! The assembler's symbol table: a list of named symbols looked up linearly,
//! in insertion order, with the first entry of a name winning.

use vstd::prelude::*;

use crate::text::str_eq;

verus! {

/// What a symbol names.
#[derive(Debug, Clone, Copy)]
pub enum SymbolType {
    Label,
    Integer,
    IrString,
}

/// The table entry binding a label name to an optional byte offset.
#[derive(Debug, Clone)]
pub struct Symbol {
    name: String,
    offset: Option<u32>,
    symbol_type: SymbolType,
}

/// The mathematical image of one symbol.
pub ghost struct SymbolV {
    pub name: Seq<char>,
    pub offset: Option<u32>,
    pub symbol_type: SymbolType,
}

impl View for Symbol {
    type V = SymbolV;

    closed spec fn view(&self) -> SymbolV {
        SymbolV { name: self.name@, offset: self.offset, symbol_type: self.symbol_type }
    }
}

impl Symbol {
    /// A symbol with no offset yet; the offset is filled in during phase one.
    pub fn new(name: String, symbol_type: SymbolType) -> (r: Symbol)
        ensures
            r@ == (SymbolV { name: name@, offset: None::<u32>, symbol_type }),
    {
        Symbol { name, symbol_type, offset: None }
    }

    /// A symbol whose offset is known at construction.
    pub fn new_with_offset(name: String, symbol_type: SymbolType, offset: u32) -> (r: Symbol)
        ensures
            r@ == (SymbolV { name: name@, offset: Some(offset), symbol_type }),
    {
        Symbol { name, symbol_type, offset: Some(offset) }
    }
}

/// Whether some entry carries this name.
pub open spec fn spec_has_symbol(st: Seq<SymbolV>, name: Seq<char>) -> bool {
    exists|k: int| 0 <= k < st.len() && st[k].name == name
}

/// The offset of the first entry carrying this name, `None` when no entry does.
pub open spec fn spec_symbol_value(st: Seq<SymbolV>, name: Seq<char>) -> Option<u32>
    decreases st.len(),
{
    if st.len() == 0 {
        None
    } else if st[0].name == name {
        st[0].offset
    } else {
        spec_symbol_value(st.drop_first(), name)
    }
}

/// The table with the first entry of this name given the offset; the table
/// unchanged when no entry carries the name.
pub open spec fn spec_set_symbol_offset(st: Seq<SymbolV>, name: Seq<char>, offset: u32) -> Seq<
    SymbolV,
>
    decreases st.len(),
{
    if st.len() == 0 {
        st
    } else if st[0].name == name {
        st.update(0, SymbolV { offset: Some(offset), ..st[0] })
    } else {
        seq![st[0]] + spec_set_symbol_offset(st.drop_first(), name, offset)
    }
}

proof fn lemma_symbol_value_at(st: Seq<SymbolV>, name: Seq<char>, i: int)
    requires
        0 <= i < st.len(),
        forall|k: int| 0 <= k < i ==> st[k].name != name,
        st[i].name == name,
    ensures
        spec_symbol_value(st, name) == st[i].offset,
    decreases i,
{
    if i > 0 {
        lemma_symbol_value_at(st.drop_first(), name, i - 1);
    }
}

proof fn lemma_symbol_value_none(st: Seq<SymbolV>, name: Seq<char>)
    requires
        forall|k: int| 0 <= k < st.len() ==> st[k].name != name,
    ensures
        spec_symbol_value(st, name) is None,
    decreases st.len(),
{
    if st.len() > 0 {
        lemma_symbol_value_none(st.drop_first(), name);
    }
}

proof fn lemma_set_symbol_offset_at(st: Seq<SymbolV>, name: Seq<char>, offset: u32, i: int)
    requires
        0 <= i < st.len(),
        forall|k: int| 0 <= k < i ==> st[k].name != name,
        st[i].name == name,
    ensures
        spec_set_symbol_offset(st, name, offset) == st.update(
            i,
            SymbolV { offset: Some(offset), ..st[i] },
        ),
    decreases i,
{
    if i > 0 {
        lemma_set_symbol_offset_at(st.drop_first(), name, offset, i - 1);
        assert(seq![st[0]] + st.drop_first().update(
            i - 1,
            SymbolV { offset: Some(offset), ..st[i] },
        ) =~= st.update(i, SymbolV { offset: Some(offset), ..st[i] }));
    }
}

proof fn lemma_set_symbol_offset_none(st: Seq<SymbolV>, name: Seq<char>, offset: u32)
    requires
        forall|k: int| 0 <= k < st.len() ==> st[k].name != name,
    ensures
        spec_set_symbol_offset(st, name, offset) == st,
    decreases st.len(),
{
    if st.len() > 0 {
        lemma_set_symbol_offset_none(st.drop_first(), name, offset);
        assert(seq![st[0]] + st.drop_first() =~= st);
    }
}

/// The collection of symbols of one assembly, in insertion order.
#[derive(Debug, Clone)]
pub struct SymbolTable {
    pub symbols: Vec<Symbol>,
}

impl View for SymbolTable {
    type V = Seq<SymbolV>;

    open spec fn view(&self) -> Seq<SymbolV> {
        Seq::new(self.symbols@.len(), |i: int| self.symbols@[i]@)
    }
}

impl SymbolTable {
    /// An empty table.
    pub fn new() -> (r: Self)
        ensures
            r@ == Seq::<SymbolV>::empty(),
    {
        let r = Self { symbols: Vec::new() };
        proof {
            assert(r@ =~= Seq::<SymbolV>::empty());
        }
        r
    }

    /// Appends a symbol; the caller checks `has_symbol` first, names are not
    /// deduplicated here.
    pub fn add_symbol(&mut self, s: Symbol)
        ensures
            final(self)@ == old(self)@.push(s@),
    {
        let ghost sv = s@;
        self.symbols.push(s);
        proof {
            assert(self@ =~= old(self)@.push(sv));
        }
    }

    /// Whether the table holds a symbol of this name.
    pub fn has_symbol(&mut self, s: &str) -> (r: bool)
        ensures
            *final(self) == *old(self),
            r == spec_has_symbol(old(self)@, s@),
    {
        let mut i: usize = 0;
        while i < self.symbols.len()
            invariant
                i <= self.symbols.len(),
                forall|k: int| 0 <= k < i ==> self@[k].name != s@,
            decreases self.symbols.len() - i,
        {
            if str_eq(self.symbols[i].name.as_str(), s) {
                assert(self@[i as int].name == s@);
                return true;
            }
            i += 1;
        }
        false
    }

    /// Gives the first symbol of this name the offset; returns whether one
    /// was found.
    pub fn set_symbol_offset(&mut self, s: &str, offset: u32) -> (r: bool)
        ensures
            final(self)@ == spec_set_symbol_offset(old(self)@, s@, offset),
            r == spec_has_symbol(old(self)@, s@),
    {
        let mut i: usize = 0;
        while i < self.symbols.len()
            invariant
                i <= self.symbols.len(),
                self == old(self),
                forall|k: int| 0 <= k < i ==> self@[k].name != s@,
            decreases self.symbols.len() - i,
        {
            if str_eq(self.symbols[i].name.as_str(), s) {
                proof {
                    lemma_set_symbol_offset_at(self@, s@, offset, i as int);
                }
                self.symbols[i].offset = Some(offset);
                proof {
                    assert(self@ =~= spec_set_symbol_offset(old(self)@, s@, offset));
                }
                return true;
            }
            i += 1;
        }
        proof {
            lemma_set_symbol_offset_none(self@, s@, offset);
        }
        false
    }

    /// The offset bound to this name, `None` when the name is absent or the
    /// offset is still unresolved.
    pub fn symbol_value(&self, s: &str) -> (r: Option<u32>)
        ensures
            r == spec_symbol_value(self@, s@),
    {
        let mut i: usize = 0;
        while i < self.symbols.len()
            invariant
                i <= self.symbols.len(),
                forall|k: int| 0 <= k < i ==> self@[k].name != s@,
            decreases self.symbols.len() - i,
        {
            if str_eq(self.symbols[i].name.as_str(), s) {
                proof {
                    lemma_symbol_value_at(self@, s@, i as int);
                }
                return self.symbols[i].offset;
            }
            i += 1;
        }
        proof {
            lemma_symbol_value_none(self@, s@);
        }
        None
    }
}

impl Default for SymbolTable {
    /// An empty table.
    fn default() -> (r: Self)
        ensures
            r@ == Seq::<SymbolV>::empty(),
    {
        SymbolTable::new()
    }
}

} // verus!
