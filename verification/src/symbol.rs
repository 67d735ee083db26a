//! Symbols and the symbol table.
//!
//! The model of a symbol table is the sequence of its entries in ordinal
//! order, each a name with the builder of its symbol. The string table that
//! goes with it starts with a zero byte and holds, for each entry in order,
//! an underscore, the bytes of the name and a zero byte.

use std::collections::hash_map::RandomState;

use ordermap::OrderMap;
use vstd::prelude::*;
use vstd::utf8::encode_utf8;

use crate::collections::{
    has_key, interned, interner_get, interner_get_or_intern, interner_into_strings, interner_len,
    interner_new, ordinal_entries, ordinals_get, ordinals_insert, ordinals_new, symbol_entries,
    symbols_get, symbols_insert, symbols_into_values, symbols_len, symbols_new, StrTable,
};
use crate::records::{Nlist, NO_SECT, N_EXT, N_SECT, N_UNDF};

verus! {

/// Ordinal of a section in its segment, counted from 0.
pub type SectionIndex = usize;

/// Offset of a name in the string table.
pub type StrtableOffset = usize;

/// Ordinal of a symbol in the symbol table.
pub type SymbolIndex = usize;

/// Ordinal of the section that holds the code.
pub const CODE_SECTION_INDEX: SectionIndex = 0;

/// Ordinal of the section that holds the data.
pub const DATA_SECTION_INDEX: SectionIndex = 1;

/// A builder for a symbol table entry.
#[derive(Debug, Clone, Copy, PartialEq, Eq)]
pub struct SymbolBuilder {
    /// Offset of the symbol's name in the string table.
    pub name: StrtableOffset,
    /// The section that the symbol is defined in, if any.
    pub section: Option<SectionIndex>,
    pub global: bool,
    pub import: bool,
    /// Offset of the symbol in its section.
    pub offset: usize,
}

impl SymbolBuilder {
    /// A local symbol in no section, at offset 0, whose name is at `name` in
    /// the string table.
    pub fn new(name: StrtableOffset) -> (builder: Self)
        ensures
            builder == (SymbolBuilder {
                name,
                section: None,
                global: false,
                import: false,
                offset: 0,
            }),
    {
        SymbolBuilder { name, section: None, global: false, import: false, offset: 0 }
    }

    /// Sets the section that the symbol belongs to.
    pub fn section(self, section_index: SectionIndex) -> (builder: Self)
        ensures
            builder == (SymbolBuilder { section: Some(section_index), ..self }),
    {
        let mut builder = self;
        builder.section = Some(section_index);
        builder
    }

    /// Sets whether the symbol is global.
    pub fn global(self, global: bool) -> (builder: Self)
        ensures
            builder == (SymbolBuilder { global, ..self }),
    {
        let mut builder = self;
        builder.global = global;
        builder
    }

    /// Sets the offset of the symbol in its section.
    pub fn offset(self, offset: usize) -> (builder: Self)
        ensures
            builder == (SymbolBuilder { offset, ..self }),
    {
        let mut builder = self;
        builder.offset = offset;
        builder
    }

    /// The offset of the symbol in its section.
    pub fn get_offset(&self) -> (offset: usize)
        ensures
            offset == self.offset,
    {
        self.offset
    }

    /// Marks the symbol as an import.
    pub fn import(self) -> (builder: Self)
        ensures
            builder == (SymbolBuilder { import: true, ..self }),
    {
        let mut builder = self;
        builder.import = true;
        builder
    }

    /// The symbol table entry of the builder. An import is external, in no
    /// section and has the value 0, whatever else was set. Any other symbol
    /// has the type `N_SECT`, with the external bit if it is global, the
    /// 1-based ordinal of its section (0 without a section), and its offset
    /// as value.
    pub open spec fn nlist(self) -> Nlist {
        Nlist {
            n_strx: self.name,
            n_type: if self.import {
                0x01
            } else if self.global {
                0x0f
            } else {
                0x0e
            },
            n_sect: if self.import {
                0
            } else {
                match self.section {
                    Some(index) => (index + 1) as usize,
                    None => 0,
                }
            },
            n_desc: 0,
            n_value: if self.import {
                0
            } else {
                self.offset as u64
            },
        }
    }

    /// Finalizes the builder into its symbol table entry.
    pub fn create(self) -> (nlist: Nlist)
        requires
            self.section matches Some(index) ==> index < usize::MAX,
        ensures
            nlist == self.nlist(),
    {
        let n_strx = self.name;
        let mut n_sect: usize = 0;
        let mut n_type: u8 = N_UNDF;
        let mut n_value: u64 = self.offset as u64;
        let n_desc: u16 = 0;
        if self.global {
            n_type = n_type | N_EXT;
        } else {
            n_type = n_type & !N_EXT;
        }
        if let Some(index) = self.section {
            n_sect = index + 1;
            n_type = n_type | N_SECT;
        }
        if self.import {
            n_sect = NO_SECT as usize;
            n_type = N_EXT;
            n_value = 0;
        } else {
            n_type = n_type | N_SECT;
        }
        proof {
            assert(0u8 | 0x01u8 == 0x01u8) by (bit_vector);
            assert(0u8 & !0x01u8 == 0u8) by (bit_vector);
            assert(0u8 | 0x0eu8 == 0x0eu8) by (bit_vector);
            assert(0x01u8 | 0x0eu8 == 0x0fu8) by (bit_vector);
            assert(0x0eu8 | 0x0eu8 == 0x0eu8) by (bit_vector);
            assert(0x0fu8 | 0x0eu8 == 0x0fu8) by (bit_vector);
        }
        Nlist { n_strx, n_type, n_sect, n_desc, n_value }
    }
}

/// The kind of a symbol that is inserted into a symbol table.
#[derive(Debug, Clone, Copy, PartialEq, Eq)]
pub enum SymbolType {
    /// The symbol is defined in `section`, at `offset`.
    Defined { section: SectionIndex, offset: usize, global: bool },
    /// The symbol is an import.
    Undefined,
}

/// One entry of the model of a symbol table.
pub struct SymbolEntry {
    pub name: Seq<char>,
    pub symbol: SymbolBuilder,
}

/// The number of bytes that a name takes in the string table: an
/// underscore, the bytes of the name and a terminating zero byte.
pub open spec fn entry_size(name: Seq<char>) -> nat {
    encode_utf8(name).len() + 2
}

/// The size in bytes of the string table of a sequence of entries: the
/// leading zero byte and the size of each name.
pub open spec fn strtab_size(table: Seq<SymbolEntry>) -> nat
    decreases table.len(),
{
    if table.len() == 0 {
        1
    } else {
        strtab_size(table.drop_last()) + entry_size(table.last().name)
    }
}

/// The ordinal of the first entry with the name `name`.
pub open spec fn ordinal_of(table: Seq<SymbolEntry>, name: Seq<char>) -> Option<int>
    decreases table.len(),
{
    if table.len() == 0 {
        None
    } else {
        match ordinal_of(table.drop_last(), name) {
            Some(ordinal) => Some(ordinal),
            None => if table.last().name == name {
                Some(table.len() - 1)
            } else {
                None
            },
        }
    }
}

/// The offset in its section of the symbol with the name `name`.
pub open spec fn offset_of(table: Seq<SymbolEntry>, name: Seq<char>) -> Option<usize> {
    match ordinal_of(table, name) {
        Some(ordinal) => Some(table[ordinal].symbol.offset),
        None => None,
    }
}

/// The builder that is recorded for a symbol of kind `kind` whose name is at
/// `name` in the string table.
pub open spec fn symbol_for(kind: SymbolType, name: StrtableOffset) -> SymbolBuilder {
    match kind {
        SymbolType::Undefined => SymbolBuilder {
            name,
            section: None,
            global: true,
            import: true,
            offset: 0,
        },
        SymbolType::Defined { section, offset, global } => SymbolBuilder {
            name,
            section: Some(section),
            global,
            import: false,
            offset,
        },
    }
}

/// The table after the insertion of `name`. The empty name and a name that
/// the table has are ignored. A new name becomes the last entry, and its
/// symbol records the size of the string table before the insertion as the
/// offset of its name.
pub open spec fn table_insert(table: Seq<SymbolEntry>, name: Seq<char>, kind: SymbolType) -> Seq<
    SymbolEntry,
> {
    if name.len() == 0 || ordinal_of(table, name) is Some {
        table
    } else {
        table.push(SymbolEntry { name, symbol: symbol_for(kind, strtab_size(table) as usize) })
    }
}

/// What holds of the entries of every symbol table: no name is empty, no two
/// entries have the same name, each symbol records as the offset of its name
/// the size of the string table of the entries before it, and the size of
/// the whole string table is a `usize`.
pub open spec fn table_wf(table: Seq<SymbolEntry>) -> bool {
    &&& forall|i: int| 0 <= i < table.len() ==> (#[trigger] table[i]).name.len() > 0
    &&& forall|i: int, j: int|
        0 <= i < j < table.len() ==> (#[trigger] table[i]).name != (#[trigger] table[j]).name
    &&& forall|i: int|
        0 <= i < table.len() ==> (#[trigger] table[i]).symbol.name == strtab_size(table.take(i))
    &&& strtab_size(table) <= usize::MAX
}

/// A name is found at an ordinal exactly if that is the first entry with the
/// name; no ordinal is found exactly if no entry has the name.
pub proof fn lemma_ordinal_of(table: Seq<SymbolEntry>, name: Seq<char>)
    ensures
        match ordinal_of(table, name) {
            Some(ordinal) => {
                &&& 0 <= ordinal < table.len()
                &&& table[ordinal].name == name
                &&& forall|i: int| 0 <= i < ordinal ==> (#[trigger] table[i]).name != name
            },
            None => forall|i: int| 0 <= i < table.len() ==> (#[trigger] table[i]).name != name,
        },
    decreases table.len(),
{
    if table.len() > 0 {
        lemma_ordinal_of(table.drop_last(), name);
        assert forall|i: int| 0 <= i < table.len() - 1 implies table[i] == table.drop_last()[i] by {
        }
    }
}

/// In a table without repeated names, the ordinal of the name of an entry is
/// the position of the entry.
pub proof fn lemma_ordinal_of_entry(table: Seq<SymbolEntry>, i: int)
    requires
        table_wf(table),
        0 <= i < table.len(),
    ensures
        ordinal_of(table, table[i].name) == Some(i),
{
    lemma_ordinal_of(table, table[i].name);
}

/// The string table grows with the table: the size for a prefix is at most
/// the size for the whole, and smaller by at least two for a proper prefix.
pub proof fn lemma_strtab_size_prefix(table: Seq<SymbolEntry>, i: int)
    requires
        0 <= i <= table.len(),
    ensures
        1 <= strtab_size(table.take(i)) <= strtab_size(table),
        i < table.len() ==> strtab_size(table.take(i)) + entry_size(table[i].name) <= strtab_size(
            table,
        ),
    decreases table.len(),
{
    if i == table.len() {
        assert(table.take(i) =~= table);
        lemma_strtab_size_positive(table);
    } else {
        assert(table.drop_last().take(i) =~= table.take(i));
        lemma_strtab_size_prefix(table.drop_last(), i);
        if i == table.len() - 1 {
            assert(table.take(i) =~= table.drop_last());
        }
    }
}

/// A string table has at least its leading zero byte.
pub proof fn lemma_strtab_size_positive(table: Seq<SymbolEntry>)
    ensures
        strtab_size(table) >= 1,
    decreases table.len(),
{
    if table.len() > 0 {
        lemma_strtab_size_positive(table.drop_last());
    }
}

/// Insertion leaves the entries that were there in place and adds at most
/// one; the string table grows by the size of a name that is added.
pub proof fn lemma_table_insert_size(table: Seq<SymbolEntry>, name: Seq<char>, kind: SymbolType)
    ensures
        ({
            let after = table_insert(table, name, kind);
            &&& after == table || after == table.push(after.last())
            &&& after == table ==> strtab_size(after) == strtab_size(table)
            &&& after != table ==> after.len() == table.len() + 1 && after.last().name == name
                && strtab_size(after) == strtab_size(table) + entry_size(name)
        }),
{
    let after = table_insert(table, name, kind);
    if after != table {
        assert(after.drop_last() =~= table);
    }
}

/// Insertion keeps a table well-formed, as long as the string table still
/// fits in a `usize`.
pub proof fn lemma_table_insert_wf(table: Seq<SymbolEntry>, name: Seq<char>, kind: SymbolType)
    requires
        table_wf(table),
        strtab_size(table_insert(table, name, kind)) <= usize::MAX,
    ensures
        table_wf(table_insert(table, name, kind)),
{
    let after = table_insert(table, name, kind);
    if after != table {
        lemma_ordinal_of(table, name);
        let n = table.len() as int;
        assert(after.drop_last() =~= table);
        assert forall|i: int| 0 <= i < after.len() implies (#[trigger] after[i]).symbol.name
            == strtab_size(after.take(i)) by {
            if i < n {
                assert(after.take(i) =~= table.take(i));
                assert(after[i] == table[i]);
            } else {
                assert(after.take(i) =~= table);
            }
        }
        assert forall|i: int, j: int| 0 <= i < j < after.len() implies (#[trigger] after[i]).name
            != (#[trigger] after[j]).name by {
            if j < n {
                assert(after[i] == table[i] && after[j] == table[j]);
            } else {
                assert(after[i] == table[i]);
            }
        }
    }
}

/// A symbol table: the symbols of an object file in ordinal order, found by
/// name, with the size of the string table that will hold their names.
#[derive(Debug)]
pub struct SymbolTable {
    symbols: OrderMap<usize, SymbolBuilder, RandomState>,
    strtable: StrTable,
    indexes: OrderMap<usize, SymbolIndex, RandomState>,
    strtable_size: StrtableOffset,
}

impl SymbolTable {
    /// The entries of the table in ordinal order.
    pub closed spec fn view(&self) -> Seq<SymbolEntry> {
        Seq::new(
            symbol_entries(self.symbols).len(),
            |i: int|
                SymbolEntry {
                    name: interned(self.strtable)[i + 1],
                    symbol: symbol_entries(self.symbols)[i].1,
                },
        )
    }

    /// The invariant of the table. The interner holds the empty string in
    /// slot 0 and then the names of the entries, without repetition. Both
    /// maps are keyed by the slots of the names, in order, and the second
    /// one maps each slot to its ordinal. The recorded size is that of the
    /// string table, and the entries are well-formed.
    pub closed spec fn wf(&self) -> bool {
        let names = interned(self.strtable);
        let symbols = symbol_entries(self.symbols);
        let ordinals = ordinal_entries(self.indexes);
        &&& names.len() == symbols.len() + 1
        &&& ordinals.len() == symbols.len()
        &&& names[0].len() == 0
        &&& forall|i: int, j: int| 0 <= i < j < names.len() ==> names[i] != names[j]
        &&& forall|i: int| 0 <= i < symbols.len() ==> (#[trigger] symbols[i]).0 == i + 1
        &&& forall|i: int|
            0 <= i < ordinals.len() ==> (#[trigger] ordinals[i]).0 == i + 1 && ordinals[i].1 == i
        &&& self.strtable_size == strtab_size(self@)
        &&& table_wf(self@)
    }

    /// The entries of a table that meets its invariant are well-formed.
    pub proof fn lemma_wf(&self)
        requires
            self.wf(),
        ensures
            table_wf(self@),
    {
    }

    /// A table without symbols. The string table of it is the one zero byte.
    pub fn new() -> (table: Self)
        ensures
            table.wf(),
            table@ == Seq::<SymbolEntry>::empty(),
    {
        let mut strtable = interner_new();
        proof {
            reveal_strlit("");
        }
        // the first string of every string table is the empty one
        interner_get_or_intern(&mut strtable, "");
        let table = SymbolTable {
            symbols: symbols_new(),
            strtable,
            strtable_size: 1,
            indexes: ordinals_new(),
        };
        proof {
            let names = interned(table.strtable);
            assert(names =~= Seq::<Seq<char>>::empty().push(""@));
            assert(table@ =~= Seq::<SymbolEntry>::empty());
        }
        table
    }

    /// The number of symbols in the table.
    pub fn len(&self) -> (len: usize)
        ensures
            len == self@.len(),
    {
        symbols_len(&self.symbols)
    }

    /// The size in bytes of the string table.
    pub fn sizeof_strtable(&self) -> (size: usize)
        requires
            self.wf(),
        ensures
            size == strtab_size(self@),
    {
        self.strtable_size
    }

    /// The offset in its section of the symbol with the name `symbol_name`,
    /// if the table has one.
    pub fn offset(&self, symbol_name: &str) -> (offset: Option<usize>)
        requires
            self.wf(),
        ensures
            offset == offset_of(self@, symbol_name@),
    {
        proof {
            self.lemma_find(symbol_name@);
        }
        match interner_get(&self.strtable, symbol_name) {
            Some(slot) => match symbols_get(&self.symbols, slot) {
                Some(symbol) => Some(symbol.get_offset()),
                None => None,
            },
            None => None,
        }
    }

    /// The ordinal of the symbol with the name `symbol_name`, if the table
    /// has one.
    pub fn index(&self, symbol_name: &str) -> (index: Option<SymbolIndex>)
        requires
            self.wf(),
        ensures
            match index {
                Some(ordinal) => ordinal_of(self@, symbol_name@) == Some(ordinal as int),
                None => ordinal_of(self@, symbol_name@) is None,
            },
    {
        proof {
            self.lemma_find(symbol_name@);
        }
        match interner_get(&self.strtable, symbol_name) {
            Some(slot) => {
                let found = ordinals_get(&self.indexes, slot);
                proof {
                    if slot > 0 {
                        assert(ordinal_entries(self.indexes)[slot - 1].0 == slot);
                    }
                }
                found
            },
            None => None,
        }
    }

    /// Inserts a symbol with the name `symbol_name`. The empty name and a
    /// name that the table has are ignored: the first insertion of a name
    /// wins.
    pub fn insert(&mut self, symbol_name: &str, kind: SymbolType)
        requires
            old(self).wf(),
            strtab_size(table_insert(old(self)@, symbol_name@, kind)) <= usize::MAX,
        ensures
            final(self).wf(),
            final(self)@ == table_insert(old(self)@, symbol_name@, kind),
    {
        proof {
            self.lemma_find(symbol_name@);
            lemma_table_insert_size(self@, symbol_name@, kind);
        }
        let ghost before = self@;
        let ghost names = interned(self.strtable);
        let last_index = interner_len(&self.strtable);
        let name_index = interner_get_or_intern(&mut self.strtable, symbol_name);
        // the string is new: the slots are handed out in sequence
        if name_index == last_index {
            // one byte for the underscore and one for the terminator
            let name_len = symbol_name.len() + 1 + 1;
            let builder = match kind {
                SymbolType::Undefined => SymbolBuilder::new(self.strtable_size).global(
                    true,
                ).import(),
                SymbolType::Defined { section, offset, global } => SymbolBuilder::new(
                    self.strtable_size,
                ).global(global).offset(offset).section(section),
            };
            symbols_insert(&mut self.symbols, name_index, builder);
            let ordinal = symbols_len(&self.symbols) - 1;
            ordinals_insert(&mut self.indexes, name_index, ordinal);
            self.strtable_size += name_len;
            proof {
                let after = table_insert(before, symbol_name@, kind);
                assert(interned(self.strtable) == names.push(symbol_name@));
                assert(self@ =~= after);
                assert(after.drop_last() =~= before);
                lemma_table_insert_wf(before, symbol_name@, kind);
            }
        } else {
            proof {
                assert(self@ =~= before);
            }
        }
    }

    /// Takes the table apart: the builders of the symbols in ordinal order,
    /// and the strings of the interner, the empty one first.
    pub(crate) fn into_symbols(self) -> (parts: (Vec<SymbolBuilder>, Vec<String>))
        requires
            self.wf(),
        ensures
            parts.0@.len() == self@.len(),
            parts.1@.len() == self@.len() + 1,
            parts.1@[0]@.len() == 0,
            forall|i: int| 0 <= i < self@.len() ==> (#[trigger] parts.0@[i]) == self@[i].symbol,
            forall|i: int| 0 <= i < self@.len() ==> (#[trigger] parts.1@[i + 1])@ == self@[i].name,
    {
        let symbols = symbols_into_values(self.symbols);
        let names = interner_into_strings(self.strtable);
        (symbols, names)
    }

    /// How a name is found through the interner and the two maps.
    proof fn lemma_find(&self, name: Seq<char>)
        requires
            self.wf(),
        ensures
            ({
                let names = interned(self.strtable);
                let symbols = symbol_entries(self.symbols);
                let ordinals = ordinal_entries(self.indexes);
                &&& !names.contains(name) ==> name.len() > 0 && ordinal_of(self@, name) is None
                &&& forall|slot: int|
                    0 <= slot < names.len() && names[slot] == name ==> {
                        &&& slot == 0 <==> name.len() == 0
                        &&& slot == 0 ==> ordinal_of(self@, name) is None && !has_key(
                            symbols,
                            slot as usize,
                        ) && !has_key(ordinals, slot as usize)
                        &&& slot > 0 ==> ordinal_of(self@, name) == Some(slot - 1)
                        &&& forall|i: int|
                            0 <= i < symbols.len() && (#[trigger] symbols[i]).0 == slot ==> i
                                == slot - 1
                        &&& forall|i: int|
                            0 <= i < ordinals.len() && (#[trigger] ordinals[i]).0 == slot ==> i
                                == slot - 1
                    }
            }),
    {
        let names = interned(self.strtable);
        let table = self@;
        lemma_ordinal_of(table, name);
        if !names.contains(name) {
            if name.len() == 0 {
                assert(names[0] =~= name);
            }
            assert forall|i: int| 0 <= i < table.len() implies (#[trigger] table[i]).name
                != name by {
                assert(names[i + 1] == table[i].name);
            }
        }
        assert forall|slot: int| 0 <= slot < names.len() && names[slot] == name implies {
            &&& slot == 0 <==> name.len() == 0
            &&& slot == 0 ==> ordinal_of(table, name) is None
            &&& slot > 0 ==> ordinal_of(table, name) == Some(slot - 1)
        } by {
            if slot > 0 {
                assert(table[slot - 1].name == name);
                lemma_ordinal_of_entry(table, slot - 1);
            } else {
                assert forall|i: int| 0 <= i < table.len() implies (#[trigger] table[i]).name
                    != name by {}
            }
        }
    }
}

} // verus!
