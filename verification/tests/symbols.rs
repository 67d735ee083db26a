use goblin::mach::symbols::{NO_SECT, N_EXT, N_SECT, N_UNDF};
use macho_writer::records;
use macho_writer::{Nlist, SymbolBuilder, SymbolTable, SymbolType};

#[test]
fn type_bits_are_those_of_the_format() {
    assert_eq!(records::N_EXT, N_EXT);
    assert_eq!(records::N_SECT, N_SECT);
    assert_eq!(records::N_UNDF, N_UNDF);
    assert_eq!(records::NO_SECT, NO_SECT);
}

#[test]
fn builder_starts_local_and_outside_any_section() {
    let builder = SymbolBuilder::new(5);
    assert_eq!(builder.name, 5);
    assert_eq!(builder.section, None);
    assert!(!builder.global);
    assert!(!builder.import);
    assert_eq!(builder.get_offset(), 0);
    let builder = builder.section(1).global(true).offset(12);
    assert_eq!(builder.section, Some(1));
    assert!(builder.global);
    assert_eq!(builder.get_offset(), 12);
    assert!(builder.import().import);
}

#[test]
fn defined_global_symbol() {
    let nlist = SymbolBuilder::new(1).global(true).offset(0).section(0).create();
    assert_eq!(
        nlist,
        Nlist { n_strx: 1, n_type: N_SECT | N_EXT, n_sect: 1, n_desc: 0, n_value: 0 }
    );
}

#[test]
fn defined_local_symbol() {
    let nlist = SymbolBuilder::new(9).global(false).offset(40).section(1).create();
    assert_eq!(nlist, Nlist { n_strx: 9, n_type: N_SECT, n_sect: 2, n_desc: 0, n_value: 40 });
}

#[test]
fn symbol_without_a_section_is_still_typed_as_defined() {
    let nlist = SymbolBuilder::new(2).offset(3).create();
    assert_eq!(nlist, Nlist { n_strx: 2, n_type: N_SECT, n_sect: 0, n_desc: 0, n_value: 3 });
}

#[test]
fn import_overrides_everything_else() {
    let nlist = SymbolBuilder::new(7).global(true).import().create();
    assert_eq!(nlist, Nlist { n_strx: 7, n_type: N_EXT, n_sect: 0, n_desc: 0, n_value: 0 });
    let nlist = SymbolBuilder::new(7).global(false).offset(8).section(1).import().create();
    assert_eq!(nlist, Nlist { n_strx: 7, n_type: N_EXT, n_sect: 0, n_desc: 0, n_value: 0 });
}

#[test]
fn new_table_holds_the_empty_string_only() {
    let table = SymbolTable::new();
    assert_eq!(table.len(), 0);
    assert_eq!(table.sizeof_strtable(), 1);
    assert_eq!(table.offset(""), None);
    assert_eq!(table.index(""), None);
    assert_eq!(table.index("main"), None);
}

#[test]
fn insert_records_ordinals_and_string_offsets() {
    let mut table = SymbolTable::new();
    table.insert("main", SymbolType::Defined { section: 0, offset: 0, global: true });
    assert_eq!(table.len(), 1);
    assert_eq!(table.sizeof_strtable(), 1 + 4 + 2);
    table.insert("counter", SymbolType::Defined { section: 1, offset: 24, global: false });
    assert_eq!(table.len(), 2);
    assert_eq!(table.sizeof_strtable(), 1 + 4 + 2 + 7 + 2);
    table.insert("puts", SymbolType::Undefined);
    assert_eq!(table.len(), 3);
    assert_eq!(table.sizeof_strtable(), 1 + 4 + 2 + 7 + 2 + 4 + 2);
    assert_eq!(table.index("main"), Some(0));
    assert_eq!(table.index("counter"), Some(1));
    assert_eq!(table.index("puts"), Some(2));
    assert_eq!(table.index("gets"), None);
    assert_eq!(table.offset("main"), Some(0));
    assert_eq!(table.offset("counter"), Some(24));
    assert_eq!(table.offset("puts"), Some(0));
    assert_eq!(table.offset("gets"), None);
}

#[test]
fn duplicate_insert_is_ignored() {
    let mut table = SymbolTable::new();
    table.insert("f", SymbolType::Defined { section: 0, offset: 4, global: true });
    let len = table.len();
    let size = table.sizeof_strtable();
    table.insert("f", SymbolType::Defined { section: 1, offset: 99, global: false });
    assert_eq!(table.len(), len);
    assert_eq!(table.sizeof_strtable(), size);
    assert_eq!(table.offset("f"), Some(4));
    assert_eq!(table.index("f"), Some(0));
    table.insert("f", SymbolType::Undefined);
    assert_eq!(table.len(), 1);
    assert_eq!(table.offset("f"), Some(4));
}

#[test]
fn empty_name_is_never_a_symbol() {
    let mut table = SymbolTable::new();
    table.insert("", SymbolType::Undefined);
    assert_eq!(table.len(), 0);
    assert_eq!(table.sizeof_strtable(), 1);
    assert_eq!(table.index(""), None);
    assert_eq!(table.offset(""), None);
}

#[test]
fn names_are_counted_in_bytes() {
    let mut table = SymbolTable::new();
    table.insert("\u{00e9}t\u{00e9}", SymbolType::Undefined);
    assert_eq!(table.sizeof_strtable(), 1 + 5 + 2);
    assert_eq!(table.index("\u{00e9}t\u{00e9}"), Some(0));
    assert_eq!(table.index("ete"), None);
}
