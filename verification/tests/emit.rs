use goblin::mach::relocation::{
    X86_64_RELOC_BRANCH, X86_64_RELOC_GOT_LOAD, X86_64_RELOC_SIGNED,
};
use goblin::mach::MachO;
use macho_writer::{Artifact, Decl, Definition, ImportKind, Link, Mach, Prop, Target};

fn code<'a>(name: &'a str, data: &'a [u8], global: bool) -> Definition<'a> {
    Definition { name, data, prop: Prop { global, function: true } }
}

fn data<'a>(name: &'a str, data: &'a [u8], global: bool) -> Definition<'a> {
    Definition { name, data, prop: Prop { global, function: false } }
}

fn link<'a>(from: &'a str, to: &'a str, to_decl: Decl, at: usize) -> Link<'a> {
    Link { from, to, to_decl, at }
}

const WIDE_COMMANDS: usize = 32 + 72 + 2 * 80 + 24;
const NARROW_COMMANDS: usize = 28 + 56 + 2 * 68 + 24;

/// An artifact that exercises everything: code and data out of order, a
/// repeated name, imports, and links of which one names a missing symbol.
fn sample<'a>() -> Artifact<'a> {
    Artifact {
        target: Target::X86_64,
        definitions: vec![
            data("table", &[1, 2, 3, 4, 5, 6, 7, 8], false),
            code("main", &[0x90, 0x90, 0x90, 0xc3], true),
            code("helper", &[0xc3], false),
            data("message", b"hi\0", true),
            code("main", &[0xcc, 0xcc], true),
        ],
        imports: vec![("puts", ImportKind::Function), ("environ", ImportKind::Data)],
        links: vec![
            link("main", "helper", Decl::Function, 1),
            link("main", "puts", Decl::FunctionImport, 2),
            link("helper", "environ", Decl::DataImport, 0),
            link("main", "nowhere", Decl::Function, 3),
            link("main", "message", Decl::CString, 0),
        ],
    }
}

#[test]
fn empty_artifact_has_only_commands_and_two_bytes() {
    let artifact =
        Artifact { target: Target::X86_64, definitions: vec![], imports: vec![], links: vec![] };
    let bytes = Mach::to_bytes(&artifact);
    assert_eq!(bytes.len(), 32 + (72 + 2 * 80) + 24 + 1 + 1);
    assert_eq!(bytes[bytes.len() - 2], 0);
    assert_eq!(bytes[bytes.len() - 1], 0);
    let object = MachO::parse(&bytes, 0).unwrap();
    assert!(object.is_object_file());
    assert_eq!(object.header.ncmds, 2);
    assert_eq!(object.header.sizeofcmds, 72 + 2 * 80 + 24);
    assert_eq!(object.symbols().count(), 0);
    let sections = object.segments[0].sections().unwrap();
    assert_eq!(sections.len(), 2);
    assert_eq!(sections[0].0.size, 0);
    assert_eq!(sections[1].0.size, 0);
    match &object.load_commands[1].command {
        goblin::mach::load_command::CommandVariant::Symtab(symtab) => {
            assert_eq!(symtab.nsyms, 0);
            assert_eq!(symtab.strsize, 1);
            assert_eq!(symtab.symoff as usize, WIDE_COMMANDS);
            assert_eq!(symtab.stroff as usize, WIDE_COMMANDS);
        },
        _ => panic!("the second load command is the symbol table"),
    }
}

#[test]
fn one_global_function() {
    let body = [0x90u8, 0x90, 0x90, 0xc3];
    let artifact = Artifact {
        target: Target::X86_64,
        definitions: vec![code("main", &body, true)],
        imports: vec![],
        links: vec![],
    };
    let bytes = Mach::to_bytes(&artifact);
    let object = MachO::parse(&bytes, 0).unwrap();
    let sections = object.segments[0].sections().unwrap();
    assert_eq!(sections.len(), 2);
    assert_eq!(sections[0].0.name().unwrap(), "__text");
    assert_eq!(sections[0].0.segname().unwrap(), "__TEXT");
    assert_eq!(sections[0].0.size, 4);
    assert_eq!(sections[0].1, &body[..]);
    assert_eq!(sections[1].0.name().unwrap(), "__data");
    assert_eq!(sections[1].0.segname().unwrap(), "__DATA");
    assert_eq!(sections[1].0.size, 0);
    let symbols: Vec<_> = object.symbols().map(|s| s.unwrap()).collect();
    assert_eq!(symbols.len(), 1);
    let (name, nlist) = &symbols[0];
    assert_eq!(*name, "_main");
    assert_eq!(nlist.n_type, 0x0e | 0x01);
    assert_eq!(nlist.n_sect, 1);
    assert_eq!(nlist.n_value, 0);
    assert_eq!(nlist.n_strx, 1);
    let strtab = WIDE_COMMANDS + 4 + 16;
    assert_eq!(&bytes[strtab..strtab + 7], b"\0_main\0");
    assert_eq!(bytes.len(), strtab + 7 + 1);
}

#[test]
fn function_calling_an_import() {
    let artifact = Artifact {
        target: Target::X86_64,
        definitions: vec![code("f", &[0xe8, 0x00], true)],
        imports: vec![("g", ImportKind::Function)],
        links: vec![link("f", "g", Decl::FunctionImport, 1)],
    };
    let bytes = Mach::to_bytes(&artifact);
    let object = MachO::parse(&bytes, 0).unwrap();
    let symbols: Vec<_> = object.symbols().map(|s| s.unwrap()).collect();
    assert_eq!(symbols.len(), 2);
    assert_eq!(symbols[0].0, "_f");
    assert_eq!(symbols[0].1.n_sect, 1);
    assert!(symbols[0].1.is_global());
    assert_eq!(symbols[1].0, "_g");
    assert_eq!(symbols[1].1.n_type, 0x01);
    assert_eq!(symbols[1].1.n_sect, 0);
    assert_eq!(symbols[1].1.n_value, 0);
    assert!(symbols[1].1.is_undefined());
    let groups = object.relocations().unwrap();
    assert_eq!(groups.len(), 1);
    let (section, records, _) = groups.into_iter().next().unwrap();
    assert_eq!(section, 0);
    let records: Vec<_> = records.map(|r| r.unwrap()).collect();
    assert_eq!(records.len(), 1);
    assert_eq!(records[0].r_address, 1);
    assert_eq!(records[0].r_symbolnum(), 1);
    assert_eq!(records[0].r_type(), X86_64_RELOC_BRANCH);
    assert_eq!(records[0].r_pcrel(), 1);
    assert_eq!(records[0].r_length(), 2);
    assert_eq!(records[0].r_extern(), 1);
}

#[test]
fn link_from_data_goes_to_the_text_group() {
    let artifact = Artifact {
        target: Target::X86_64,
        definitions: vec![
            code("f", &[0x90, 0x90, 0x90, 0xc3], true),
            data("d", &[0; 8], true),
        ],
        imports: vec![],
        links: vec![link("d", "f", Decl::Function, 0)],
    };
    let bytes = Mach::to_bytes(&artifact);
    let object = MachO::parse(&bytes, 0).unwrap();
    let sections = object.segments[0].sections().unwrap();
    assert_eq!(sections[1].0.size, 8);
    assert_eq!(sections[0].0.nreloc, 1);
    assert_eq!(sections[1].0.nreloc, 0);
    let symbols: Vec<_> = object.symbols().map(|s| s.unwrap()).collect();
    // the offsets of the data symbols go on from the end of the code
    assert_eq!(symbols[1].0, "_d");
    assert_eq!(symbols[1].1.n_sect, 2);
    assert_eq!(symbols[1].1.n_value, 4);
    let groups = object.relocations().unwrap();
    assert_eq!(groups.len(), 1);
    let (section, records, _) = groups.into_iter().next().unwrap();
    assert_eq!(section, 0);
    let records: Vec<_> = records.map(|r| r.unwrap()).collect();
    assert_eq!(records.len(), 1);
    assert_eq!(records[0].r_address, 4);
    assert_eq!(records[0].r_symbolnum(), 0);
    assert_eq!(records[0].r_type(), X86_64_RELOC_BRANCH);
}

#[test]
fn imported_data_is_loaded_from_the_offset_table() {
    let artifact = Artifact {
        target: Target::X86_64,
        definitions: vec![code("f", &[0x48, 0x8b, 0x05, 0, 0, 0, 0, 0xc3], true)],
        imports: vec![("x", ImportKind::Data)],
        links: vec![link("f", "x", Decl::DataImport, 3)],
    };
    let bytes = Mach::to_bytes(&artifact);
    let object = MachO::parse(&bytes, 0).unwrap();
    let (_, records, _) = object.relocations().unwrap().into_iter().next().unwrap();
    let records: Vec<_> = records.map(|r| r.unwrap()).collect();
    assert_eq!(records.len(), 1);
    assert_eq!(records[0].r_type(), X86_64_RELOC_GOT_LOAD);
    assert_eq!(records[0].r_address, 3);
    assert_eq!(records[0].r_symbolnum(), 1);
}

#[test]
fn data_and_strings_are_signed_displacements() {
    let artifact = Artifact {
        target: Target::X86_64,
        definitions: vec![
            code("f", &[0; 16], true),
            data("d", &[0; 4], false),
            data("s", b"a\0", false),
        ],
        imports: vec![],
        links: vec![link("f", "d", Decl::Data, 2), link("f", "s", Decl::CString, 9)],
    };
    let bytes = Mach::to_bytes(&artifact);
    let object = MachO::parse(&bytes, 0).unwrap();
    let (_, records, _) = object.relocations().unwrap().into_iter().next().unwrap();
    let records: Vec<_> = records.map(|r| r.unwrap()).collect();
    assert_eq!(records.len(), 2);
    assert_eq!(records[0].r_type(), X86_64_RELOC_SIGNED);
    assert_eq!(records[0].r_symbolnum(), 1);
    assert_eq!(records[0].r_address, 2);
    assert_eq!(records[1].r_type(), X86_64_RELOC_SIGNED);
    assert_eq!(records[1].r_symbolnum(), 2);
    assert_eq!(records[1].r_address, 9);
}

#[test]
fn file_ends_one_byte_after_the_relocations() {
    let artifact = sample();
    let bytes = Mach::to_bytes(&artifact);
    // symbols: main, helper, table, message, puts, environ
    let payload = 4 + 1 + 2 + 8 + 3;
    let symtable_offset = WIDE_COMMANDS + payload;
    let strtable_offset = symtable_offset + 6 * 16;
    let strtable_size = 1 + (4 + 2) + (6 + 2) + (5 + 2) + (7 + 2) + (4 + 2) + (7 + 2);
    let relocation_offset_start = strtable_offset + strtable_size;
    // the link to the missing symbol gives no record
    let nrelocs = 4;
    assert_eq!(bytes.len(), relocation_offset_start + nrelocs * 8 + 1);
    assert_eq!(bytes[bytes.len() - 1], 0);
    let mach = Mach::new(&artifact);
    let layout = mach.layout();
    assert_eq!(layout.segment_lc_size, 72 + 2 * 80);
    assert_eq!(layout.sizeof_load_commands, 72 + 2 * 80 + 24);
    assert_eq!(layout.first_section_offset, WIDE_COMMANDS);
    assert_eq!(layout.symtable_offset, symtable_offset);
    assert_eq!(layout.strtable_offset, strtable_offset);
    assert_eq!(layout.relocation_offset_start, relocation_offset_start);
}

#[test]
fn sections_end_before_the_symbol_table() {
    let artifact = sample();
    let bytes = Mach::to_bytes(&artifact);
    let symtable_offset = Mach::new(&artifact).layout().symtable_offset as u64;
    let object = MachO::parse(&bytes, 0).unwrap();
    let sections = object.segments[0].sections().unwrap();
    assert_eq!(sections[0].0.offset as usize, WIDE_COMMANDS);
    assert_eq!(sections[0].0.size, 7);
    assert_eq!(sections[1].0.offset as usize, WIDE_COMMANDS + 7);
    assert_eq!(sections[1].0.size, 11);
    for (section, _) in &sections {
        assert!(section.offset as u64 + section.size <= symtable_offset);
    }
    // the payloads are written in order, code before data
    assert_eq!(sections[0].1, &[0x90, 0x90, 0x90, 0xc3, 0xc3, 0xcc, 0xcc][..]);
    assert_eq!(sections[1].1, &[1, 2, 3, 4, 5, 6, 7, 8, b'h', b'i', 0][..]);
}

#[test]
fn every_symbol_name_starts_with_an_underscore() {
    let artifact = sample();
    let bytes = Mach::to_bytes(&artifact);
    let layout = Mach::new(&artifact).layout();
    let strtable_size = layout.relocation_offset_start - layout.strtable_offset;
    assert_eq!(bytes[layout.strtable_offset], 0);
    let object = MachO::parse(&bytes, 0).unwrap();
    let names = ["main", "helper", "table", "message", "puts", "environ"];
    let mut count = 0;
    for (symbol, expected) in object.symbols().zip(names.iter()) {
        let (name, nlist) = symbol.unwrap();
        assert!(nlist.n_strx < strtable_size);
        assert_eq!(bytes[layout.strtable_offset + nlist.n_strx], 0x5f);
        assert_eq!(&name[1..], *expected);
        let end = layout.strtable_offset + nlist.n_strx + 1 + expected.len();
        assert_eq!(bytes[end], 0);
        count += 1;
    }
    assert_eq!(count, 6);
}

#[test]
fn relocations_refer_to_symbols_and_are_external() {
    let artifact = sample();
    let bytes = Mach::to_bytes(&artifact);
    let object = MachO::parse(&bytes, 0).unwrap();
    let nsyms = object.symbols().count();
    let groups = object.relocations().unwrap();
    assert_eq!(groups.len(), 1);
    let (_, records, _) = groups.into_iter().next().unwrap();
    let records: Vec<_> = records.map(|r| r.unwrap()).collect();
    assert_eq!(records.len(), 4);
    for record in &records {
        assert!(record.r_symbolnum() < nsyms);
        assert_eq!(record.r_extern(), 1);
        assert_eq!(record.r_pcrel(), 1);
        assert_eq!(record.r_length(), 2);
    }
    let targets: Vec<usize> = records.iter().map(|r| r.r_symbolnum()).collect();
    assert_eq!(targets, vec![1, 4, 5, 3]);
    let places: Vec<i32> = records.iter().map(|r| r.r_address).collect();
    // helper starts at offset 4 of the code
    assert_eq!(places, vec![1, 2, 4, 0]);
}

#[test]
fn header_counts_two_load_commands() {
    let wide = Mach::to_bytes(&sample());
    let object = MachO::parse(&wide, 0).unwrap();
    assert_eq!(object.header.ncmds, 2);
    assert_eq!(object.header.sizeofcmds, (72 + 2 * 80) + 24);
    assert_eq!(object.header.filetype, goblin::mach::header::MH_OBJECT);
    assert_eq!(object.header.flags, goblin::mach::header::MH_SUBSECTIONS_VIA_SYMBOLS);
    assert_eq!(object.header.cputype, goblin::mach::cputype::CPU_TYPE_X86_64);
    assert_eq!(object.header.cpusubtype, 3);
    assert_eq!(object.load_commands.len(), 2);
    assert_eq!(object.load_commands[0].command.cmdsize(), 72 + 2 * 80);
    assert_eq!(object.load_commands[1].command.cmdsize(), 24);

    let mut narrow = sample();
    narrow.target = Target::X86;
    let narrow = Mach::to_bytes(&narrow);
    let object = MachO::parse(&narrow, 0).unwrap();
    assert!(!object.is_64);
    assert_eq!(object.header.ncmds, 2);
    assert_eq!(object.header.sizeofcmds, (56 + 2 * 68) + 24);
    assert_eq!(object.header.cputype, goblin::mach::cputype::CPU_TYPE_X86);
}

#[test]
fn a_reader_finds_what_was_written() {
    let artifact = sample();
    let bytes = Mach::to_bytes(&artifact);
    let object = MachO::parse(&bytes, 0).unwrap();
    assert!(object.is_64);
    assert!(object.little_endian);
    assert_eq!(object.segments.len(), 1);
    let segment = &object.segments[0];
    assert_eq!(segment.nsects, 2);
    assert_eq!(segment.initprot, 7);
    assert_eq!(segment.maxprot, 7);
    assert_eq!(segment.filesize, 18);
    assert_eq!(segment.vmsize, 18);
    assert_eq!(segment.fileoff as usize, WIDE_COMMANDS);
    let sections = segment.sections().unwrap();
    assert_eq!(sections[0].0.name().unwrap(), "__text");
    assert_eq!(sections[0].0.segname().unwrap(), "__TEXT");
    assert_eq!(sections[0].0.addr, 0);
    assert_eq!(sections[0].0.align, 4);
    assert_eq!(sections[0].0.flags, 0x8000_0400);
    assert_eq!(sections[1].0.name().unwrap(), "__data");
    assert_eq!(sections[1].0.segname().unwrap(), "__DATA");
    assert_eq!(sections[1].0.addr, 7);
    let symbols: Vec<_> = object.symbols().map(|s| s.unwrap()).collect();
    let names: Vec<&str> = symbols.iter().map(|s| s.0).collect();
    assert_eq!(names, vec!["_main", "_helper", "_table", "_message", "_puts", "_environ"]);
    let values: Vec<u64> = symbols.iter().map(|s| s.1.n_value).collect();
    // the second definition of main is ignored; its payload still counts
    assert_eq!(values, vec![0, 4, 7, 15, 0, 0]);
    let sects: Vec<usize> = symbols.iter().map(|s| s.1.n_sect).collect();
    assert_eq!(sects, vec![1, 1, 2, 2, 0, 0]);
    let types: Vec<u8> = symbols.iter().map(|s| s.1.n_type).collect();
    assert_eq!(types, vec![0x0f, 0x0e, 0x0e, 0x0f, 0x01, 0x01]);
    // every link target that was found is the symbol with that ordinal
    let (_, records, section) = object.relocations().unwrap().into_iter().next().unwrap();
    let found = ["helper", "puts", "environ", "message"];
    for (record, target) in records.zip(found.iter()) {
        let record = record.unwrap();
        assert_eq!(&names[record.r_symbolnum()][1..], *target);
        let place = record.r_address as u64 + section.offset as u64;
        assert!(place < section.offset as u64 + section.size);
    }
}

#[test]
fn writing_twice_gives_the_same_bytes() {
    let artifact = sample();
    let first = Mach::to_bytes(&artifact);
    let second = Mach::to_bytes(&artifact);
    assert_eq!(first, second);
    let again = sample();
    assert_eq!(first, Mach::to_bytes(&again));
}

#[test]
fn write_appends_to_what_the_sink_holds() {
    let artifact = sample();
    let alone = Mach::to_bytes(&artifact);
    let mut sink = vec![0xaau8, 0xbb];
    Mach::new(&artifact).write(&mut sink);
    assert_eq!(&sink[..2], &[0xaa, 0xbb]);
    assert_eq!(&sink[2..], &alone[..]);
}

#[test]
fn narrow_container_has_narrow_records() {
    let body = [0u8; 5];
    let artifact = Artifact {
        target: Target::ARMv7,
        definitions: vec![code("f", &body, true)],
        imports: vec![("g", ImportKind::Function)],
        links: vec![link("f", "g", Decl::FunctionImport, 1)],
    };
    let bytes = Mach::to_bytes(&artifact);
    let strtab = 1 + 3 + 3;
    assert_eq!(bytes.len(), NARROW_COMMANDS + 5 + 2 * 12 + strtab + 8 + 1);
    assert_eq!(&bytes[..4], &[0xce, 0xfa, 0xed, 0xfe]);
    let object = MachO::parse(&bytes, 0).unwrap();
    assert!(!object.is_64);
    assert_eq!(object.header.cputype, goblin::mach::cputype::CPU_TYPE_ARM);
    assert_eq!(object.symbols().count(), 2);
    // the relocation record: address 1, then the packed word, little-endian
    let at = bytes.len() - 9;
    assert_eq!(&bytes[at..at + 8], &[1, 0, 0, 0, 1, 0, 0, 0x2d]);
}

#[test]
fn wide_targets_have_the_wide_magic() {
    for target in [Target::X86_64, Target::ARM64, Target::Unknown] {
        let artifact = Artifact { target, definitions: vec![], imports: vec![], links: vec![] };
        let bytes = Mach::to_bytes(&artifact);
        assert_eq!(&bytes[..4], &[0xcf, 0xfa, 0xed, 0xfe]);
        assert_eq!(bytes.len(), WIDE_COMMANDS + 2);
    }
}

#[test]
fn link_with_a_missing_name_is_dropped() {
    let artifact = Artifact {
        target: Target::X86_64,
        definitions: vec![code("f", &[0xc3], true)],
        imports: vec![],
        links: vec![
            link("f", "missing", Decl::Function, 0),
            link("missing", "f", Decl::Function, 0),
            link("", "f", Decl::Function, 0),
        ],
    };
    let bytes = Mach::to_bytes(&artifact);
    assert_eq!(bytes.len(), WIDE_COMMANDS + 1 + 16 + (1 + 3) + 1);
    let object = MachO::parse(&bytes, 0).unwrap();
    assert_eq!(object.relocations().unwrap().len(), 0);
    let sections = object.segments[0].sections().unwrap();
    assert_eq!(sections[0].0.nreloc, 0);
}

#[test]
fn size_bound_counts_every_name_and_link() {
    let artifact = sample();
    let payload = 4 + 1 + 2 + 8 + 3;
    let names = (5 + 18) + (4 + 18) + (6 + 18) + (7 + 18) + (4 + 18);
    let imports = (4 + 18) + (7 + 18);
    assert_eq!(artifact.size_bound(), Some(512 + payload + names + imports + 5 * 8 + 3));
    assert!(Mach::to_bytes(&artifact).len() < artifact.size_bound().unwrap());
    let empty =
        Artifact { target: Target::X86, definitions: vec![], imports: vec![], links: vec![] };
    assert_eq!(empty.size_bound(), Some(512));
}

#[test]
fn try_new_refuses_what_cannot_be_addressed() {
    let artifact = Artifact {
        target: Target::X86_64,
        definitions: vec![code("f", &[0xc3], true)],
        imports: vec![],
        links: vec![link("f", "f", Decl::Function, usize::MAX)],
    };
    assert_eq!(artifact.size_bound(), None);
    assert!(Mach::try_new(&artifact).is_none());
    let fine = sample();
    let mach = Mach::try_new(&fine).unwrap();
    let mut bytes = Vec::new();
    mach.write(&mut bytes);
    assert_eq!(bytes, Mach::to_bytes(&fine));
}
