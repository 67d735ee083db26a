use goblin::container::{Container as Width, Ctx as OutsideCtx};
use goblin::mach::relocation::RelocationInfo as OutsideRelocation;
use macho_writer::records;
use macho_writer::relocation;
use macho_writer::{
    build_relocations, cpu_type, reloc_type, Artifact, Container, Ctx, Decl, Definition, Endian,
    Header, Link, Nlist, Prop, RelocationBuilder, RelocationInfo, Section, SectionBuilder,
    SegmentBuilder, SegmentCommand, SymbolTable, SymbolType, SymtabCommand, Target,
};
use scroll::ctx::SizeWith;

fn contexts() -> Vec<(Ctx, OutsideCtx)> {
    vec![
        (
            Ctx::new(Container::Little, Endian::Little),
            OutsideCtx::new(Width::Little, scroll::LE),
        ),
        (Ctx::new(Container::Big, Endian::Little), OutsideCtx::new(Width::Big, scroll::LE)),
        (Ctx::new(Container::Little, Endian::Big), OutsideCtx::new(Width::Little, scroll::BE)),
        (Ctx::new(Container::Big, Endian::Big), OutsideCtx::new(Width::Big, scroll::BE)),
    ]
}

#[test]
fn cpu_types_are_those_of_the_format() {
    assert_eq!(cpu_type(Target::X86_64), 0x0100_0007);
    assert_eq!(cpu_type(Target::X86), 0x0000_0007);
    assert_eq!(cpu_type(Target::ARM64), 0x0100_000c);
    assert_eq!(cpu_type(Target::ARMv7), 0x0000_000c);
    assert_eq!(cpu_type(Target::Unknown), 0);
    assert_eq!(cpu_type(Target::X86_64), goblin::mach::cputype::CPU_TYPE_X86_64);
    assert_eq!(cpu_type(Target::X86), goblin::mach::cputype::CPU_TYPE_X86);
    assert_eq!(cpu_type(Target::ARM64), goblin::mach::cputype::CPU_TYPE_ARM64);
    assert_eq!(cpu_type(Target::ARMv7), goblin::mach::cputype::CPU_TYPE_ARM);
}

#[test]
fn targets_select_their_container() {
    assert_eq!(Ctx::for_target(Target::X86_64), Ctx::new(Container::Big, Endian::Little));
    assert_eq!(Ctx::for_target(Target::ARM64), Ctx::new(Container::Big, Endian::Little));
    assert_eq!(Ctx::for_target(Target::X86), Ctx::new(Container::Little, Endian::Little));
    assert_eq!(Ctx::for_target(Target::ARMv7), Ctx::new(Container::Little, Endian::Little));
    assert_eq!(Ctx::for_target(Target::Unknown), Ctx::new(Container::Big, Endian::Little));
    assert!(Ctx::for_target(Target::X86_64).is_big());
    assert!(!Ctx::for_target(Target::X86).is_big());
}

#[test]
fn constants_are_those_of_the_format() {
    assert_eq!(records::MH_MAGIC, goblin::mach::header::MH_MAGIC);
    assert_eq!(records::MH_MAGIC_64, goblin::mach::header::MH_MAGIC_64);
    assert_eq!(records::MH_OBJECT, goblin::mach::header::MH_OBJECT);
    assert_eq!(
        records::MH_SUBSECTIONS_VIA_SYMBOLS,
        goblin::mach::header::MH_SUBSECTIONS_VIA_SYMBOLS
    );
    assert_eq!(records::LC_SEGMENT, goblin::mach::load_command::LC_SEGMENT);
    assert_eq!(records::LC_SEGMENT_64, goblin::mach::load_command::LC_SEGMENT_64);
    assert_eq!(records::LC_SYMTAB, goblin::mach::load_command::LC_SYMTAB);
    assert_eq!(
        records::SIZEOF_SYMTAB_COMMAND,
        goblin::mach::load_command::SIZEOF_SYMTAB_COMMAND
    );
    assert_eq!(
        records::SIZEOF_RELOCATION_INFO,
        goblin::mach::relocation::SIZEOF_RELOCATION_INFO
    );
    assert_eq!(relocation::X86_64_RELOC_SIGNED, goblin::mach::relocation::X86_64_RELOC_SIGNED);
    assert_eq!(relocation::X86_64_RELOC_BRANCH, goblin::mach::relocation::X86_64_RELOC_BRANCH);
    assert_eq!(
        relocation::X86_64_RELOC_GOT_LOAD,
        goblin::mach::relocation::X86_64_RELOC_GOT_LOAD
    );
    assert_eq!(records::SECTION_FLAGS, 2147484672);
    assert_eq!(SegmentBuilder::NSECTIONS, 2);
}

#[test]
fn sizes_are_those_of_the_encodings() {
    for (ctx, outside) in contexts() {
        assert_eq!(Header::size_with(&ctx), goblin::mach::header::Header::size_with(&outside));
        assert_eq!(
            SegmentCommand::size_with(&ctx),
            goblin::mach::segment::Segment::size_with(&outside)
        );
        assert_eq!(Section::size_with(&ctx), goblin::mach::segment::Section::size_with(&outside));
        assert_eq!(Nlist::size_with(&ctx), goblin::mach::symbols::Nlist::size_with(&outside));
        assert_eq!(
            SegmentBuilder::load_command_size(&ctx),
            goblin::mach::segment::Segment::size_with(&outside)
                + 2 * goblin::mach::segment::Section::size_with(&outside)
        );
    }
    let narrow = Ctx::new(Container::Little, Endian::Little);
    let wide = Ctx::new(Container::Big, Endian::Little);
    assert_eq!(Header::size_with(&narrow), 28);
    assert_eq!(Header::size_with(&wide), 32);
    assert_eq!(SegmentCommand::size_with(&narrow), 56);
    assert_eq!(SegmentCommand::size_with(&wide), 72);
    assert_eq!(Section::size_with(&narrow), 68);
    assert_eq!(Section::size_with(&wide), 80);
    assert_eq!(Nlist::size_with(&narrow), 12);
    assert_eq!(Nlist::size_with(&wide), 16);
    assert_eq!(SegmentBuilder::load_command_size(&narrow), 192);
    assert_eq!(SegmentBuilder::load_command_size(&wide), 232);
}

#[test]
fn blank_records_are_those_of_the_encoder() {
    for (ctx, outside) in contexts() {
        let header = Header::new(&ctx);
        let theirs = goblin::mach::header::Header::new(&outside);
        assert_eq!(header.magic, theirs.magic);
        assert_eq!(header.cputype, theirs.cputype);
        assert_eq!(header.cpusubtype, theirs.cpusubtype);
        assert_eq!(header.filetype, theirs.filetype);
        assert_eq!(header.ncmds, theirs.ncmds);
        assert_eq!(header.sizeofcmds, theirs.sizeofcmds);
        assert_eq!(header.flags, theirs.flags);
        assert_eq!(header.reserved, theirs.reserved);

        let sections = [0u8; 160];
        let segment = SegmentCommand::new(&ctx, &sections);
        let theirs = goblin::mach::segment::Segment::new(outside, &sections);
        assert_eq!(segment.cmd, theirs.cmd);
        assert_eq!(segment.cmdsize, theirs.cmdsize);
        assert_eq!(segment.segname, theirs.segname);
        assert_eq!(segment.vmaddr, theirs.vmaddr);
        assert_eq!(segment.vmsize, theirs.vmsize);
        assert_eq!(segment.fileoff, theirs.fileoff);
        assert_eq!(segment.filesize, theirs.filesize);
        assert_eq!(segment.maxprot, theirs.maxprot);
        assert_eq!(segment.initprot, theirs.initprot);
        assert_eq!(segment.nsects, theirs.nsects);
        assert_eq!(segment.flags, theirs.flags);
    }
    let symtab = SymtabCommand::new();
    let theirs = goblin::mach::load_command::SymtabCommand::new();
    assert_eq!(symtab.cmd, theirs.cmd);
    assert_eq!(symtab.cmdsize, theirs.cmdsize);
    assert_eq!(symtab.symoff, theirs.symoff);
    assert_eq!(symtab.nsyms, theirs.nsyms);
    assert_eq!(symtab.stroff, theirs.stroff);
    assert_eq!(symtab.strsize, theirs.strsize);
    let wide = Ctx::new(Container::Big, Endian::Little);
    assert_eq!(SegmentCommand::new(&wide, &[0u8; 160]).cmdsize, 232);
    assert_eq!(SegmentCommand::new(&wide, &[0u8; 160]).cmd, 0x19);
}

#[test]
fn section_builder_defaults_and_setters() {
    let builder = SectionBuilder::new("__text", "__TEXT", 10);
    assert_eq!(builder.addr, 0);
    assert_eq!(builder.align, 4);
    assert_eq!(builder.offset, 0);
    assert_eq!(builder.size, 10);
    assert_eq!(builder.sectname, "__text");
    assert_eq!(builder.segname, "__TEXT");
    let builder = builder.addr(0x1000).offset(0x200).align(16);
    assert_eq!(builder.addr, 0x1000);
    assert_eq!(builder.offset, 0x200);
    assert_eq!(builder.align, 16);
    assert_eq!(builder.size, 10);
}

#[test]
fn section_header_pads_its_names() {
    let section = SectionBuilder::new("__text", "__TEXT", 10).addr(8).offset(0x120).create();
    assert_eq!(&section.sectname, b"__text\0\0\0\0\0\0\0\0\0\0");
    assert_eq!(&section.segname, b"__TEXT\0\0\0\0\0\0\0\0\0\0");
    assert_eq!(section.addr, 8);
    assert_eq!(section.size, 10);
    assert_eq!(section.offset, 0x120);
    assert_eq!(section.align, 4);
    assert_eq!(section.reloff, 0);
    assert_eq!(section.nreloc, 0);
    assert_eq!(section.flags, 0x8000_0400);
    let longest = SectionBuilder::new("fifteen_bytes__", "", 0).create();
    assert_eq!(&longest.sectname, b"fifteen_bytes__\0");
    assert_eq!(longest.segname, [0u8; 16]);
}

#[test]
fn relocation_builder_packs_its_fields() {
    let builder = RelocationBuilder::new(5, 0x30, relocation::X86_64_RELOC_BRANCH);
    assert_eq!(builder.symbol, 5);
    assert_eq!(builder.relocation_offset, 0x30);
    assert!(!builder.absolute);
    assert_eq!(builder.r_type, 2);
    let record = builder.create();
    assert_eq!(record, RelocationInfo { r_address: 0x30, r_info: 0x2d00_0005 });
    let theirs = OutsideRelocation { r_address: record.r_address, r_info: record.r_info };
    assert_eq!(theirs.r_symbolnum(), 5);
    assert_eq!(theirs.r_pcrel(), 1);
    assert_eq!(theirs.r_length(), 2);
    assert_eq!(theirs.r_extern(), 1);
    assert_eq!(theirs.r_type(), 2);
}

#[test]
fn absolute_relocation_is_eight_bytes_and_not_relative() {
    let builder =
        RelocationBuilder::new(0x00ab_cdef, 7, relocation::X86_64_RELOC_SIGNED).absolute();
    assert!(builder.absolute);
    let record = builder.create();
    assert_eq!(record.r_address, 7);
    assert_eq!(record.r_info, 0x1eab_cdef);
    let theirs = OutsideRelocation { r_address: record.r_address, r_info: record.r_info };
    assert_eq!(theirs.r_symbolnum(), 0x00ab_cdef);
    assert_eq!(theirs.r_pcrel(), 0);
    assert_eq!(theirs.r_length(), 3);
    assert_eq!(theirs.r_extern(), 1);
    assert_eq!(theirs.r_type(), 1);
}

#[test]
fn relocation_types_follow_the_declaration() {
    assert_eq!(reloc_type(Decl::Function), 2);
    assert_eq!(reloc_type(Decl::Data), 1);
    assert_eq!(reloc_type(Decl::CString), 1);
    assert_eq!(reloc_type(Decl::FunctionImport), 2);
    assert_eq!(reloc_type(Decl::DataImport), 3);
}

#[test]
fn segment_enters_symbols_and_sizes_sections() {
    let code = [
        Definition { name: "a", data: &[0; 3], prop: Prop { global: true, function: true } },
        Definition { name: "b", data: &[0; 5], prop: Prop { global: false, function: true } },
    ];
    let data =
        [Definition { name: "c", data: &[0; 7], prop: Prop { global: true, function: false } }];
    let artifact = Artifact {
        target: Target::X86_64,
        definitions: vec![code[0], data[0], code[1]],
        imports: vec![("d", macho_writer::ImportKind::Function)],
        links: vec![Link { from: "b", to: "c", to_decl: Decl::Data, at: 2 }],
    };
    let ctx = Ctx::for_target(artifact.target);
    let mut symtab = SymbolTable::new();
    let segment = SegmentBuilder::new(&artifact, &code, &data, &mut symtab, &ctx);
    assert_eq!(segment.size(), 15);
    assert_eq!(segment.offset, 32 + 15);
    assert_eq!(segment.sections[0].sectname, "__text");
    assert_eq!(segment.sections[0].segname, "__TEXT");
    assert_eq!(segment.sections[0].size, 8);
    assert_eq!(segment.sections[0].offset, 32);
    assert_eq!(segment.sections[0].addr, 0);
    assert_eq!(segment.sections[0].align, 4);
    assert_eq!(segment.sections[1].sectname, "__data");
    assert_eq!(segment.sections[1].segname, "__DATA");
    assert_eq!(segment.sections[1].size, 7);
    assert_eq!(segment.sections[1].offset, 32 + 8);
    assert_eq!(segment.sections[1].addr, 8);
    assert_eq!(symtab.len(), 4);
    assert_eq!(symtab.index("a"), Some(0));
    assert_eq!(symtab.index("b"), Some(1));
    assert_eq!(symtab.index("c"), Some(2));
    assert_eq!(symtab.index("d"), Some(3));
    assert_eq!(symtab.offset("a"), Some(0));
    assert_eq!(symtab.offset("b"), Some(3));
    // the symbol offset is not reset between the sections
    assert_eq!(symtab.offset("c"), Some(8));
    assert_eq!(symtab.offset("d"), Some(0));

    let relocations = build_relocations(&artifact, &symtab);
    assert_eq!(relocations.len(), 1);
    assert_eq!(relocations[0], vec![RelocationInfo { r_address: 5, r_info: 0x1d00_0002 }]);
    // a symbol that is entered again keeps what it had
    symtab.insert("a", SymbolType::Undefined);
    assert_eq!(symtab.len(), 4);
}
