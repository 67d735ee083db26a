//! Sections and the segment that holds them.
//!
//! A relocatable object file has one segment with two sections: the code of
//! the artifact goes to `__text`, its data to `__data`. Building the segment
//! also enters the symbols of the definitions and of the imports into the
//! symbol table.

use vstd::prelude::*;
use vstd::string::StringSliceAdditionalSpecFns;

use crate::artifact::{
    lemma_payload_len_prefix, payload_len, Artifact, Definition, ImportKind,
};
use crate::encode::{name_field, name_image};
use crate::records::{
    header_size, section_size, segment_size, Header, Section, SectionView, SegmentCommand,
    SECTION_FLAGS,
};
use crate::symbol::{
    lemma_table_insert_size, lemma_table_insert_wf, strtab_size, table_insert, table_wf,
    SectionIndex, SymbolEntry, SymbolTable, SymbolType, CODE_SECTION_INDEX, DATA_SECTION_INDEX,
};
use crate::target::Ctx;

verus! {

/// A builder for a section header.
#[derive(Debug, Clone, Copy)]
pub struct SectionBuilder {
    /// Memory address of the section.
    pub addr: usize,
    pub align: usize,
    /// File offset of the section's contents.
    pub offset: usize,
    /// Size in bytes of the section's contents.
    pub size: usize,
    pub sectname: &'static str,
    pub segname: &'static str,
}

impl SectionBuilder {
    /// A section at address 0 and file offset 0, with the alignment 4.
    pub fn new(sectname: &'static str, segname: &'static str, size: usize) -> (builder: Self)
        ensures
            builder == (SectionBuilder { addr: 0, align: 4, offset: 0, size, sectname, segname }),
    {
        SectionBuilder { addr: 0, align: 4, offset: 0, size, sectname, segname }
    }

    /// Sets the memory address of the section.
    pub fn addr(self, addr: usize) -> (builder: Self)
        ensures
            builder == (SectionBuilder { addr, ..self }),
    {
        let mut builder = self;
        builder.addr = addr;
        builder
    }

    /// Sets the file offset of the section.
    pub fn offset(self, offset: usize) -> (builder: Self)
        ensures
            builder == (SectionBuilder { offset, ..self }),
    {
        let mut builder = self;
        builder.offset = offset;
        builder
    }

    /// Sets the alignment of the section.
    pub fn align(self, align: usize) -> (builder: Self)
        ensures
            builder == (SectionBuilder { align, ..self }),
    {
        let mut builder = self;
        builder.align = align;
        builder
    }

    /// The names of a section and of its segment are at most 15 bytes long.
    pub open spec fn wf(self) -> bool {
        &&& self.sectname.spec_bytes().len() <= 15
        &&& self.segname.spec_bytes().len() <= 15
    }

    /// The section header of the builder: the names padded with zero bytes,
    /// the numbers narrowed to the widths of the header's fields, no
    /// relocation records yet, and the flags of a section of instructions.
    pub open spec fn section(self) -> SectionView {
        SectionView {
            sectname: name_image(self.sectname.spec_bytes()),
            segname: name_image(self.segname.spec_bytes()),
            addr: self.addr as u64,
            size: self.size as u64,
            offset: self.offset as u32,
            align: self.align as u32,
            reloff: 0,
            nreloc: 0,
            flags: 0x8000_0400,
        }
    }

    /// Finalizes the builder into its section header.
    pub fn create(self) -> (section: Section)
        requires
            self.wf(),
        ensures
            section@ == self.section(),
    {
        let sectname = name_field(self.sectname);
        let segname = name_field(self.segname);
        Section {
            sectname,
            segname,
            addr: self.addr as u64,
            size: self.size as u64,
            offset: #[verifier::truncate]
            (self.offset as u32),
            align: #[verifier::truncate]
            (self.align as u32),
            reloff: 0,
            nreloc: 0,
            flags: SECTION_FLAGS,
        }
    }
}

/// The table after the symbols of `definitions` have been inserted in order,
/// each defined in `section` at the offset where its payload starts when the
/// first payload starts at `start`.
pub open spec fn insert_definitions<'a>(
    table: Seq<SymbolEntry>,
    definitions: Seq<Definition<'a>>,
    section: SectionIndex,
    start: nat,
) -> Seq<SymbolEntry>
    decreases definitions.len(),
{
    if definitions.len() == 0 {
        table
    } else {
        let before = definitions.drop_last();
        table_insert(
            insert_definitions(table, before, section, start),
            definitions.last().name@,
            SymbolType::Defined {
                section,
                offset: (start + payload_len(before)) as usize,
                global: definitions.last().prop.global,
            },
        )
    }
}

/// The table after the names of `imports` have been inserted in order as
/// undefined symbols.
pub open spec fn insert_imports<'a>(
    table: Seq<SymbolEntry>,
    imports: Seq<(&'a str, ImportKind)>,
) -> Seq<SymbolEntry>
    decreases imports.len(),
{
    if imports.len() == 0 {
        table
    } else {
        table_insert(
            insert_imports(table, imports.drop_last()),
            imports.last().0@,
            SymbolType::Undefined,
        )
    }
}

/// The table of an artifact whose code is `code` and whose data is `data`:
/// the code symbols, then the data symbols, then the imports. The offsets of
/// the data symbols go on from the end of the code.
pub open spec fn insert_all<'a>(
    table: Seq<SymbolEntry>,
    code: Seq<Definition<'a>>,
    data: Seq<Definition<'a>>,
    imports: Seq<(&'a str, ImportKind)>,
) -> Seq<SymbolEntry> {
    insert_imports(
        insert_definitions(insert_definitions(table, code, 0, 0), data, 1, payload_len(code)),
        imports,
    )
}

/// Inserting definitions only ever adds entries: the string table does not
/// shrink from one definition to the next, and well-formed entries stay
/// well-formed while the string table fits in a `usize`.
pub proof fn lemma_insert_definitions<'a>(
    table: Seq<SymbolEntry>,
    definitions: Seq<Definition<'a>>,
    section: SectionIndex,
    start: nat,
    i: int,
)
    requires
        0 <= i <= definitions.len(),
    ensures
        strtab_size(table) <= strtab_size(
            insert_definitions(table, definitions.take(i), section, start),
        ) <= strtab_size(insert_definitions(table, definitions, section, start)),
        table.len() <= insert_definitions(table, definitions.take(i), section, start).len()
            <= insert_definitions(table, definitions, section, start).len() <= table.len()
            + definitions.len(),
        i < definitions.len() ==> insert_definitions(
            table,
            definitions.take(i + 1),
            section,
            start,
        ) == table_insert(
            insert_definitions(table, definitions.take(i), section, start),
            definitions[i].name@,
            SymbolType::Defined {
                section,
                offset: (start + payload_len(definitions.take(i))) as usize,
                global: definitions[i].prop.global,
            },
        ),
        table_wf(table) && strtab_size(insert_definitions(table, definitions, section, start))
            <= usize::MAX ==> table_wf(
            insert_definitions(table, definitions.take(i), section, start),
        ),
    decreases definitions.len(), definitions.len() - i,
{
    if i == definitions.len() {
        assert(definitions.take(i) =~= definitions);
        if i > 0 {
            let before = definitions.drop_last();
            lemma_insert_definitions(table, before, section, start, i - 1);
            assert(before.take(i - 1) =~= before);
            let kind = SymbolType::Defined {
                section,
                offset: (start + payload_len(before)) as usize,
                global: definitions.last().prop.global,
            };
            let prior = insert_definitions(table, before, section, start);
            lemma_table_insert_size(prior, definitions.last().name@, kind);
            if table_wf(table) && strtab_size(
                insert_definitions(table, definitions, section, start),
            ) <= usize::MAX {
                lemma_table_insert_wf(prior, definitions.last().name@, kind);
            }
        }
    } else {
        let whole = definitions.len() as int;
        lemma_insert_definitions(table, definitions, section, start, whole);
        let before = definitions.drop_last();
        assert(before.take(i) =~= definitions.take(i));
        lemma_insert_definitions(table, before, section, start, i);
        lemma_insert_definitions(table, before, section, start, whole - 1);
        assert(before.take(whole - 1) =~= before);
        let kind = SymbolType::Defined {
            section,
            offset: (start + payload_len(before)) as usize,
            global: definitions.last().prop.global,
        };
        lemma_table_insert_size(
            insert_definitions(table, before, section, start),
            definitions.last().name@,
            kind,
        );
        if i < whole - 1 {
            assert(before.take(i + 1) =~= definitions.take(i + 1));
        } else {
            assert(definitions.take(i + 1) =~= definitions);
            assert(definitions.take(i) =~= before);
        }
    }
}

/// Inserting imports only ever adds entries: the string table does not
/// shrink from one import to the next, and well-formed entries stay
/// well-formed while the string table fits in a `usize`.
pub proof fn lemma_insert_imports<'a>(
    table: Seq<SymbolEntry>,
    imports: Seq<(&'a str, ImportKind)>,
    i: int,
)
    requires
        0 <= i <= imports.len(),
    ensures
        strtab_size(table) <= strtab_size(insert_imports(table, imports.take(i))) <= strtab_size(
            insert_imports(table, imports),
        ),
        table.len() <= insert_imports(table, imports.take(i)).len() <= insert_imports(
            table,
            imports,
        ).len() <= table.len() + imports.len(),
        i < imports.len() ==> insert_imports(table, imports.take(i + 1)) == table_insert(
            insert_imports(table, imports.take(i)),
            imports[i].0@,
            SymbolType::Undefined,
        ),
        table_wf(table) && strtab_size(insert_imports(table, imports)) <= usize::MAX ==> table_wf(
            insert_imports(table, imports.take(i)),
        ),
    decreases imports.len(), imports.len() - i,
{
    if i == imports.len() {
        assert(imports.take(i) =~= imports);
        if i > 0 {
            let before = imports.drop_last();
            lemma_insert_imports(table, before, i - 1);
            assert(before.take(i - 1) =~= before);
            let prior = insert_imports(table, before);
            lemma_table_insert_size(prior, imports.last().0@, SymbolType::Undefined);
            if table_wf(table) && strtab_size(insert_imports(table, imports)) <= usize::MAX {
                lemma_table_insert_wf(prior, imports.last().0@, SymbolType::Undefined);
            }
        }
    } else {
        let whole = imports.len() as int;
        lemma_insert_imports(table, imports, whole);
        let before = imports.drop_last();
        assert(before.take(i) =~= imports.take(i));
        lemma_insert_imports(table, before, i);
        lemma_insert_imports(table, before, whole - 1);
        assert(before.take(whole - 1) =~= before);
        lemma_table_insert_size(
            insert_imports(table, before),
            imports.last().0@,
            SymbolType::Undefined,
        );
        if i < whole - 1 {
            assert(before.take(i + 1) =~= imports.take(i + 1));
        } else {
            assert(imports.take(i + 1) =~= imports);
            assert(imports.take(i) =~= before);
        }
    }
}

/// Inserting the symbols of an artifact keeps a table well-formed, as long
/// as the string table still fits in a `usize`.
pub proof fn lemma_insert_all_wf<'a>(
    table: Seq<SymbolEntry>,
    code: Seq<Definition<'a>>,
    data: Seq<Definition<'a>>,
    imports: Seq<(&'a str, ImportKind)>,
)
    requires
        table_wf(table),
        strtab_size(insert_all(table, code, data, imports)) <= usize::MAX,
    ensures
        table_wf(insert_all(table, code, data, imports)),
        table_wf(insert_definitions(table, code, 0, 0)),
        table_wf(
            insert_definitions(insert_definitions(table, code, 0, 0), data, 1, payload_len(code)),
        ),
        strtab_size(insert_definitions(table, code, 0, 0)) <= strtab_size(
            insert_definitions(insert_definitions(table, code, 0, 0), data, 1, payload_len(code)),
        ) <= strtab_size(insert_all(table, code, data, imports)),
{
    let with_code = insert_definitions(table, code, 0, 0);
    let with_data = insert_definitions(with_code, data, 1, payload_len(code));
    lemma_insert_definitions(table, code, 0, 0, code.len() as int);
    lemma_insert_definitions(with_code, data, 1, payload_len(code), data.len() as int);
    lemma_insert_imports(with_data, imports, imports.len() as int);
    assert(code.take(code.len() as int) =~= code);
    assert(data.take(data.len() as int) =~= data);
    assert(imports.take(imports.len() as int) =~= imports);
}

/// Whether every symbol of a table that is in a section is in the text or
/// the data section.
pub open spec fn sections_known(table: Seq<SymbolEntry>) -> bool {
    forall|i: int|
        0 <= i < table.len() ==> ((#[trigger] table[i]).symbol.section matches Some(s) ==> s <= 1)
}

/// Inserting definitions of the text or the data section, and inserting
/// imports, leaves every symbol in a known section.
pub proof fn lemma_insert_sections_known<'a>(
    table: Seq<SymbolEntry>,
    code: Seq<Definition<'a>>,
    data: Seq<Definition<'a>>,
    imports: Seq<(&'a str, ImportKind)>,
)
    requires
        sections_known(table),
    ensures
        sections_known(insert_all(table, code, data, imports)),
{
    lemma_definitions_sections_known(table, code, 0, 0);
    let with_code = insert_definitions(table, code, 0, 0);
    lemma_definitions_sections_known(with_code, data, 1, payload_len(code));
    lemma_imports_sections_known(
        insert_definitions(with_code, data, 1, payload_len(code)),
        imports,
    );
}

/// Inserting definitions of the text or the data section leaves every
/// symbol in a known section.
proof fn lemma_definitions_sections_known<'a>(
    table: Seq<SymbolEntry>,
    definitions: Seq<Definition<'a>>,
    section: SectionIndex,
    start: nat,
)
    requires
        sections_known(table),
        section <= 1,
    ensures
        sections_known(insert_definitions(table, definitions, section, start)),
    decreases definitions.len(),
{
    if definitions.len() > 0 {
        lemma_definitions_sections_known(table, definitions.drop_last(), section, start);
    }
}

/// Inserting imports leaves every symbol in a known section.
proof fn lemma_imports_sections_known<'a>(
    table: Seq<SymbolEntry>,
    imports: Seq<(&'a str, ImportKind)>,
)
    requires
        sections_known(table),
    ensures
        sections_known(insert_imports(table, imports)),
    decreases imports.len(),
{
    if imports.len() > 0 {
        lemma_imports_sections_known(table, imports.drop_last());
    }
}

/// The names of the text and the data section are short enough for the
/// name fields of a section header.
pub proof fn lemma_section_names(ctx: Ctx, code_len: nat, data_len: nat)
    ensures
        text_section(ctx, code_len).wf(),
        data_section(ctx, code_len, data_len).wf(),
{
    reveal_strlit("__text");
    reveal_strlit("__TEXT");
    reveal_strlit("__data");
    reveal_strlit("__DATA");
    vstd::string::is_ascii_spec_bytes("__text");
    vstd::string::is_ascii_spec_bytes("__TEXT");
    vstd::string::is_ascii_spec_bytes("__data");
    vstd::string::is_ascii_spec_bytes("__DATA");
}

/// The segment of an object file: its two sections, the size of their
/// contents, and the file offset that the contents would end at if they
/// followed the header directly.
#[derive(Debug)]
pub struct SegmentBuilder {
    /// The sections of the segment: text, then data.
    pub sections: [SectionBuilder; 2],
    /// Size of the header plus the size of the contents of the sections.
    pub offset: usize,
    /// Size in bytes of the contents of the sections.
    pub size: usize,
}

/// The builder of the text section of a segment whose code has `code_len`
/// bytes.
pub open spec fn text_section(ctx: Ctx, code_len: nat) -> SectionBuilder {
    SectionBuilder {
        addr: 0,
        align: 4,
        offset: header_size(ctx) as usize,
        size: code_len as usize,
        sectname: "__text",
        segname: "__TEXT",
    }
}

/// The builder of the data section of a segment whose code has `code_len`
/// bytes and whose data has `data_len` bytes.
pub open spec fn data_section(ctx: Ctx, code_len: nat, data_len: nat) -> SectionBuilder {
    SectionBuilder {
        addr: code_len as usize,
        align: 4,
        offset: (header_size(ctx) + code_len) as usize,
        size: data_len as usize,
        sectname: "__data",
        segname: "__DATA",
    }
}

impl SegmentBuilder {
    /// The number of sections of the segment.
    pub const NSECTIONS: usize = 2;

    /// What holds of a segment that was built for `code_len` bytes of code
    /// and `data_len` bytes of data in the context `ctx`.
    pub open spec fn built_for(&self, ctx: Ctx, code_len: nat, data_len: nat) -> bool {
        &&& self.sections@[0] == text_section(ctx, code_len)
        &&& self.sections@[1] == data_section(ctx, code_len, data_len)
        &&& self.offset == header_size(ctx) + code_len + data_len
        &&& self.size == code_len + data_len
    }

    /// The size in bytes of the contents of the sections.
    pub fn size(&self) -> (size: usize)
        ensures
            size == self.size,
    {
        self.size
    }

    /// The size in bytes of the segment load command with its section
    /// headers.
    pub fn load_command_size(ctx: &Ctx) -> (size: usize)
        ensures
            size == segment_size(*ctx) + 2 * section_size(*ctx),
    {
        SegmentCommand::size_with(ctx) + (Self::NSECTIONS * Section::size_with(ctx))
    }

    /// Builds one section from its definitions: enters their symbols into
    /// the table and advances the file offset and the address by the size of
    /// the section, and the symbol offset by the size of each payload.
    fn build_section<'a>(
        symtab: &mut SymbolTable,
        sectname: &'static str,
        segname: &'static str,
        offset: &mut usize,
        addr: &mut usize,
        symbol_offset: &mut usize,
        section: SectionIndex,
        definitions: &[Definition<'a>],
    ) -> (builder: SectionBuilder)
        requires
            old(symtab).wf(),
            *old(offset) + payload_len(definitions@) <= usize::MAX,
            *old(addr) + payload_len(definitions@) <= usize::MAX,
            *old(symbol_offset) + payload_len(definitions@) <= usize::MAX,
            strtab_size(
                insert_definitions(
                    old(symtab)@,
                    definitions@,
                    section,
                    *old(symbol_offset) as nat,
                ),
            ) <= usize::MAX,
        ensures
            final(symtab).wf(),
            final(symtab)@ == insert_definitions(
                old(symtab)@,
                definitions@,
                section,
                *old(symbol_offset) as nat,
            ),
            *final(offset) == *old(offset) + payload_len(definitions@),
            *final(addr) == *old(addr) + payload_len(definitions@),
            *final(symbol_offset) == *old(symbol_offset) + payload_len(definitions@),
            builder == (SectionBuilder {
                addr: *old(addr),
                align: 4,
                offset: *old(offset),
                size: payload_len(definitions@) as usize,
                sectname,
                segname,
            }),
    {
        let ghost table = symtab@;
        let ghost start = *symbol_offset as nat;
        let mut local_size: usize = 0;
        let mut i: usize = 0;
        proof {
            assert(definitions@.take(0) =~= Seq::<Definition<'a>>::empty());
        }
        while i < definitions.len()
            invariant
                0 <= i <= definitions@.len(),
                symtab.wf(),
                symtab@ == insert_definitions(table, definitions@.take(i as int), section, start),
                local_size == payload_len(definitions@.take(i as int)),
                *symbol_offset == start + payload_len(definitions@.take(i as int)),
                start + payload_len(definitions@) <= usize::MAX,
                strtab_size(insert_definitions(table, definitions@, section, start))
                    <= usize::MAX,
            decreases definitions@.len() - i,
        {
            let def = definitions[i];
            proof {
                lemma_payload_len_prefix(definitions@, i as int);
                lemma_payload_len_prefix(definitions@, i + 1);
                lemma_insert_definitions(table, definitions@, section, start, i as int);
                lemma_insert_definitions(table, definitions@, section, start, i + 1);
            }
            local_size += def.data.len();
            symtab.insert(
                def.name,
                SymbolType::Defined { section, offset: *symbol_offset, global: def.prop.global },
            );
            *symbol_offset += def.data.len();
            i += 1;
        }
        proof {
            assert(definitions@.take(i as int) =~= definitions@);
        }
        let builder = SectionBuilder::new(sectname, segname, local_size).offset(*offset).addr(
            *addr,
        );
        *offset += local_size;
        *addr += local_size;
        builder
    }

    /// Builds the segment of an artifact whose definitions were split into
    /// `code` and `data`, and enters the symbols of the definitions and of
    /// the imports into `symtab`.
    pub fn new<'a>(
        artifact: &Artifact<'a>,
        code: &[Definition<'a>],
        data: &[Definition<'a>],
        symtab: &mut SymbolTable,
        ctx: &Ctx,
    ) -> (segment: Self)
        requires
            old(symtab).wf(),
            header_size(*ctx) + payload_len(code@) + payload_len(data@) <= usize::MAX,
            strtab_size(insert_all(old(symtab)@, code@, data@, artifact.imports@)) <= usize::MAX,
        ensures
            final(symtab).wf(),
            final(symtab)@ == insert_all(old(symtab)@, code@, data@, artifact.imports@),
            segment.built_for(*ctx, payload_len(code@), payload_len(data@)),
    {
        let ghost table = symtab@;
        let ghost with_code = insert_definitions(table, code@, 0, 0);
        let ghost with_data = insert_definitions(with_code, data@, 1, payload_len(code@));
        proof {
            lemma_insert_definitions(with_code, data@, 1, payload_len(code@), 0);
            lemma_insert_imports(with_data, artifact.imports@, 0);
        }
        let mut offset = Header::size_with(ctx);
        let mut size: usize = 0;
        let mut symbol_offset: usize = 0;
        let text = Self::build_section(
            symtab,
            "__text",
            "__TEXT",
            &mut offset,
            &mut size,
            &mut symbol_offset,
            CODE_SECTION_INDEX,
            code,
        );
        let data = Self::build_section(
            symtab,
            "__data",
            "__DATA",
            &mut offset,
            &mut size,
            &mut symbol_offset,
            DATA_SECTION_INDEX,
            data,
        );
        let mut i: usize = 0;
        proof {
            assert(artifact.imports@.take(0) =~= Seq::<(&'a str, ImportKind)>::empty());
        }
        while i < artifact.imports.len()
            invariant
                0 <= i <= artifact.imports@.len(),
                symtab.wf(),
                symtab@ == insert_imports(with_data, artifact.imports@.take(i as int)),
                strtab_size(insert_imports(with_data, artifact.imports@)) <= usize::MAX,
            decreases artifact.imports@.len() - i,
        {
            proof {
                lemma_insert_imports(with_data, artifact.imports@, i as int);
                lemma_insert_imports(with_data, artifact.imports@, i + 1);
            }
            let import = artifact.imports[i].0;
            symtab.insert(import, SymbolType::Undefined);
            i += 1;
        }
        proof {
            assert(artifact.imports@.take(i as int) =~= artifact.imports@);
        }
        let sections = [text, data];
        SegmentBuilder { size, sections, offset }
    }
}

} // verus!
