//! The writer: from an artifact to the bytes of a Mach-O object file.

use vstd::prelude::*;
use vstd::string::StringSliceAdditionalSpecFns;

use crate::artifact::{
    lemma_select_payload_len, payload, payload_len, select, Artifact, Definition,
};
use crate::encode::{
    header_bytes, name_image, nlist_bytes, relocation_bytes, section_bytes, segment_bytes,
    symtab_bytes,
};
use crate::image::{
    group_image, groups_image, header_of, image, image_len, laid_out, layout_of, lemma_laid_out,
    model_wf, name_entry, nlists_image, patched_section, relocation_cursor,
    section_cursor, sections_image, segment_of, strtab_image, symtab_of, LayoutModel,
    MachModel,
};
use crate::records::{
    header_size, nlist_size, r_extern, r_symbolnum, section_size, segment_size, Header, Nlist,
    RelocationInfo, Section, SegmentCommand, SymtabCommand, MH_OBJECT,
    MH_SUBSECTIONS_VIA_SYMBOLS, SIZEOF_RELOCATION_INFO,
};
use crate::relocation::{
    build_relocations, lemma_text_relocations_symbols, link_in_range, text_relocations,
};
use crate::section::{
    data_section, insert_all, lemma_insert_sections_known, lemma_section_names, text_section,
    SegmentBuilder,
};
use crate::symbol::{SymbolBuilder, SymbolEntry, SymbolTable};
use crate::target::{cpu_type, ctx_of, Ctx, Target, CPU_SUBTYPE_ALL};

verus! {

/// The file offsets of the parts of an object file, and the sizes of its
/// load commands.
#[derive(Debug, Clone, Copy, PartialEq, Eq)]
pub struct Layout {
    /// Size of the segment load command with its section headers.
    pub segment_lc_size: usize,
    /// Size of both load commands.
    pub sizeof_load_commands: usize,
    /// Where the contents of the first section start.
    pub first_section_offset: usize,
    /// Where the symbol table starts.
    pub symtable_offset: usize,
    /// Where the string table starts.
    pub strtable_offset: usize,
    /// Where the relocation records start.
    pub relocation_offset_start: usize,
}

impl View for Layout {
    type V = LayoutModel;

    open spec fn view(&self) -> LayoutModel {
        LayoutModel {
            segment_lc_size: self.segment_lc_size as nat,
            sizeof_load_commands: self.sizeof_load_commands as nat,
            first_section_offset: self.first_section_offset as nat,
            symtable_offset: self.symtable_offset as nat,
            strtable_offset: self.strtable_offset as nat,
            relocation_offset_start: self.relocation_offset_start as nat,
        }
    }
}

/// The model of the object file of an artifact. The definitions are split
/// into code and data, each in the order of the artifact. The symbols are
/// those of the code, of the data and of the imports, in this order. All
/// relocation records are in one group, that of the text section.
pub open spec fn model_of<'a>(artifact: Artifact<'a>) -> MachModel<'a> {
    let ctx = ctx_of(artifact.target);
    let code = select(artifact.definitions@, true);
    let data = select(artifact.definitions@, false);
    let symbols = insert_all(Seq::empty(), code, data, artifact.imports@);
    MachModel {
        ctx,
        target: artifact.target,
        symbols,
        sections: seq![
            text_section(ctx, payload_len(code)),
            data_section(ctx, payload_len(code), payload_len(data)),
        ],
        segment_offset: (header_size(ctx) + payload_len(code) + payload_len(data)) as usize,
        segment_size: (payload_len(code) + payload_len(data)) as usize,
        relocations: seq![text_relocations(symbols, artifact.links@)],
        code,
        data,
    }
}

/// Whether the object file of an artifact can be addressed: the header and
/// the payloads together, and the whole file, are no longer than the largest
/// `usize`, and so is the place that each link relocates.
pub open spec fn emittable<'a>(artifact: Artifact<'a>) -> bool {
    let m = model_of(artifact);
    &&& header_size(m.ctx) + payload_len(artifact.definitions@) <= usize::MAX
    &&& image_len(m) <= usize::MAX
    &&& forall|i: int|
        0 <= i < artifact.links@.len() ==> link_in_range(m.symbols, #[trigger] artifact.links@[i])
}

/// The groups of relocation records as sequences.
pub open spec fn groups_view(groups: Seq<Vec<RelocationInfo>>) -> Seq<Seq<RelocationInfo>> {
    Seq::new(groups.len(), |i: int| groups[i]@)
}

/// The model of an emittable artifact is well-formed.
pub proof fn lemma_model_of_wf<'a>(artifact: Artifact<'a>)
    requires
        emittable(artifact),
    ensures
        model_wf(model_of(artifact)),
{
    let m = model_of(artifact);
    let code = select(artifact.definitions@, true);
    let data = select(artifact.definitions@, false);
    lemma_select_payload_len(artifact.definitions@);
    lemma_section_names(m.ctx, payload_len(code), payload_len(data));
    lemma_insert_sections_known(Seq::empty(), code, data, artifact.imports@);
    crate::section::lemma_insert_all_wf(Seq::empty(), code, data, artifact.imports@);
    assert forall|g: int, i: int|
        0 <= g < m.relocations.len() && 0 <= i < m.relocations[g].len() implies {
        &&& r_symbolnum((#[trigger] m.relocations[g][i]).r_info) < m.symbols.len()
        &&& r_extern(m.relocations[g][i].r_info) == 1
    } by {
        lemma_text_relocations_symbols(m.symbols, artifact.links@, i);
    }
}

/// Every relocation record of the object file of an artifact is external
/// and refers, by its symbol number, to a symbol of the symbol table.
pub proof fn lemma_relocations_refer_to_symbols<'a>(artifact: Artifact<'a>, i: int)
    requires
        0 <= i < model_of(artifact).relocations[0].len(),
    ensures
        r_symbolnum(model_of(artifact).relocations[0][i].r_info) < model_of(
            artifact,
        ).symbols.len(),
        r_extern(model_of(artifact).relocations[0][i].r_info) == 1,
{
    lemma_text_relocations_symbols(model_of(artifact).symbols, artifact.links@, i);
}

/// The first section of every object file is `__text` in the segment
/// `__TEXT` and holds the code; the second is `__data` in `__DATA` and holds
/// the data, which starts in the file and in memory where the code ends.
pub proof fn lemma_sections_of<'a>(artifact: Artifact<'a>)
    requires
        emittable(artifact),
    ensures
        ({
            let m = model_of(artifact);
            let text = patched_section(m, 0);
            let data = patched_section(m, 1);
            &&& text.sectname == name_image("__text".spec_bytes())
            &&& text.segname == name_image("__TEXT".spec_bytes())
            &&& text.addr == 0
            &&& text.size == payload_len(m.code)
            &&& text.offset == layout_of(m).first_section_offset
            &&& data.sectname == name_image("__data".spec_bytes())
            &&& data.segname == name_image("__DATA".spec_bytes())
            &&& data.addr == text.size
            &&& data.size == payload_len(m.data)
            &&& data.offset == (text.offset + text.size) as usize as u32
        }),
{
    let m = model_of(artifact);
    lemma_model_of_wf(artifact);
    lemma_select_payload_len(artifact.definitions@);
    crate::image::lemma_cursors(m, 0);
    crate::image::lemma_cursors(m, 1);
    crate::image::lemma_image_len_bounds(m);
}

/// Writing is repeatable: two files that were written from the same
/// artifact are equal byte for byte.
pub proof fn lemma_write_is_repeatable<'a>(artifact: Artifact<'a>, first: Seq<u8>, second: Seq<u8>)
    requires
        first == image(model_of(artifact)),
        second == image(model_of(artifact)),
    ensures
        first == second,
{
}

/// Appends `bytes` to `sink`.
fn append(sink: &mut Vec<u8>, bytes: &[u8])
    ensures
        final(sink)@ == old(sink)@ + bytes@,
{
    sink.extend_from_slice(bytes);
    assert(sink@ =~= old(sink)@ + bytes@);
}

/// Appends the payloads of `definitions` to `sink`, in order.
fn write_payloads<'a>(sink: &mut Vec<u8>, definitions: &Vec<Definition<'a>>)
    ensures
        final(sink)@ == old(sink)@ + payload(definitions@),
{
    let ghost before = sink@;
    let mut i: usize = 0;
    proof {
        assert(definitions@.take(0) =~= Seq::<Definition<'a>>::empty());
        assert(sink@ =~= before + payload(definitions@.take(0)));
    }
    while i < definitions.len()
        invariant
            0 <= i <= definitions@.len(),
            sink@ == before + payload(definitions@.take(i as int)),
        decreases definitions@.len() - i,
    {
        let ghost so_far = payload(definitions@.take(i as int));
        append(sink, definitions[i].data);
        proof {
            assert(definitions@.take(i + 1).drop_last() =~= definitions@.take(i as int));
            assert(sink@ =~= before + (so_far + definitions@[i as int].data@));
        }
        i += 1;
    }
    proof {
        assert(definitions@.take(i as int) =~= definitions@);
    }
}

/// Appends the encoded symbol table entries of `symbols` to `sink`, in
/// order.
fn write_symbols(
    sink: &mut Vec<u8>,
    ctx: &Ctx,
    symbols: &Vec<SymbolBuilder>,
    Ghost(table): Ghost<Seq<SymbolEntry>>,
)
    requires
        symbols@.len() == table.len(),
        forall|i: int| 0 <= i < table.len() ==> symbols@[i] == (#[trigger] table[i]).symbol,
        forall|i: int|
            0 <= i < table.len() ==> ((#[trigger] table[i]).symbol.section matches Some(s) ==> s
                < usize::MAX),
    ensures
        final(sink)@ == old(sink)@ + nlists_image(*ctx, table),
{
    let ghost before = sink@;
    let mut i: usize = 0;
    proof {
        assert(table.take(0) =~= Seq::<SymbolEntry>::empty());
        assert(sink@ =~= before + nlists_image(*ctx, table.take(0)));
    }
    while i < symbols.len()
        invariant
            0 <= i <= table.len(),
            symbols@.len() == table.len(),
            forall|j: int| 0 <= j < table.len() ==> symbols@[j] == (#[trigger] table[j]).symbol,
            forall|j: int|
                0 <= j < table.len() ==> ((#[trigger] table[j]).symbol.section matches Some(s)
                    ==> s < usize::MAX),
            sink@ == before + nlists_image(*ctx, table.take(i as int)),
        decreases table.len() - i,
    {
        let ghost so_far = nlists_image(*ctx, table.take(i as int));
        assert(symbols@[i as int] == table[i as int].symbol);
        let symbol = symbols[i].create();
        let bytes = nlist_bytes(ctx, &symbol);
        append(sink, bytes.as_slice());
        proof {
            assert(table.take(i + 1).drop_last() =~= table.take(i as int));
            assert(sink@ =~= before + (so_far + bytes@));
        }
        i += 1;
    }
    proof {
        assert(table.take(i as int) =~= table);
    }
}

/// Appends the string table to `sink`: a zero byte, then every name but the
/// empty first one, each after an underscore and before a zero byte.
fn write_strtable(sink: &mut Vec<u8>, names: &Vec<String>, Ghost(table): Ghost<Seq<SymbolEntry>>)
    requires
        names@.len() == table.len() + 1,
        forall|i: int| 0 <= i < table.len() ==> names@[i + 1]@ == (#[trigger] table[i]).name,
    ensures
        final(sink)@ == old(sink)@ + strtab_image(table),
{
    let ghost before = sink@;
    sink.push(0u8);
    let mut i: usize = 1;
    proof {
        assert(table.take(0) =~= Seq::<SymbolEntry>::empty());
        assert(sink@ =~= before + strtab_image(table.take(0)));
    }
    while i < names.len()
        invariant
            1 <= i <= names@.len(),
            names@.len() == table.len() + 1,
            forall|j: int| 0 <= j < table.len() ==> names@[j + 1]@ == (#[trigger] table[j]).name,
            sink@ == before + strtab_image(table.take(i - 1)),
        decreases names@.len() - i,
    {
        let ghost so_far = strtab_image(table.take(i - 1));
        let name = names[i].as_str();
        assert(name@ == table[i - 1].name);
        // the underscore that every symbol name starts with
        sink.push(0x5fu8);
        append(sink, name.as_bytes());
        sink.push(0u8);
        proof {
            assert(table.take(i as int).drop_last() =~= table.take(i - 1));
            assert(sink@ =~= before + (so_far + name_entry(table[i - 1].name)));
        }
        i += 1;
    }
    proof {
        assert(table.take(i - 1) =~= table);
    }
}

/// Appends the encoded records of `group` to `sink`, in order.
fn write_group(sink: &mut Vec<u8>, group: &Vec<RelocationInfo>)
    ensures
        final(sink)@ == old(sink)@ + group_image(group@),
{
    let ghost before = sink@;
    let mut i: usize = 0;
    proof {
        assert(group@.take(0) =~= Seq::<RelocationInfo>::empty());
        assert(sink@ =~= before + group_image(group@.take(0)));
    }
    while i < group.len()
        invariant
            0 <= i <= group@.len(),
            sink@ == before + group_image(group@.take(i as int)),
        decreases group@.len() - i,
    {
        let ghost so_far = group_image(group@.take(i as int));
        let bytes = relocation_bytes(&group[i]);
        append(sink, bytes.as_slice());
        proof {
            assert(group@.take(i + 1).drop_last() =~= group@.take(i as int));
            assert(sink@ =~= before + (so_far + bytes@));
        }
        i += 1;
    }
    proof {
        assert(group@.take(i as int) =~= group@);
    }
}

/// Appends the encoded records of all groups to `sink`, group after group.
fn write_relocations(sink: &mut Vec<u8>, groups: &Vec<Vec<RelocationInfo>>)
    ensures
        final(sink)@ == old(sink)@ + groups_image(groups_view(groups@)),
{
    let ghost before = sink@;
    let ghost all = groups_view(groups@);
    let mut i: usize = 0;
    proof {
        assert(all.take(0) =~= Seq::<Seq<RelocationInfo>>::empty());
        assert(sink@ =~= before + groups_image(all.take(0)));
    }
    while i < groups.len()
        invariant
            0 <= i <= groups@.len(),
            all == groups_view(groups@),
            sink@ == before + groups_image(all.take(i as int)),
        decreases groups@.len() - i,
    {
        let ghost so_far = groups_image(all.take(i as int));
        write_group(sink, &groups[i]);
        proof {
            assert(all.take(i + 1).drop_last() =~= all.take(i as int));
            assert(all.take(i + 1).last() == groups@[i as int]@);
            assert(sink@ =~= before + (so_far + group_image(groups@[i as int]@)));
        }
        i += 1;
    }
    proof {
        assert(all.take(i as int) =~= all);
    }
}

/// Writing seven parts one after the other onto what was there appends
/// them as a whole.
proof fn lemma_written(
    before: Seq<u8>,
    a: Seq<u8>,
    b: Seq<u8>,
    c: Seq<u8>,
    d: Seq<u8>,
    e: Seq<u8>,
    f: Seq<u8>,
)
    ensures
        (before + a + b + c + d + e + f).push(0u8) == before + (a + b + c + d + e + f + seq![0u8]),
{
    assert((before + a + b + c + d + e + f).push(0u8) =~= before + (a + b + c + d + e + f
        + seq![0u8]));
}

/// An object file in the making: the symbol table, the segment and the
/// relocation records of an artifact, and its code and data.
#[derive(Debug)]
pub struct Mach<'a> {
    ctx: Ctx,
    target: Target,
    symtab: SymbolTable,
    segment: SegmentBuilder,
    relocations: Vec<Vec<RelocationInfo>>,
    code: Vec<Definition<'a>>,
    data: Vec<Definition<'a>>,
}

impl<'a> Mach<'a> {
    /// What the object file is written from.
    pub closed spec fn view(&self) -> MachModel<'a> {
        MachModel {
            ctx: self.ctx,
            target: self.target,
            symbols: self.symtab@,
            sections: self.segment.sections@,
            segment_offset: self.segment.offset,
            segment_size: self.segment.size,
            relocations: groups_view(self.relocations@),
            code: self.code@,
            data: self.data@,
        }
    }

    /// The invariant: the symbol table meets its own invariant and the model
    /// is well-formed.
    pub closed spec fn wf(&self) -> bool {
        &&& self.symtab.wf()
        &&& model_wf(self@)
    }

    /// The model of a value that meets the invariant is well-formed.
    pub proof fn lemma_wf(&self)
        requires
            self.wf(),
        ensures
            model_wf(self@),
    {
    }

    /// Builds the symbol table, the segment and the relocation records of an
    /// artifact.
    pub fn new(artifact: &'a Artifact<'a>) -> (mach: Self)
        requires
            emittable(*artifact),
        ensures
            mach.wf(),
            mach@ == model_of(*artifact),
    {
        let target = artifact.target;
        let ctx = Ctx::for_target(target);
        let mut code: Vec<Definition<'a>> = Vec::new();
        let mut data: Vec<Definition<'a>> = Vec::new();
        let mut i: usize = 0;
        proof {
            assert(artifact.definitions@.take(0) =~= Seq::<Definition<'a>>::empty());
        }
        while i < artifact.definitions.len()
            invariant
                0 <= i <= artifact.definitions@.len(),
                code@ == select(artifact.definitions@.take(i as int), true),
                data@ == select(artifact.definitions@.take(i as int), false),
            decreases artifact.definitions@.len() - i,
        {
            let def = artifact.definitions[i];
            proof {
                assert(artifact.definitions@.take(i + 1).drop_last() =~= artifact.definitions@.take(
                    i as int,
                ));
            }
            if def.prop.function {
                code.push(def);
            } else {
                data.push(def);
            }
            i += 1;
        }
        proof {
            assert(artifact.definitions@.take(i as int) =~= artifact.definitions@);
            lemma_model_of_wf(*artifact);
            lemma_select_payload_len(artifact.definitions@);
            crate::image::lemma_image_len_bounds(model_of(*artifact));
        }
        let mut symtab = SymbolTable::new();
        let segment = SegmentBuilder::new(
            artifact,
            code.as_slice(),
            data.as_slice(),
            &mut symtab,
            &ctx,
        );
        let relocations = build_relocations(artifact, &symtab);
        let mach = Mach { ctx, target, symtab, segment, relocations, code, data };
        proof {
            let m = model_of(*artifact);
            assert(mach@.sections =~= m.sections);
            assert(mach@.relocations =~= m.relocations);
        }
        mach
    }

    /// Builds the object file of an artifact if the bound on its size is a
    /// `usize`, which makes the artifact emittable.
    pub fn try_new(artifact: &'a Artifact<'a>) -> (mach: Option<Self>)
        ensures
            mach is Some <==> crate::limits::size_bound(*artifact) <= usize::MAX,
            mach matches Some(m) ==> m.wf() && m@ == model_of(*artifact),
    {
        match artifact.size_bound() {
            Some(_) => {
                proof {
                    crate::limits::lemma_size_bound(*artifact);
                }
                Some(Mach::new(artifact))
            },
            None => None,
        }
    }

    /// The header of the object file, for load commands of `sizeofcmds`
    /// bytes: a relocatable object for the CPU of the target, with two load
    /// commands, whose sections may be split at symbols.
    pub fn header(&self, sizeofcmds: usize) -> (header: Header)
        ensures
            header == (Header { sizeofcmds: sizeofcmds as u32, ..header_of(self@) }),
            header.ncmds == 2,
    {
        let mut header = Header::new(&self.ctx);
        header.filetype = MH_OBJECT;
        // the sections may be divided into sub-sections at symbols
        header.flags = MH_SUBSECTIONS_VIA_SYMBOLS;
        header.cputype = cpu_type(self.target);
        header.cpusubtype = CPU_SUBTYPE_ALL;
        header.ncmds = 2;
        header.sizeofcmds = #[verifier::truncate]
        (sizeofcmds as u32);
        header
    }

    /// Solves the layout: the sizes of the load commands and the file
    /// offsets of the parts that follow them.
    pub fn layout(&self) -> (layout: Layout)
        requires
            self.wf(),
        ensures
            layout@ == layout_of(self@),
    {
        proof {
            crate::image::lemma_image_len_bounds(self@);
        }
        let symtab_load_command = SymtabCommand::new();
        let segment_lc_size = SegmentBuilder::load_command_size(&self.ctx);
        let sizeof_load_commands = segment_lc_size + symtab_load_command.cmdsize as usize;
        let symtable_offset = self.segment.offset + sizeof_load_commands;
        let nsyms = self.symtab.len();
        let entry = Nlist::size_with(&self.ctx);
        proof {
            assert(nsyms * entry == self@.symbols.len() * nlist_size(self.ctx));
        }
        let strtable_offset = symtable_offset + (nsyms * entry);
        let relocation_offset_start = strtable_offset + self.symtab.sizeof_strtable();
        let first_section_offset = Header::size_with(&self.ctx) + sizeof_load_commands;
        Layout {
            segment_lc_size,
            sizeof_load_commands,
            first_section_offset,
            symtable_offset,
            strtable_offset,
            relocation_offset_start,
        }
    }

    /// The headers of the two sections as they are written: each with the
    /// file offset of its contents and, where the section has a group of
    /// relocation records, with their file offset and their number.
    pub fn sections(&self, layout: &Layout) -> (sections: Vec<Section>)
        requires
            self.wf(),
            layout@ == layout_of(self@),
        ensures
            sections@.len() == 2,
            forall|idx: int|
                0 <= idx < 2 ==> (#[trigger] sections@[idx])@ == patched_section(self@, idx),
    {
        let ghost m = self@;
        let mut sections: Vec<Section> = Vec::new();
        let mut relocation_offset = layout.relocation_offset_start;
        let mut section_offset = layout.first_section_offset;
        let mut idx: usize = 0;
        while idx < SegmentBuilder::NSECTIONS
            invariant
                0 <= idx <= 2,
                self.wf(),
                m == self@,
                layout@ == layout_of(m),
                sections@.len() == idx,
                section_offset == section_cursor(m, idx as int),
                relocation_offset == relocation_cursor(m, idx as int),
                forall|j: int| 0 <= j < idx ==> (#[trigger] sections@[j])@ == patched_section(m, j),
            decreases 2 - idx,
        {
            proof {
                crate::image::lemma_cursors(m, idx as int);
                crate::image::lemma_cursors(m, idx + 1);
                crate::image::lemma_relocation_count_before(m.relocations, idx as int);
            }
            let mut section = self.segment.sections[idx].create();
            section.offset = #[verifier::truncate]
            (section_offset as u32);
            section_offset += section.size as usize;
            // the relocation records belong to the sections, group by group
            if idx < self.relocations.len() {
                let nrelocs = self.relocations[idx].len();
                section.nreloc = #[verifier::truncate]
                (nrelocs as u32);
                section.reloff = #[verifier::truncate]
                (relocation_offset as u32);
                relocation_offset += nrelocs * SIZEOF_RELOCATION_INFO;
            }
            assert(section@ == patched_section(m, idx as int));
            sections.push(section);
            idx += 1;
        }
        sections
    }

    /// The segment load command over the encoded section headers: it counts
    /// the sections, covers their contents in the file and in memory, and
    /// allows reading, writing and executing.
    pub fn segment_command(&self, layout: &Layout, raw_sections: &[u8]) -> (segment: SegmentCommand)
        requires
            self.wf(),
            layout@ == layout_of(self@),
            raw_sections@.len() == 2 * section_size(self@.ctx),
        ensures
            segment@ == segment_of(self@),
            layout.symtable_offset == self@.segment_offset + segment.cmdsize + 24,
    {
        proof {
            crate::image::lemma_image_len_bounds(self@);
        }
        let mut segment = SegmentCommand::new(&self.ctx, raw_sections);
        segment.nsects = SegmentBuilder::NSECTIONS as u32;
        segment.initprot = 7;
        segment.maxprot = 7;
        segment.filesize = self.segment.size() as u64;
        segment.vmsize = segment.filesize;
        segment.fileoff = layout.first_section_offset as u64;
        segment
    }

    /// The symbol table load command: where the symbol table and the string
    /// table are in the file, and how large they are.
    pub fn symtab_command(&self, layout: &Layout) -> (symtab: SymtabCommand)
        requires
            self.wf(),
            layout@ == layout_of(self@),
        ensures
            symtab == symtab_of(self@),
    {
        let mut symtab = SymtabCommand::new();
        symtab.nsyms = #[verifier::truncate]
        (self.symtab.len() as u32);
        symtab.symoff = #[verifier::truncate]
        (layout.symtable_offset as u32);
        symtab.stroff = #[verifier::truncate]
        (layout.strtable_offset as u32);
        symtab.strsize = #[verifier::truncate]
        (self.symtab.sizeof_strtable() as u32);
        symtab
    }

    /// Encodes the headers of the two sections, one after the other.
    fn section_headers(&self, layout: &Layout) -> (raw_sections: Vec<u8>)
        requires
            self.wf(),
            layout@ == layout_of(self@),
        ensures
            raw_sections@ == sections_image(self@, 2),
            raw_sections@.len() == 2 * section_size(self@.ctx),
    {
        let ghost m = self@;
        let sections = self.sections(layout);
        let first = section_bytes(&self.ctx, &sections[0]);
        let second = section_bytes(&self.ctx, &sections[1]);
        let mut raw_sections: Vec<u8> = Vec::new();
        append(&mut raw_sections, first.as_slice());
        append(&mut raw_sections, second.as_slice());
        proof {
            assert(sections@[0]@ == patched_section(m, 0));
            assert(sections@[1]@ == patched_section(m, 1));
            crate::encode::lemma_section_image_len(self.ctx, patched_section(m, 0));
            crate::encode::lemma_section_image_len(self.ctx, patched_section(m, 1));
            assert(sections_image(m, 0) =~= Seq::<u8>::empty());
            assert(sections_image(m, 1) =~= first@);
            assert(raw_sections@ =~= sections_image(m, 2));
        }
        raw_sections
    }

    /// Encodes the header and the load commands: the header, the segment
    /// load command with its section headers, the symbol table load command.
    fn load_commands(&self, layout: &Layout) -> (commands: Vec<u8>)
        requires
            self.wf(),
            layout@ == layout_of(self@),
        ensures
            commands@ == crate::image::commands_image(self@),
    {
        let header = self.header(layout.sizeof_load_commands);
        // the section headers are encoded first: the segment counts their bytes
        let raw_sections = self.section_headers(layout);
        let segment_load_command = self.segment_command(layout, raw_sections.as_slice());
        let symtab_load_command = self.symtab_command(layout);
        // the offsets that the load commands give are the offsets written at
        assert(layout.symtable_offset == self.segment.offset + segment_load_command.cmdsize as usize
            + symtab_load_command.cmdsize as usize);

        let mut commands = header_bytes(&self.ctx, &header);
        let bytes = segment_bytes(&self.ctx, &segment_load_command);
        append(&mut commands, bytes.as_slice());
        append(&mut commands, raw_sections.as_slice());
        let bytes = symtab_bytes(&symtab_load_command);
        append(&mut commands, bytes.as_slice());
        commands
    }

    /// Writes the object file to `sink`: the header, the segment load
    /// command with its section headers, the symbol table load command, the
    /// code, the data, the symbol table, the string table, the relocation
    /// records and a trailing zero byte. Every part is written at the file
    /// offset that the load commands give for it.
    pub fn write(self, sink: &mut Vec<u8>)
        requires
            self.wf(),
        ensures
            final(sink)@ == old(sink)@ + image(self@),
            laid_out(self@, image(self@)),
    {
        let ghost m = self@;
        let ghost before = sink@;
        let layout = self.layout();
        let commands = self.load_commands(&layout);
        let Mach { ctx, target: _, symtab, segment: _, relocations, code, data } = self;

        // the header and the load commands
        append(sink, commands.as_slice());
        // the contents of the sections
        write_payloads(sink, &code);
        write_payloads(sink, &data);
        // the symbol table and its strings
        let (symbols, names) = symtab.into_symbols();
        write_symbols(sink, &ctx, &symbols, Ghost(m.symbols));
        write_strtable(sink, &names, Ghost(m.symbols));
        // the relocation records
        write_relocations(sink, &relocations);
        sink.push(0u8);
        proof {
            lemma_laid_out(m);
            lemma_written(
                before,
                crate::image::commands_image(m),
                payload(m.code),
                payload(m.data),
                nlists_image(m.ctx, m.symbols),
                strtab_image(m.symbols),
                groups_image(m.relocations),
            );
        }
    }

    /// The bytes of the object file of an artifact.
    pub fn to_bytes(artifact: &'a Artifact<'a>) -> (bytes: Vec<u8>)
        requires
            emittable(*artifact),
        ensures
            bytes@ == image(model_of(*artifact)),
            laid_out(model_of(*artifact), bytes@),
    {
        let mach = Mach::new(artifact);
        let mut buffer: Vec<u8> = Vec::new();
        mach.write(&mut buffer);
        assert(buffer@ =~= image(model_of(*artifact)));
        buffer
    }
}

} // verus!
