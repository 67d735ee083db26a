//! The model of an object file and the bytes that it is written as.
//!
//! A [`MachModel`] holds what the writer knows once the segment, the symbol
//! table and the relocation records are built. [`layout_of`] gives the file
//! offsets that depend on one another, and [`image`] the bytes of the file:
//! header, segment load command with its two section headers, symbol table
//! load command, code, data, symbol table, string table, relocation records
//! and one trailing zero byte.

use vstd::prelude::*;
use vstd::utf8::encode_utf8;

use crate::artifact::{lemma_payload_len, payload, payload_len, Definition};
use crate::encode::{
    header_image, lemma_header_image_len, lemma_nlist_image_len, lemma_relocation_image_len,
    lemma_section_image_len, lemma_segment_image_len, lemma_symtab_image_len, nlist_image,
    relocation_image, section_image, segment_image, symtab_image,
};
use crate::records::{
    blank_segment, header_size, nlist_size, r_extern, r_symbolnum, section_size, segment_size,
    Header, RelocationInfo, SectionView, SegmentView, SymtabCommand, MH_MAGIC, MH_MAGIC_64,
};
use crate::section::SectionBuilder;
use crate::symbol::{
    entry_size, lemma_strtab_size_prefix, strtab_size, table_wf, SymbolEntry,
};
use crate::target::{cpu_type_of, Ctx, Target};

verus! {

/// What an object file is written from.
pub struct MachModel<'a> {
    pub ctx: Ctx,
    pub target: Target,
    /// The entries of the symbol table, in ordinal order.
    pub symbols: Seq<SymbolEntry>,
    /// The builders of the sections: text, then data.
    pub sections: Seq<SectionBuilder>,
    /// Size of the header plus the size of the contents of the sections.
    pub segment_offset: usize,
    /// Size of the contents of the sections.
    pub segment_size: usize,
    /// The relocation records, one group for each section that has any.
    pub relocations: Seq<Seq<RelocationInfo>>,
    pub code: Seq<Definition<'a>>,
    pub data: Seq<Definition<'a>>,
}

/// The file offsets of the parts of an object file, and the sizes of its
/// load commands.
pub struct LayoutModel {
    /// Size of the segment load command with its section headers.
    pub segment_lc_size: nat,
    /// Size of both load commands.
    pub sizeof_load_commands: nat,
    /// Where the contents of the first section start.
    pub first_section_offset: nat,
    /// Where the symbol table starts.
    pub symtable_offset: nat,
    /// Where the string table starts.
    pub strtable_offset: nat,
    /// Where the relocation records start.
    pub relocation_offset_start: nat,
}

/// The layout of an object file. Each offset is the one before it plus the
/// size of what lies between: the load commands after the header, the
/// contents of the sections, the symbol table, the string table.
pub open spec fn layout_of(m: MachModel) -> LayoutModel {
    let segment_lc_size = segment_size(m.ctx) + 2 * section_size(m.ctx);
    let sizeof_load_commands = segment_lc_size + 24;
    let symtable_offset = m.segment_offset as nat + sizeof_load_commands;
    let strtable_offset = symtable_offset + m.symbols.len() * nlist_size(m.ctx);
    LayoutModel {
        segment_lc_size,
        sizeof_load_commands,
        first_section_offset: header_size(m.ctx) + sizeof_load_commands,
        symtable_offset,
        strtable_offset,
        relocation_offset_start: strtable_offset + strtab_size(m.symbols),
    }
}

/// The number of relocation records in all groups.
pub open spec fn relocation_count(groups: Seq<Seq<RelocationInfo>>) -> nat
    decreases groups.len(),
{
    if groups.len() == 0 {
        0
    } else {
        relocation_count(groups.drop_last()) + groups.last().len()
    }
}

/// The number of records in the first `count` groups.
pub open spec fn relocation_count_before(groups: Seq<Seq<RelocationInfo>>, count: int) -> nat {
    if count <= 0 {
        0
    } else if count >= groups.len() {
        relocation_count(groups)
    } else {
        relocation_count(groups.take(count))
    }
}

/// The length of the object file.
pub open spec fn image_len(m: MachModel) -> nat {
    layout_of(m).relocation_offset_start + relocation_count(m.relocations) * 8 + 1
}

/// What holds of the model of every object file that is written: the symbol
/// table is well-formed and its symbols are in sections whose ordinal can be
/// counted from 1; there are two sections with short names, as large as the
/// code and the data; the segment is as large as both; every relocation
/// record is external and refers to a symbol of the table; and the length
/// of the file is a `usize`.
pub open spec fn model_wf(m: MachModel) -> bool {
    &&& table_wf(m.symbols)
    &&& forall|i: int|
        0 <= i < m.symbols.len() ==> ((#[trigger] m.symbols[i]).symbol.section matches Some(s)
            ==> s < usize::MAX)
    &&& m.sections.len() == 2
    &&& m.sections[0].wf()
    &&& m.sections[1].wf()
    &&& m.sections[0].size == payload_len(m.code)
    &&& m.sections[1].size == payload_len(m.data)
    &&& m.segment_size == payload_len(m.code) + payload_len(m.data)
    &&& m.segment_offset == header_size(m.ctx) + m.segment_size
    &&& forall|g: int, i: int|
        0 <= g < m.relocations.len() && 0 <= i < m.relocations[g].len() ==> {
            &&& r_symbolnum((#[trigger] m.relocations[g][i]).r_info) < m.symbols.len()
            &&& r_extern(m.relocations[g][i].r_info) == 1
        }
    &&& image_len(m) <= usize::MAX
}

/// The header of an object file: a relocatable object for the CPU of the
/// target, with two load commands.
pub open spec fn header_of(m: MachModel) -> Header {
    Header {
        magic: if m.ctx.wide() {
            MH_MAGIC_64
        } else {
            MH_MAGIC
        },
        cputype: cpu_type_of(m.target),
        cpusubtype: 3,
        filetype: 0x1,
        ncmds: 2,
        sizeofcmds: layout_of(m).sizeof_load_commands as usize as u32,
        flags: 0x2000,
        reserved: 0,
    }
}

/// Where the contents of the section `idx` start: after the contents of the
/// sections before it.
pub open spec fn section_cursor(m: MachModel, idx: int) -> nat
    decreases idx,
{
    if idx <= 0 {
        layout_of(m).first_section_offset
    } else {
        section_cursor(m, idx - 1) + m.sections[idx - 1].size as nat
    }
}

/// Where the relocation records of the section `idx` start: after the
/// records of the sections before it.
pub open spec fn relocation_cursor(m: MachModel, idx: int) -> nat
    decreases idx,
{
    if idx <= 0 {
        layout_of(m).relocation_offset_start
    } else if idx - 1 < m.relocations.len() {
        relocation_cursor(m, idx - 1) + m.relocations[idx - 1].len() * 8
    } else {
        relocation_cursor(m, idx - 1)
    }
}

/// The header of the section `idx` as it is written: with the file offset of
/// its contents and, if the section has a group of relocation records, with
/// their file offset and their number.
pub open spec fn patched_section(m: MachModel, idx: int) -> SectionView {
    let section = m.sections[idx].section();
    if idx < m.relocations.len() {
        SectionView {
            offset: section_cursor(m, idx) as usize as u32,
            nreloc: m.relocations[idx].len() as usize as u32,
            reloff: relocation_cursor(m, idx) as usize as u32,
            ..section
        }
    } else {
        SectionView { offset: section_cursor(m, idx) as usize as u32, ..section }
    }
}

/// The encoded headers of the first `count` sections.
pub open spec fn sections_image(m: MachModel, count: int) -> Seq<u8>
    decreases count,
{
    if count <= 0 {
        Seq::empty()
    } else {
        sections_image(m, count - 1) + section_image(m.ctx, patched_section(m, count - 1))
    }
}

/// The segment load command: it counts its two section headers, covers the
/// contents of both sections in the file and in memory, and allows reading,
/// writing and executing.
pub open spec fn segment_of(m: MachModel) -> SegmentView {
    SegmentView {
        nsects: 2,
        initprot: 7,
        maxprot: 7,
        filesize: m.segment_size as u64,
        vmsize: m.segment_size as u64,
        fileoff: layout_of(m).first_section_offset as usize as u64,
        ..blank_segment(m.ctx, 2 * section_size(m.ctx))
    }
}

/// The symbol table load command: where the symbol table and the string
/// table are, and how large.
pub open spec fn symtab_of(m: MachModel) -> SymtabCommand {
    SymtabCommand {
        cmd: 0x2,
        cmdsize: 24,
        symoff: layout_of(m).symtable_offset as usize as u32,
        nsyms: m.symbols.len() as usize as u32,
        stroff: layout_of(m).strtable_offset as usize as u32,
        strsize: strtab_size(m.symbols) as usize as u32,
    }
}

/// The encoded entries of a symbol table.
pub open spec fn nlists_image(ctx: Ctx, table: Seq<SymbolEntry>) -> Seq<u8>
    decreases table.len(),
{
    if table.len() == 0 {
        Seq::empty()
    } else {
        nlists_image(ctx, table.drop_last()) + nlist_image(ctx, table.last().symbol.nlist())
    }
}

/// The bytes of a name in the string table: an underscore, the name, and a
/// zero byte.
pub open spec fn name_entry(name: Seq<char>) -> Seq<u8> {
    seq![0x5fu8] + encode_utf8(name) + seq![0u8]
}

/// The string table of a symbol table: a zero byte, then the names in
/// ordinal order.
pub open spec fn strtab_image(table: Seq<SymbolEntry>) -> Seq<u8>
    decreases table.len(),
{
    if table.len() == 0 {
        seq![0u8]
    } else {
        strtab_image(table.drop_last()) + name_entry(table.last().name)
    }
}

/// The encoded records of one group.
pub open spec fn group_image(group: Seq<RelocationInfo>) -> Seq<u8>
    decreases group.len(),
{
    if group.len() == 0 {
        Seq::empty()
    } else {
        group_image(group.drop_last()) + relocation_image(group.last())
    }
}

/// The encoded records of all groups, group after group.
pub open spec fn groups_image(groups: Seq<Seq<RelocationInfo>>) -> Seq<u8>
    decreases groups.len(),
{
    if groups.len() == 0 {
        Seq::empty()
    } else {
        groups_image(groups.drop_last()) + group_image(groups.last())
    }
}

/// The header and the load commands of the file.
pub open spec fn commands_image(m: MachModel) -> Seq<u8> {
    header_image(m.ctx, header_of(m)) + segment_image(m.ctx, segment_of(m)) + sections_image(m, 2)
        + symtab_image(symtab_of(m))
}

/// The bytes of the object file.
pub open spec fn image(m: MachModel) -> Seq<u8> {
    commands_image(m) + payload(m.code) + payload(m.data) + nlists_image(m.ctx, m.symbols)
        + strtab_image(m.symbols) + groups_image(m.relocations) + seq![0u8]
}

/// Every part of the file stands at the offset that the layout gives it:
/// the file ends one byte after the relocation records; the load commands,
/// the contents of the sections, the symbol table, the string table and the
/// relocation records start at their offsets; the last byte is zero.
pub open spec fn parts_in_place(m: MachModel, bytes: Seq<u8>) -> bool {
    let l = layout_of(m);
    &&& bytes.len() == l.relocation_offset_start + relocation_count(m.relocations) * 8 + 1
    &&& bytes.subrange(0, l.first_section_offset as int) == commands_image(m)
    &&& bytes.subrange(
        l.first_section_offset as int,
        (l.first_section_offset + payload_len(m.code)) as int,
    ) == payload(m.code)
    &&& bytes.subrange(
        (l.first_section_offset + payload_len(m.code)) as int,
        l.symtable_offset as int,
    ) == payload(m.data)
    &&& bytes.subrange(l.symtable_offset as int, l.strtable_offset as int) == nlists_image(
        m.ctx,
        m.symbols,
    )
    &&& bytes.subrange(l.strtable_offset as int, l.relocation_offset_start as int) == strtab_image(
        m.symbols,
    )
    &&& bytes.subrange(l.relocation_offset_start as int, bytes.len() - 1) == groups_image(
        m.relocations,
    )
    &&& bytes[bytes.len() - 1] == 0
}

/// Every symbol records an offset in the string table at which, in the
/// file, an underscore and then the name of the symbol stand.
pub open spec fn names_in_place(m: MachModel, bytes: Seq<u8>) -> bool {
    forall|i: int|
        0 <= i < m.symbols.len() ==> {
            let strx = (#[trigger] m.symbols[i]).symbol.nlist().n_strx;
            &&& strx < strtab_size(m.symbols)
            &&& bytes[layout_of(m).strtable_offset + strx] == 0x5f
            &&& bytes.subrange(
                (layout_of(m).strtable_offset + strx + 1) as int,
                (layout_of(m).strtable_offset + strx + 1 + encode_utf8(
                    m.symbols[i].name,
                ).len()) as int,
            ) == encode_utf8(m.symbols[i].name)
        }
}

/// What holds of the bytes of a file that is laid out as its model says.
pub open spec fn laid_out(m: MachModel, bytes: Seq<u8>) -> bool {
    &&& parts_in_place(m, bytes)
    &&& names_in_place(m, bytes)
}

/// No part of the file reaches beyond its end.
pub proof fn lemma_image_len_bounds(m: MachModel)
    ensures
        ({
            let l = layout_of(m);
            &&& l.sizeof_load_commands <= 256
            &&& l.first_section_offset <= 288
            &&& m.segment_offset + l.sizeof_load_commands == l.symtable_offset
            &&& l.symtable_offset <= l.strtable_offset
            &&& m.symbols.len() * nlist_size(m.ctx) == l.strtable_offset - l.symtable_offset
            &&& m.symbols.len() <= m.symbols.len() * nlist_size(m.ctx)
            &&& l.strtable_offset + strtab_size(m.symbols) == l.relocation_offset_start
            &&& l.relocation_offset_start < image_len(m)
            &&& relocation_count(m.relocations) * 8 < image_len(m)
        }),
{
    assert(0 <= m.symbols.len() * nlist_size(m.ctx) && m.symbols.len() <= m.symbols.len()
        * nlist_size(m.ctx)) by (nonlinear_arith)
        requires
            nlist_size(m.ctx) >= 1,
    ;
}

/// The groups before a group hold no more records than all groups, and one
/// group more holds the records of that group more.
pub proof fn lemma_relocation_count_before(groups: Seq<Seq<RelocationInfo>>, count: int)
    ensures
        relocation_count_before(groups, count) <= relocation_count(groups),
        0 <= count < groups.len() ==> relocation_count_before(groups, count + 1)
            == relocation_count_before(groups, count) + groups[count].len(),
        count >= groups.len() ==> relocation_count_before(groups, count + 1)
            == relocation_count_before(groups, count),
    decreases groups.len(),
{
    if groups.len() > 0 {
        let rest = groups.drop_last();
        lemma_relocation_count_before(rest, count);
        if 0 <= count < groups.len() {
            assert(groups.take(0) =~= Seq::<Seq<RelocationInfo>>::empty());
            if count + 1 >= groups.len() {
                assert(groups.take(count) =~= rest);
            } else {
                assert(groups.take(count + 1).drop_last() =~= groups.take(count));
                assert(rest.take(count) =~= groups.take(count));
                assert(rest.take(count + 1) =~= groups.take(count + 1));
            }
        }
    }
}

/// The contents of the sections lie between the load commands and the
/// symbol table, and the records of the groups lie between the string table
/// and the last byte of the file.
pub proof fn lemma_cursors(m: MachModel, idx: int)
    requires
        model_wf(m),
        0 <= idx <= 2,
    ensures
        section_cursor(m, idx) == layout_of(m).first_section_offset + (if idx >= 1 {
            m.sections[0].size as nat
        } else {
            0
        }) + (if idx >= 2 {
            m.sections[1].size as nat
        } else {
            0
        }),
        section_cursor(m, idx) <= layout_of(m).symtable_offset,
        section_cursor(m, 2) == layout_of(m).symtable_offset,
        relocation_cursor(m, idx) == layout_of(m).relocation_offset_start
            + relocation_count_before(m.relocations, idx) * 8,
        relocation_cursor(m, idx) < image_len(m),
    decreases idx,
{
    assert(section_cursor(m, 1) == section_cursor(m, 0) + m.sections[0].size as nat);
    assert(section_cursor(m, 2) == section_cursor(m, 1) + m.sections[1].size as nat);
    lemma_relocation_count_before(m.relocations, idx);
    if idx > 0 {
        lemma_cursors(m, idx - 1);
        lemma_relocation_count_before(m.relocations, idx - 1);
    }
}

/// The header counts two load commands, and their size is that of the
/// segment load command with its section headers plus the 24 bytes of the
/// symbol table load command.
pub proof fn lemma_header_counts(m: MachModel)
    ensures
        header_of(m).ncmds == 2,
        header_of(m).sizeofcmds == layout_of(m).segment_lc_size + 24,
        layout_of(m).segment_lc_size == segment_size(m.ctx) + 2 * section_size(m.ctx),
{
}

/// The contents of each section, as its header places them, end at or
/// before the start of the symbol table.
pub proof fn lemma_sections_before_symbols(m: MachModel, idx: int)
    requires
        model_wf(m),
        0 <= idx < 2,
    ensures
        patched_section(m, idx).offset + patched_section(m, idx).size <= layout_of(
            m,
        ).symtable_offset,
{
    lemma_cursors(m, idx);
    lemma_cursors(m, idx + 1);
    lemma_image_len_bounds(m);
    let cursor = section_cursor(m, idx) as usize;
    assert(cursor as u32 <= cursor) by (bit_vector);
}

/// The encoded symbol table has one entry of the container's size for each
/// symbol.
pub proof fn lemma_nlists_image_len(ctx: Ctx, table: Seq<SymbolEntry>)
    ensures
        nlists_image(ctx, table).len() == table.len() * nlist_size(ctx),
    decreases table.len(),
{
    if table.len() > 0 {
        lemma_nlists_image_len(ctx, table.drop_last());
        lemma_nlist_image_len(ctx, table.last().symbol.nlist());
        assert(table.len() * nlist_size(ctx) == (table.len() - 1) * nlist_size(ctx) + nlist_size(
            ctx,
        )) by (nonlinear_arith);
    }
}

/// The string table is as long as the symbol table says, and the name of
/// each entry stands, after its underscore and before a zero byte, where
/// the size of the string table of the entries before it says.
pub proof fn lemma_strtab_image(table: Seq<SymbolEntry>, i: int)
    requires
        0 <= i <= table.len(),
    ensures
        strtab_image(table).len() == strtab_size(table),
        strtab_image(table)[0] == 0,
        i < table.len() ==> {
            &&& strtab_size(table.take(i)) + entry_size(table[i].name) <= strtab_size(table)
            &&& strtab_image(table).subrange(
                strtab_size(table.take(i)) as int,
                (strtab_size(table.take(i)) + entry_size(table[i].name)) as int,
            ) == name_entry(table[i].name)
        },
    decreases table.len(),
{
    if table.len() > 0 {
        let before = table.drop_last();
        lemma_strtab_size_prefix(table, i);
        if i < table.len() - 1 {
            lemma_strtab_image(before, i);
            assert(before.take(i) =~= table.take(i));
            let start = strtab_size(table.take(i)) as int;
            let end = start + entry_size(table[i].name);
            assert(strtab_image(table).subrange(start, end) =~= strtab_image(before).subrange(
                start,
                end,
            ));
        } else {
            lemma_strtab_image(before, before.len() as int);
            if i == table.len() - 1 {
                assert(table.take(i) =~= before);
                let start = strtab_size(before) as int;
                let end = start + entry_size(table[i].name);
                assert(strtab_image(table).subrange(start, end) =~= name_entry(table[i].name));
            }
        }
    }
}

/// The encoded records of a group take eight bytes each.
pub proof fn lemma_group_image_len(group: Seq<RelocationInfo>)
    ensures
        group_image(group).len() == group.len() * 8,
    decreases group.len(),
{
    if group.len() > 0 {
        lemma_group_image_len(group.drop_last());
        lemma_relocation_image_len(group.last());
    }
}

/// The encoded records of all groups take eight bytes each.
pub proof fn lemma_groups_image_len(groups: Seq<Seq<RelocationInfo>>)
    ensures
        groups_image(groups).len() == relocation_count(groups) * 8,
    decreases groups.len(),
{
    if groups.len() > 0 {
        lemma_groups_image_len(groups.drop_last());
        lemma_group_image_len(groups.last());
    }
}

/// The header and the load commands end where the contents of the first
/// section start.
pub proof fn lemma_commands_image_len(m: MachModel)
    ensures
        commands_image(m).len() == layout_of(m).first_section_offset,
{
    let first = section_image(m.ctx, patched_section(m, 0));
    let second = section_image(m.ctx, patched_section(m, 1));
    lemma_header_image_len(m.ctx, header_of(m));
    lemma_segment_image_len(m.ctx, segment_of(m));
    lemma_section_image_len(m.ctx, patched_section(m, 0));
    lemma_section_image_len(m.ctx, patched_section(m, 1));
    assert(sections_image(m, 0) =~= Seq::<u8>::empty());
    assert(sections_image(m, 1) =~= first);
    assert(sections_image(m, 2) =~= first + second);
    lemma_symtab_image_len(symtab_of(m));
}

/// Seven sequences, one after the other: each is found again where the
/// lengths of those before it add up to.
pub proof fn lemma_parts(
    a: Seq<u8>,
    b: Seq<u8>,
    c: Seq<u8>,
    d: Seq<u8>,
    e: Seq<u8>,
    f: Seq<u8>,
    g: Seq<u8>,
)
    ensures
        ({
            let all = a + b + c + d + e + f + g;
            let at_b = a.len() as int;
            let at_c = at_b + b.len();
            let at_d = at_c + c.len();
            let at_e = at_d + d.len();
            let at_f = at_e + e.len();
            let at_g = at_f + f.len();
            &&& all.len() == at_g + g.len()
            &&& all.subrange(0, at_b) == a
            &&& all.subrange(at_b, at_c) == b
            &&& all.subrange(at_c, at_d) == c
            &&& all.subrange(at_d, at_e) == d
            &&& all.subrange(at_e, at_f) == e
            &&& all.subrange(at_f, at_g) == f
            &&& all.subrange(at_g, at_g + g.len()) == g
        }),
{
    let all = a + b + c + d + e + f + g;
    let at_b = a.len() as int;
    let at_c = at_b + b.len();
    let at_d = at_c + c.len();
    let at_e = at_d + d.len();
    let at_f = at_e + e.len();
    let at_g = at_f + f.len();
    assert(all.subrange(0, at_b) =~= a);
    assert(all.subrange(at_b, at_c) =~= b);
    assert(all.subrange(at_c, at_d) =~= c);
    assert(all.subrange(at_d, at_e) =~= d);
    assert(all.subrange(at_e, at_f) =~= e);
    assert(all.subrange(at_f, at_g) =~= f);
    assert(all.subrange(at_g, at_g + g.len()) =~= g);
}

/// A sequence that stands, between an underscore and a zero byte, at
/// `strx` in a table stands at `strx` plus one behind the start of the table
/// in a file that holds the table.
pub proof fn lemma_entry_in_file(
    bytes: Seq<u8>,
    start: int,
    table: Seq<u8>,
    strx: int,
    body: Seq<u8>,
)
    requires
        0 <= start,
        start + table.len() <= bytes.len(),
        bytes.subrange(start, start + table.len()) == table,
        0 <= strx,
        strx + body.len() + 2 <= table.len(),
        table.subrange(strx, strx + body.len() + 2) == seq![0x5fu8] + body + seq![0u8],
    ensures
        bytes[start + strx] == 0x5f,
        bytes.subrange(start + strx + 1, start + strx + 1 + body.len()) == body,
{
    let whole = bytes.subrange(start, start + table.len());
    let entry = table.subrange(strx, strx + body.len() + 2);
    let framed = seq![0x5fu8] + body + seq![0u8];
    assert(whole[strx] == bytes[start + strx]);
    assert(entry[0] == table[strx]);
    assert(framed[0] == 0x5f);
    let got = bytes.subrange(start + strx + 1, start + strx + 1 + body.len());
    assert forall|k: int| 0 <= k < body.len() implies #[trigger] got[k] == body[k] by {
        assert(whole[strx + 1 + k] == bytes[start + strx + 1 + k]);
        assert(entry[1 + k] == table[strx + 1 + k]);
        assert(framed[1 + k] == body[k]);
    }
    assert(got =~= body);
}

/// In a file that holds the string table at its offset, the name of the
/// symbol `i` stands where the symbol says, after an underscore.
pub proof fn lemma_name_in_file(table: Seq<SymbolEntry>, bytes: Seq<u8>, start: int, i: int)
    requires
        table_wf(table),
        0 <= i < table.len(),
        0 <= start,
        start + strtab_size(table) <= bytes.len(),
        bytes.subrange(start, start + strtab_size(table)) == strtab_image(table),
    ensures
        ({
            let strx = table[i].symbol.nlist().n_strx;
            &&& strx < strtab_size(table)
            &&& bytes[start + strx] == 0x5f
            &&& bytes.subrange(
                start + strx + 1,
                start + strx + 1 + encode_utf8(table[i].name).len(),
            ) == encode_utf8(table[i].name)
        }),
{
    lemma_strtab_image(table, i);
    let strx = table[i].symbol.nlist().n_strx as int;
    assert(strx == strtab_size(table.take(i)));
    lemma_entry_in_file(bytes, start, strtab_image(table), strx, encode_utf8(table[i].name));
}

/// The parts of a file are as long as the layout counts them.
pub proof fn lemma_part_lens(m: MachModel)
    requires
        model_wf(m),
    ensures
        ({
            let l = layout_of(m);
            &&& commands_image(m).len() == l.first_section_offset
            &&& l.first_section_offset + payload(m.code).len() + payload(m.data).len()
                == l.symtable_offset
            &&& payload(m.code).len() == payload_len(m.code)
            &&& l.symtable_offset + nlists_image(m.ctx, m.symbols).len() == l.strtable_offset
            &&& l.strtable_offset + strtab_image(m.symbols).len() == l.relocation_offset_start
            &&& strtab_image(m.symbols).len() == strtab_size(m.symbols)
            &&& groups_image(m.relocations).len() == relocation_count(m.relocations) * 8
        }),
{
    lemma_commands_image_len(m);
    lemma_payload_len(m.code);
    lemma_payload_len(m.data);
    lemma_nlists_image_len(m.ctx, m.symbols);
    lemma_strtab_image(m.symbols, m.symbols.len() as int);
    lemma_groups_image_len(m.relocations);
}

/// The parts of a file stand at their offsets.
pub proof fn lemma_parts_in_place(m: MachModel)
    requires
        model_wf(m),
    ensures
        parts_in_place(m, image(m)),
{
    let bytes = image(m);
    lemma_part_lens(m);
    lemma_parts(
        commands_image(m),
        payload(m.code),
        payload(m.data),
        nlists_image(m.ctx, m.symbols),
        strtab_image(m.symbols),
        groups_image(m.relocations),
        seq![0u8],
    );
    assert(bytes.subrange(bytes.len() - 1, bytes.len() as int)[0] == bytes[bytes.len() - 1]);
}

/// The bytes of a file are laid out as its model says.
pub proof fn lemma_laid_out(m: MachModel)
    requires
        model_wf(m),
    ensures
        laid_out(m, image(m)),
        image(m).len() == image_len(m),
{
    let bytes = image(m);
    lemma_parts_in_place(m);
    lemma_part_lens(m);
    assert forall|i: int| 0 <= i < m.symbols.len() implies {
        let strx = (#[trigger] m.symbols[i]).symbol.nlist().n_strx;
        &&& strx < strtab_size(m.symbols)
        &&& bytes[layout_of(m).strtable_offset + strx] == 0x5f
        &&& bytes.subrange(
            (layout_of(m).strtable_offset + strx + 1) as int,
            (layout_of(m).strtable_offset + strx + 1 + encode_utf8(m.symbols[i].name).len()) as int,
        ) == encode_utf8(m.symbols[i].name)
    } by {
        lemma_name_in_file(m.symbols, bytes, layout_of(m).strtable_offset as int, i);
    }
}

} // verus!
