//! The byte encodings of the records, which `goblin` and `scroll` compute.
//!
//! The functions of this module are not verified: each one converts a record
//! of this crate into the record of `goblin` with the same fields and has it
//! written into a buffer. The contracts state the bytes that are assumed to
//! come back: the fields of the record in their order, each in the byte
//! order of the context, with the widths of the container.

use std::io::Cursor;

use goblin::container::{Container as Width, Ctx as OutsideCtx};
use goblin::mach::segment::Segment;
use scroll::{IOwrite, Pwrite};
use vstd::prelude::*;
use vstd::string::StringSliceAdditionalSpecFns;

use crate::records::{
    header_size, nlist_size, section_size, segment_size, Header, Nlist, RelocationInfo, Section,
    SectionView, SegmentCommand, SegmentView, SymtabCommand,
};
use crate::target::{Container, Ctx, Endian};

verus! {

/// The two bytes of a 16-bit number in a byte order.
pub open spec fn half(order: Endian, value: u16) -> Seq<u8> {
    match order {
        Endian::Little => seq![(value & 0xff) as u8, ((value >> 8) & 0xff) as u8],
        Endian::Big => seq![((value >> 8) & 0xff) as u8, (value & 0xff) as u8],
    }
}

/// The four bytes of a 32-bit number in a byte order.
pub open spec fn word(order: Endian, value: u32) -> Seq<u8> {
    match order {
        Endian::Little => seq![
            (value & 0xff) as u8,
            ((value >> 8) & 0xff) as u8,
            ((value >> 16) & 0xff) as u8,
            ((value >> 24) & 0xff) as u8,
        ],
        Endian::Big => seq![
            ((value >> 24) & 0xff) as u8,
            ((value >> 16) & 0xff) as u8,
            ((value >> 8) & 0xff) as u8,
            (value & 0xff) as u8,
        ],
    }
}

/// The eight bytes of a 64-bit number in a byte order.
pub open spec fn long(order: Endian, value: u64) -> Seq<u8> {
    match order {
        Endian::Little => seq![
            (value & 0xff) as u8,
            ((value >> 8) & 0xff) as u8,
            ((value >> 16) & 0xff) as u8,
            ((value >> 24) & 0xff) as u8,
            ((value >> 32) & 0xff) as u8,
            ((value >> 40) & 0xff) as u8,
            ((value >> 48) & 0xff) as u8,
            ((value >> 56) & 0xff) as u8,
        ],
        Endian::Big => seq![
            ((value >> 56) & 0xff) as u8,
            ((value >> 48) & 0xff) as u8,
            ((value >> 40) & 0xff) as u8,
            ((value >> 32) & 0xff) as u8,
            ((value >> 24) & 0xff) as u8,
            ((value >> 16) & 0xff) as u8,
            ((value >> 8) & 0xff) as u8,
            (value & 0xff) as u8,
        ],
    }
}

/// The bytes of a field that is as wide as the container: eight bytes in the
/// 64-bit container, the four bytes of the low half in the 32-bit one.
pub open spec fn address(ctx: Ctx, value: u64) -> Seq<u8> {
    if ctx.wide() {
        long(ctx.endian, value)
    } else {
        word(ctx.endian, value as u32)
    }
}

/// The bytes that encode a header: seven words, and the reserved word in
/// the 64-bit container.
#[verifier::opaque]
pub open spec fn header_image(ctx: Ctx, header: Header) -> Seq<u8> {
    word(ctx.endian, header.magic) + word(ctx.endian, header.cputype) + word(
        ctx.endian,
        header.cpusubtype,
    ) + word(ctx.endian, header.filetype) + word(ctx.endian, header.ncmds as u32) + word(
        ctx.endian,
        header.sizeofcmds,
    ) + word(ctx.endian, header.flags) + (if ctx.wide() {
        word(ctx.endian, header.reserved)
    } else {
        Seq::empty()
    })
}

/// The bytes that encode a segment load command, without its sections.
#[verifier::opaque]
pub open spec fn segment_image(ctx: Ctx, segment: SegmentView) -> Seq<u8> {
    word(ctx.endian, segment.cmd) + word(ctx.endian, segment.cmdsize) + segment.segname + address(
        ctx,
        segment.vmaddr,
    ) + address(ctx, segment.vmsize) + address(ctx, segment.fileoff) + address(
        ctx,
        segment.filesize,
    ) + word(ctx.endian, segment.maxprot) + word(ctx.endian, segment.initprot) + word(
        ctx.endian,
        segment.nsects,
    ) + word(ctx.endian, segment.flags)
}

/// The bytes that encode a section header. The words after the flags are
/// reserved and zero: two in the 32-bit container, three in the 64-bit one.
#[verifier::opaque]
pub open spec fn section_image(ctx: Ctx, section: SectionView) -> Seq<u8> {
    section.sectname + section.segname + address(ctx, section.addr) + address(ctx, section.size)
        + word(ctx.endian, section.offset) + word(ctx.endian, section.align) + word(
        ctx.endian,
        section.reloff,
    ) + word(ctx.endian, section.nreloc) + word(ctx.endian, section.flags) + word(ctx.endian, 0)
        + word(ctx.endian, 0) + (if ctx.wide() {
        word(ctx.endian, 0)
    } else {
        Seq::empty()
    })
}

/// The bytes that encode a symbol table entry. The offset of the name is
/// narrowed to a word and the section ordinal to a byte.
#[verifier::opaque]
pub open spec fn nlist_image(ctx: Ctx, nlist: Nlist) -> Seq<u8> {
    word(ctx.endian, nlist.n_strx as u32) + seq![nlist.n_type] + seq![nlist.n_sect as u8] + half(
        ctx.endian,
        nlist.n_desc,
    ) + address(ctx, nlist.n_value)
}

/// The bytes that encode a symbol table load command: its six words in
/// field order, each little-endian.
#[verifier::opaque]
pub open spec fn symtab_image(symtab: SymtabCommand) -> Seq<u8> {
    word(Endian::Little, symtab.cmd) + word(Endian::Little, symtab.cmdsize) + word(
        Endian::Little,
        symtab.symoff,
    ) + word(Endian::Little, symtab.nsyms) + word(Endian::Little, symtab.stroff) + word(
        Endian::Little,
        symtab.strsize,
    )
}

/// The bytes that encode a relocation record: the address in two's
/// complement, then the packed word, each little-endian.
#[verifier::opaque]
pub open spec fn relocation_image(relocation: RelocationInfo) -> Seq<u8> {
    word(Endian::Little, relocation.r_address as u32) + word(Endian::Little, relocation.r_info)
}

/// The bytes of a name in a 16-byte name field: the name, then zero bytes.
pub open spec fn name_image(name: Seq<u8>) -> Seq<u8> {
    Seq::new(
        16,
        |i: int|
            if i < name.len() {
                name[i]
            } else {
                0u8
            },
    )
}

/// An encoded header has the size of the container's header.
pub proof fn lemma_header_image_len(ctx: Ctx, header: Header)
    ensures
        header_image(ctx, header).len() == header_size(ctx),
{
    reveal(header_image);
}

/// An encoded segment load command has the size of the container's.
pub proof fn lemma_segment_image_len(ctx: Ctx, segment: SegmentView)
    requires
        segment.segname.len() == 16,
    ensures
        segment_image(ctx, segment).len() == segment_size(ctx),
{
    reveal(segment_image);
}

/// An encoded section header has the size of the container's.
pub proof fn lemma_section_image_len(ctx: Ctx, section: SectionView)
    requires
        section.sectname.len() == 16,
        section.segname.len() == 16,
    ensures
        section_image(ctx, section).len() == section_size(ctx),
{
    reveal(section_image);
}

/// An encoded symbol table entry has the size of the container's.
pub proof fn lemma_nlist_image_len(ctx: Ctx, nlist: Nlist)
    ensures
        nlist_image(ctx, nlist).len() == nlist_size(ctx),
{
    reveal(nlist_image);
}

/// An encoded symbol table load command has 24 bytes.
pub proof fn lemma_symtab_image_len(symtab: SymtabCommand)
    ensures
        symtab_image(symtab).len() == 24,
{
    reveal(symtab_image);
}

/// An encoded relocation record has 8 bytes.
pub proof fn lemma_relocation_image_len(relocation: RelocationInfo)
    ensures
        relocation_image(relocation).len() == 8,
{
    reveal(relocation_image);
}

/// `IOwrite::iowrite_with` of `scroll` on a `goblin::mach::header::Header`
/// with the fields of `header`. `goblin` writes the fields in their order as
/// words of the context's byte order, with the count of load commands
/// narrowed to a word; only the 64-bit container has the reserved word.
#[verifier::external_body]
pub(crate) fn header_bytes(ctx: &Ctx, header: &Header) -> (out: Vec<u8>)
    ensures
        out@ == header_image(*ctx, *header),
{
    let width = match ctx.container { Container::Little => Width::Little, Container::Big => Width::Big };
    let order = match ctx.endian { Endian::Little => scroll::LE, Endian::Big => scroll::BE };
    let raw = goblin::mach::header::Header {
        magic: header.magic, cputype: header.cputype, cpusubtype: header.cpusubtype,
        filetype: header.filetype, ncmds: header.ncmds, sizeofcmds: header.sizeofcmds,
        flags: header.flags, reserved: header.reserved,
    };
    let mut out = Cursor::new(Vec::new());
    out.iowrite_with(raw, OutsideCtx::new(width, order)).unwrap();
    out.into_inner()
}

/// `IOwrite::iowrite_with` of `scroll` on a `goblin::mach::segment::Segment`
/// with the fields of `segment`. `goblin` writes the fields in their order;
/// the four addresses and sizes are words in the 32-bit container and twice
/// as wide in the 64-bit one. The section headers are not part of it.
#[verifier::external_body]
pub(crate) fn segment_bytes(ctx: &Ctx, segment: &SegmentCommand) -> (out: Vec<u8>)
    ensures
        out@ == segment_image(*ctx, segment@),
{
    let width = match ctx.container { Container::Little => Width::Little, Container::Big => Width::Big };
    let order = match ctx.endian { Endian::Little => scroll::LE, Endian::Big => scroll::BE };
    let outside = OutsideCtx::new(width, order);
    let mut raw = Segment::new(outside, &[]);
    raw.cmd = segment.cmd; raw.cmdsize = segment.cmdsize; raw.segname = segment.segname;
    raw.vmaddr = segment.vmaddr; raw.vmsize = segment.vmsize;
    raw.fileoff = segment.fileoff; raw.filesize = segment.filesize;
    raw.maxprot = segment.maxprot; raw.initprot = segment.initprot;
    raw.nsects = segment.nsects; raw.flags = segment.flags;
    let mut out = Cursor::new(Vec::new());
    out.iowrite_with(raw, outside).unwrap();
    out.into_inner()
}

/// `IOwrite::iowrite_with` of `scroll` on a `goblin::mach::segment::Section`
/// with the fields of `section`. `goblin` writes the two names, the address
/// and the size in the container's width, five words, and reserved words
/// that are zero.
#[verifier::external_body]
pub(crate) fn section_bytes(ctx: &Ctx, section: &Section) -> (out: Vec<u8>)
    ensures
        out@ == section_image(*ctx, section@),
{
    let width = match ctx.container { Container::Little => Width::Little, Container::Big => Width::Big };
    let order = match ctx.endian { Endian::Little => scroll::LE, Endian::Big => scroll::BE };
    let raw = goblin::mach::segment::Section {
        sectname: section.sectname, segname: section.segname, addr: section.addr,
        size: section.size, offset: section.offset, align: section.align,
        reloff: section.reloff, nreloc: section.nreloc, flags: section.flags,
    };
    let mut out = Cursor::new(Vec::new());
    out.iowrite_with(raw, OutsideCtx::new(width, order)).unwrap();
    out.into_inner()
}

/// `IOwrite::iowrite_with` of `scroll` on a `goblin::mach::symbols::Nlist`
/// with the fields of `nlist`. `goblin` writes the offset of the name as a
/// word, the type and the section ordinal as a byte each, the description
/// as two bytes, and the value in the container's width.
#[verifier::external_body]
pub(crate) fn nlist_bytes(ctx: &Ctx, nlist: &Nlist) -> (out: Vec<u8>)
    ensures
        out@ == nlist_image(*ctx, *nlist),
{
    let width = match ctx.container { Container::Little => Width::Little, Container::Big => Width::Big };
    let order = match ctx.endian { Endian::Little => scroll::LE, Endian::Big => scroll::BE };
    let raw = goblin::mach::symbols::Nlist {
        n_strx: nlist.n_strx, n_type: nlist.n_type, n_sect: nlist.n_sect,
        n_desc: nlist.n_desc, n_value: nlist.n_value,
    };
    let mut out = Cursor::new(Vec::new());
    out.iowrite_with(raw, OutsideCtx::new(width, order)).unwrap();
    out.into_inner()
}

/// `IOwrite::iowrite_with` of `scroll`, little-endian, on a
/// `goblin::mach::load_command::SymtabCommand` with the fields of `symtab`:
/// the six words in field order.
#[verifier::external_body]
pub(crate) fn symtab_bytes(symtab: &SymtabCommand) -> (out: Vec<u8>)
    ensures
        out@ == symtab_image(*symtab),
{
    let raw = goblin::mach::load_command::SymtabCommand {
        cmd: symtab.cmd, cmdsize: symtab.cmdsize, symoff: symtab.symoff,
        nsyms: symtab.nsyms, stroff: symtab.stroff, strsize: symtab.strsize,
    };
    let mut out = Cursor::new(Vec::new());
    out.iowrite_with(raw, scroll::LE).unwrap();
    out.into_inner()
}

/// `IOwrite::iowrite_with` of `scroll`, little-endian, on a
/// `goblin::mach::relocation::RelocationInfo` with the fields of
/// `relocation`: the address, then the packed word.
#[verifier::external_body]
pub(crate) fn relocation_bytes(relocation: &RelocationInfo) -> (out: Vec<u8>)
    ensures
        out@ == relocation_image(*relocation),
{
    let raw = goblin::mach::relocation::RelocationInfo {
        r_address: relocation.r_address, r_info: relocation.r_info,
    };
    let mut out = Cursor::new(Vec::new());
    out.iowrite_with(raw, scroll::LE).unwrap();
    out.into_inner()
}

/// `Pwrite::pwrite` of `scroll`, which copies the bytes of `name` to the
/// start of a zeroed 16-byte field. It fails on a name of more than 16
/// bytes, which `requires` leaves out.
#[verifier::external_body]
pub(crate) fn name_field(name: &str) -> (field: [u8; 16])
    requires
        name.spec_bytes().len() <= 16,
    ensures
        field@ == name_image(name.spec_bytes()),
{
    let mut field = [0u8; 16];
    field.pwrite(name, 0).unwrap();
    field
}

} // verus!
