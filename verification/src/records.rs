//! The fixed-size records of a Mach-O object file, as plain values.
//!
//! Each record lists the fields that its encoding reads. The widths of the
//! fields are those of the widest container; the encoding narrows them where
//! the 32-bit format has a smaller field.

use vstd::prelude::*;

use crate::target::Ctx;

verus! {

/// Magic number of a 32-bit header.
pub const MH_MAGIC: u32 = 0xfeed_face;

/// Magic number of a 64-bit header.
pub const MH_MAGIC_64: u32 = 0xfeed_facf;

/// File type of a relocatable object file.
pub const MH_OBJECT: u32 = 0x1;

/// Header flag: the sections may be split at symbols for dead-code stripping.
pub const MH_SUBSECTIONS_VIA_SYMBOLS: u32 = 0x2000;

/// Load command of a 32-bit segment.
pub const LC_SEGMENT: u32 = 0x1;

/// Load command of the symbol table.
pub const LC_SYMTAB: u32 = 0x2;

/// Load command of a 64-bit segment.
pub const LC_SEGMENT_64: u32 = 0x19;

/// External symbol bit of `n_type`.
pub const N_EXT: u8 = 0x01;

/// `n_type` of an undefined symbol.
pub const N_UNDF: u8 = 0x0;

/// `n_type` of a symbol that is defined in section `n_sect`.
pub const N_SECT: u8 = 0x0e;

/// `n_sect` of a symbol that is in no section.
pub const NO_SECT: u8 = 0;

/// Flags of a regular section that holds only machine instructions.
pub const SECTION_FLAGS: u32 = 0x8000_0400;

/// Size in bytes of the encoded symbol table load command.
pub const SIZEOF_SYMTAB_COMMAND: usize = 24;

/// Size in bytes of an encoded relocation record.
pub const SIZEOF_RELOCATION_INFO: usize = 8;

/// Size in bytes of the encoded header.
pub open spec fn header_size(ctx: Ctx) -> nat {
    if ctx.wide() {
        32
    } else {
        28
    }
}

/// Size in bytes of the encoded segment load command, without its sections.
pub open spec fn segment_size(ctx: Ctx) -> nat {
    if ctx.wide() {
        72
    } else {
        56
    }
}

/// Size in bytes of an encoded section header.
pub open spec fn section_size(ctx: Ctx) -> nat {
    if ctx.wide() {
        80
    } else {
        68
    }
}

/// Size in bytes of an encoded symbol table entry.
pub open spec fn nlist_size(ctx: Ctx) -> nat {
    if ctx.wide() {
        16
    } else {
        12
    }
}

/// A name field that holds no name: sixteen zero bytes.
pub open spec fn zero_name() -> Seq<u8> {
    Seq::new(16, |i: int| 0u8)
}

/// The file header.
#[derive(Debug, Clone, Copy, PartialEq, Eq)]
pub struct Header {
    pub magic: u32,
    pub cputype: u32,
    pub cpusubtype: u32,
    /// Type of file.
    pub filetype: u32,
    /// Number of load commands.
    pub ncmds: usize,
    /// Size of all the load commands together.
    pub sizeofcmds: u32,
    pub flags: u32,
    pub reserved: u32,
}

impl Header {
    /// A header whose fields are zero but for the magic number, which is
    /// that of the container.
    pub fn new(ctx: &Ctx) -> (header: Header)
        ensures
            header == (Header {
                magic: if ctx.wide() {
                    MH_MAGIC_64
                } else {
                    MH_MAGIC
                },
                cputype: 0,
                cpusubtype: 0,
                filetype: 0,
                ncmds: 0,
                sizeofcmds: 0,
                flags: 0,
                reserved: 0,
            }),
    {
        Header {
            magic: if ctx.is_big() {
                MH_MAGIC_64
            } else {
                MH_MAGIC
            },
            cputype: 0,
            cpusubtype: 0,
            filetype: 0,
            ncmds: 0,
            sizeofcmds: 0,
            flags: 0,
            reserved: 0,
        }
    }

    /// Size in bytes of the encoded header.
    pub fn size_with(ctx: &Ctx) -> (size: usize)
        ensures
            size == header_size(*ctx),
    {
        if ctx.is_big() {
            32
        } else {
            28
        }
    }
}

/// A segment load command. The section headers of the segment follow it in
/// the file and are counted in `cmdsize`.
#[derive(Debug, Clone, Copy, PartialEq, Eq)]
pub struct SegmentCommand {
    pub cmd: u32,
    pub cmdsize: u32,
    pub segname: [u8; 16],
    pub vmaddr: u64,
    pub vmsize: u64,
    pub fileoff: u64,
    pub filesize: u64,
    pub maxprot: u32,
    pub initprot: u32,
    pub nsects: u32,
    pub flags: u32,
}

/// The fields of a segment load command, with the name as a sequence.
pub struct SegmentView {
    pub cmd: u32,
    pub cmdsize: u32,
    pub segname: Seq<u8>,
    pub vmaddr: u64,
    pub vmsize: u64,
    pub fileoff: u64,
    pub filesize: u64,
    pub maxprot: u32,
    pub initprot: u32,
    pub nsects: u32,
    pub flags: u32,
}

impl View for SegmentCommand {
    type V = SegmentView;

    open spec fn view(&self) -> SegmentView {
        SegmentView {
            cmd: self.cmd,
            cmdsize: self.cmdsize,
            segname: self.segname@,
            vmaddr: self.vmaddr,
            vmsize: self.vmsize,
            fileoff: self.fileoff,
            filesize: self.filesize,
            maxprot: self.maxprot,
            initprot: self.initprot,
            nsects: self.nsects,
            flags: self.flags,
        }
    }
}

/// The segment command that `SegmentCommand::new` makes for section headers
/// of `sections_len` bytes.
pub open spec fn blank_segment(ctx: Ctx, sections_len: nat) -> SegmentView {
    SegmentView {
        cmd: if ctx.wide() {
            LC_SEGMENT_64
        } else {
            LC_SEGMENT
        },
        cmdsize: (segment_size(ctx) + sections_len) as usize as u32,
        segname: zero_name(),
        vmaddr: 0,
        vmsize: 0,
        fileoff: 0,
        filesize: 0,
        maxprot: 0,
        initprot: 0,
        nsects: 0,
        flags: 0,
    }
}

impl SegmentCommand {
    /// A blank segment command for section headers that are already encoded
    /// in `sections`: the command is that of the container, `cmdsize` counts
    /// the command and the section headers, everything else is zero.
    pub fn new(ctx: &Ctx, sections: &[u8]) -> (segment: SegmentCommand)
        requires
            segment_size(*ctx) + sections@.len() <= usize::MAX,
        ensures
            segment@ == blank_segment(*ctx, sections@.len()),
    {
        let segment = SegmentCommand {
            cmd: if ctx.is_big() {
                LC_SEGMENT_64
            } else {
                LC_SEGMENT
            },
            cmdsize: #[verifier::truncate]
            ((SegmentCommand::size_with(ctx) + sections.len()) as u32),
            segname: [0u8; 16],
            vmaddr: 0,
            vmsize: 0,
            fileoff: 0,
            filesize: 0,
            maxprot: 0,
            initprot: 0,
            nsects: 0,
            flags: 0,
        };
        assert(segment.segname@ =~= zero_name());
        segment
    }

    /// Size in bytes of the encoded command, without its sections.
    pub fn size_with(ctx: &Ctx) -> (size: usize)
        ensures
            size == segment_size(*ctx),
    {
        if ctx.is_big() {
            72
        } else {
            56
        }
    }
}

/// A section header.
#[derive(Debug, Clone, Copy, PartialEq, Eq)]
pub struct Section {
    /// Name of the section, padded with zero bytes.
    pub sectname: [u8; 16],
    /// Name of the segment that the section goes in, padded with zero bytes.
    pub segname: [u8; 16],
    /// Memory address of the section.
    pub addr: u64,
    /// Size in bytes of the section.
    pub size: u64,
    /// File offset of the section's contents.
    pub offset: u32,
    pub align: u32,
    /// File offset of the section's relocation records.
    pub reloff: u32,
    /// Number of relocation records.
    pub nreloc: u32,
    pub flags: u32,
}

/// The fields of a section header, with the names as sequences.
pub struct SectionView {
    pub sectname: Seq<u8>,
    pub segname: Seq<u8>,
    pub addr: u64,
    pub size: u64,
    pub offset: u32,
    pub align: u32,
    pub reloff: u32,
    pub nreloc: u32,
    pub flags: u32,
}

impl View for Section {
    type V = SectionView;

    open spec fn view(&self) -> SectionView {
        SectionView {
            sectname: self.sectname@,
            segname: self.segname@,
            addr: self.addr,
            size: self.size,
            offset: self.offset,
            align: self.align,
            reloff: self.reloff,
            nreloc: self.nreloc,
            flags: self.flags,
        }
    }
}

impl Section {
    /// Size in bytes of an encoded section header.
    pub fn size_with(ctx: &Ctx) -> (size: usize)
        ensures
            size == section_size(*ctx),
    {
        if ctx.is_big() {
            80
        } else {
            68
        }
    }
}

/// The symbol table load command.
#[derive(Debug, Clone, Copy, PartialEq, Eq)]
pub struct SymtabCommand {
    pub cmd: u32,
    pub cmdsize: u32,
    /// File offset of the symbol table.
    pub symoff: u32,
    /// Number of symbol table entries.
    pub nsyms: u32,
    /// File offset of the string table.
    pub stroff: u32,
    /// Size in bytes of the string table.
    pub strsize: u32,
}

impl SymtabCommand {
    /// The command of an empty symbol table.
    pub fn new() -> (symtab: SymtabCommand)
        ensures
            symtab == (SymtabCommand {
                cmd: LC_SYMTAB,
                cmdsize: 24,
                symoff: 0,
                nsyms: 0,
                stroff: 0,
                strsize: 0,
            }),
    {
        SymtabCommand {
            cmd: LC_SYMTAB,
            cmdsize: 24,
            symoff: 0,
            nsyms: 0,
            stroff: 0,
            strsize: 0,
        }
    }
}

/// A symbol table entry.
#[derive(Debug, Clone, Copy, PartialEq, Eq)]
pub struct Nlist {
    /// Offset of the symbol's name in the string table.
    pub n_strx: usize,
    /// Type bits.
    pub n_type: u8,
    /// Ordinal of the section, counted from 1, or `NO_SECT`.
    pub n_sect: usize,
    pub n_desc: u16,
    /// Value of the symbol.
    pub n_value: u64,
}

impl Nlist {
    /// Size in bytes of an encoded symbol table entry.
    pub fn size_with(ctx: &Ctx) -> (size: usize)
        ensures
            size == nlist_size(*ctx),
    {
        if ctx.is_big() {
            16
        } else {
            12
        }
    }
}

/// A relocation record.
#[derive(Debug, Clone, Copy, PartialEq, Eq)]
pub struct RelocationInfo {
    /// Offset in the section of what is relocated.
    pub r_address: i32,
    /// The packed fields: symbol number (24 bits), pc-relative (1 bit),
    /// length (2 bits), external (1 bit), type (4 bits).
    pub r_info: u32,
}

/// Symbol number of a packed relocation word.
pub open spec fn r_symbolnum(r_info: u32) -> u32 {
    r_info & 0x00ff_ffff
}

/// Pc-relative bit of a packed relocation word.
pub open spec fn r_pcrel(r_info: u32) -> u32 {
    (r_info & 0x0100_0000) >> 24
}

/// Length code of a packed relocation word.
pub open spec fn r_length(r_info: u32) -> u32 {
    (r_info & 0x0600_0000) >> 25
}

/// External bit of a packed relocation word.
pub open spec fn r_extern(r_info: u32) -> u32 {
    (r_info & 0x0800_0000) >> 27
}

/// Relocation type of a packed relocation word.
pub open spec fn r_type(r_info: u32) -> u32 {
    (r_info & 0xf000_0000) >> 28
}

} // verus!
