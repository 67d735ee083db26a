//! Relocation records and how the links of an artifact become records.

use vstd::prelude::*;

use crate::artifact::{Artifact, Decl, Link};
use crate::records::{r_extern, r_length, r_pcrel, r_symbolnum, r_type, RelocationInfo};
use crate::symbol::{offset_of, ordinal_of, SymbolEntry, SymbolIndex, SymbolTable};

verus! {

/// A machine-specific relocation type; it takes four bits of a record.
pub type RelocType = u8;

/// A signed 32-bit displacement.
pub const X86_64_RELOC_SIGNED: RelocType = 1;

/// A call or jump with a 32-bit displacement.
pub const X86_64_RELOC_BRANCH: RelocType = 2;

/// A load of an entry of the global offset table.
pub const X86_64_RELOC_GOT_LOAD: RelocType = 3;

/// A builder for a relocation record.
#[derive(Debug, Clone, Copy, PartialEq, Eq)]
pub struct RelocationBuilder {
    /// Ordinal of the symbol that the relocation refers to.
    pub symbol: SymbolIndex,
    /// Offset in the section of what is relocated.
    pub relocation_offset: usize,
    pub absolute: bool,
    pub r_type: RelocType,
}

/// The packed word of a relocation record. From the least significant bit:
/// 24 bits of symbol number, the pc-relative bit (set unless the relocation
/// is absolute), two bits of length code (3 for an absolute relocation, else
/// 2), the external bit (always set), and four bits of relocation type.
pub open spec fn packed_info(symbol: u32, absolute: bool, reloc_type: u8) -> u32 {
    symbol | ((if absolute {
        0u32
    } else {
        1u32
    }) << 24) | ((if absolute {
        3u32
    } else {
        2u32
    }) << 25) | (1u32 << 27) | ((reloc_type as u32) << 28)
}

/// The external bit of a packed word is set, whatever was packed, and its
/// symbol number is at most the symbol that was packed.
pub proof fn lemma_packed_info(symbol: u32, absolute: bool, reloc_type: u8)
    ensures
        r_extern(packed_info(symbol, absolute, reloc_type)) == 1,
        r_symbolnum(packed_info(symbol, absolute, reloc_type)) <= symbol,
{
    let pcrel: u32 = if absolute {
        0
    } else {
        1
    };
    let length: u32 = if absolute {
        3
    } else {
        2
    };
    let kind = reloc_type as u32;
    assert((((symbol | (pcrel << 24) | (length << 25) | (1u32 << 27) | (kind << 28)) & 0x0800_0000)
        >> 27) == 1) by (bit_vector);
    assert(((symbol | (pcrel << 24) | (length << 25) | (1u32 << 27) | (kind << 28)) & 0x00ff_ffff)
        <= symbol) by (bit_vector)
        requires
            pcrel <= 1,
            length <= 3,
    ;
}

/// A symbol below 2^24 and a relocation type below 16 can be read back from
/// the packed word, with the pc-relative bit and the length code.
pub proof fn lemma_packed_info_fields(symbol: u32, absolute: bool, reloc_type: u8)
    requires
        symbol < 0x0100_0000,
        reloc_type < 16,
    ensures
        r_symbolnum(packed_info(symbol, absolute, reloc_type)) == symbol,
        r_pcrel(packed_info(symbol, absolute, reloc_type)) == (if absolute {
            0u32
        } else {
            1u32
        }),
        r_length(packed_info(symbol, absolute, reloc_type)) == (if absolute {
            3u32
        } else {
            2u32
        }),
        r_extern(packed_info(symbol, absolute, reloc_type)) == 1,
        r_type(packed_info(symbol, absolute, reloc_type)) == reloc_type,
{
    let pcrel: u32 = if absolute {
        0
    } else {
        1
    };
    let length: u32 = if absolute {
        3
    } else {
        2
    };
    let kind = reloc_type as u32;
    assert({
        let info = symbol | (pcrel << 24) | (length << 25) | (1u32 << 27) | (kind << 28);
        &&& info & 0x00ff_ffff == symbol
        &&& (info & 0x0100_0000) >> 24 == pcrel
        &&& (info & 0x0600_0000) >> 25 == length
        &&& (info & 0x0800_0000) >> 27 == 1
        &&& (info & 0xf000_0000) >> 28 == kind
    }) by (bit_vector)
        requires
            symbol < 0x0100_0000,
            kind < 16,
            pcrel <= 1,
            length <= 3,
    ;
}

impl RelocationBuilder {
    /// A pc-relative relocation of type `r_type` against the symbol with the
    /// ordinal `symbol`, at `relocation_offset`.
    pub fn new(symbol: SymbolIndex, relocation_offset: usize, r_type: RelocType) -> (builder: Self)
        ensures
            builder == (RelocationBuilder { symbol, relocation_offset, absolute: false, r_type }),
    {
        RelocationBuilder { symbol, relocation_offset, absolute: false, r_type }
    }

    /// Makes the relocation absolute.
    pub fn absolute(self) -> (builder: Self)
        ensures
            builder == (RelocationBuilder { absolute: true, ..self }),
    {
        let mut builder = self;
        builder.absolute = true;
        builder
    }

    /// The record of the builder: the offset as a signed word, and the
    /// packed word of the symbol, the kind and the type.
    pub open spec fn info(self) -> RelocationInfo {
        RelocationInfo {
            r_address: self.relocation_offset as i32,
            r_info: packed_info(self.symbol as u32, self.absolute, self.r_type),
        }
    }

    /// Finalizes the builder into its record.
    pub fn create(self) -> (relocation: RelocationInfo)
        ensures
            relocation == self.info(),
            r_extern(relocation.r_info) == 1,
            r_symbolnum(relocation.r_info) <= self.symbol,
    {
        let r_symbolnum: u32 = #[verifier::truncate]
        (self.symbol as u32);
        let r_pcrel: u32 = (if self.absolute {
            0u32
        } else {
            1u32
        }) << 24;
        let r_length: u32 = (if self.absolute {
            3u32
        } else {
            2u32
        }) << 25;
        let r_extern: u32 = 1u32 << 27;
        let r_type: u32 = (self.r_type as u32) << 28;
        let r_info = r_symbolnum | r_pcrel | r_length | r_extern | r_type;
        proof {
            lemma_packed_info(self.symbol as u32, self.absolute, self.r_type);
            lemma_truncation(self.symbol);
        }
        RelocationInfo {
            r_address: #[verifier::truncate]
            (self.relocation_offset as i32),
            r_info,
        }
    }
}

/// Narrowing a `usize` to 32 bits does not make it larger.
pub proof fn lemma_truncation(value: usize)
    ensures
        value as u32 <= value,
{
    assert(value as u32 <= value) by (bit_vector);
}

/// The relocation type of a link, by what its target was declared as.
pub open spec fn reloc_type_of(decl: Decl) -> RelocType {
    match decl {
        Decl::Function => 2,
        Decl::Data => 1,
        Decl::CString => 1,
        Decl::FunctionImport => 2,
        Decl::DataImport => 3,
    }
}

/// The relocation type of a link, by what its target was declared as: a
/// branch for functions, a signed displacement for data and strings, and a
/// load from the global offset table for imported data.
pub fn reloc_type(decl: Decl) -> (kind: RelocType)
    ensures
        kind == reloc_type_of(decl),
{
    match decl {
        Decl::Function => X86_64_RELOC_BRANCH,
        Decl::Data => X86_64_RELOC_SIGNED,
        Decl::CString => X86_64_RELOC_SIGNED,
        Decl::FunctionImport => X86_64_RELOC_BRANCH,
        Decl::DataImport => X86_64_RELOC_GOT_LOAD,
    }
}

/// The record of a link, if the table has both of its names: a pc-relative
/// relocation against the symbol of `to`, at the offset of the symbol of
/// `from` plus `at`.
pub open spec fn link_relocation<'a>(table: Seq<SymbolEntry>, link: Link<'a>) -> Option<
    RelocationInfo,
> {
    match (offset_of(table, link.from@), ordinal_of(table, link.to@)) {
        (Some(base), Some(ordinal)) => Some(
            RelocationBuilder {
                symbol: ordinal as usize,
                relocation_offset: (base + link.at) as usize,
                absolute: false,
                r_type: reloc_type_of(link.to_decl),
            }.info(),
        ),
        _ => None,
    }
}

/// Whether the place that a link relocates can be computed: the offset of
/// its source symbol plus the offset in the payload is a `usize`.
pub open spec fn link_in_range<'a>(table: Seq<SymbolEntry>, link: Link<'a>) -> bool {
    match (offset_of(table, link.from@), ordinal_of(table, link.to@)) {
        (Some(base), Some(ordinal)) => base + link.at <= usize::MAX,
        _ => true,
    }
}

/// The records of a sequence of links, in the order of the links. A link
/// with a name that the table lacks gives no record.
pub open spec fn text_relocations<'a>(table: Seq<SymbolEntry>, links: Seq<Link<'a>>) -> Seq<
    RelocationInfo,
>
    decreases links.len(),
{
    if links.len() == 0 {
        Seq::empty()
    } else {
        let before = text_relocations(table, links.drop_last());
        match link_relocation(table, links.last()) {
            Some(relocation) => before.push(relocation),
            None => before,
        }
    }
}

/// There are at most as many records as links.
pub proof fn lemma_text_relocations_len<'a>(table: Seq<SymbolEntry>, links: Seq<Link<'a>>)
    ensures
        text_relocations(table, links).len() <= links.len(),
    decreases links.len(),
{
    if links.len() > 0 {
        lemma_text_relocations_len(table, links.drop_last());
    }
}

/// Every record refers to a symbol of the table and is marked external.
pub proof fn lemma_text_relocations_symbols<'a>(
    table: Seq<SymbolEntry>,
    links: Seq<Link<'a>>,
    i: int,
)
    requires
        0 <= i < text_relocations(table, links).len(),
    ensures
        r_symbolnum(text_relocations(table, links)[i].r_info) < table.len(),
        r_extern(text_relocations(table, links)[i].r_info) == 1,
    decreases links.len(),
{
    let before = text_relocations(table, links.drop_last());
    if i < before.len() {
        lemma_text_relocations_symbols(table, links.drop_last(), i);
    } else {
        let link = links.last();
        crate::symbol::lemma_ordinal_of(table, link.to@);
        let ordinal = ordinal_of(table, link.to@).unwrap();
        lemma_packed_info(ordinal as usize as u32, false, reloc_type_of(link.to_decl));
        lemma_truncation(ordinal as usize);
    }
}

/// The record of a link is against the symbol that has the name of the
/// link's target, in a table of at most 2^24 symbols: the symbol number is
/// the ordinal of that symbol, the record is pc-relative, four bytes long
/// and external, and its type is that of the target's declaration. A link
/// has no record exactly if the table lacks one of its names.
pub proof fn lemma_link_relocation<'a>(table: Seq<SymbolEntry>, link: Link<'a>)
    requires
        table.len() <= 0x0100_0000,
    ensures
        match link_relocation(table, link) {
            Some(relocation) => {
                let symbol = r_symbolnum(relocation.r_info) as int;
                &&& ordinal_of(table, link.to@) == Some(symbol)
                &&& symbol < table.len()
                &&& table[symbol].name == link.to@
                &&& r_pcrel(relocation.r_info) == 1
                &&& r_length(relocation.r_info) == 2
                &&& r_extern(relocation.r_info) == 1
                &&& r_type(relocation.r_info) == reloc_type_of(link.to_decl)
            },
            None => offset_of(table, link.from@) is None || ordinal_of(table, link.to@) is None,
        },
{
    crate::symbol::lemma_ordinal_of(table, link.to@);
    if let Some(relocation) = link_relocation(table, link) {
        let ordinal = ordinal_of(table, link.to@).unwrap();
        lemma_packed_info_fields(ordinal as usize as u32, false, reloc_type_of(link.to_decl));
    }
}

/// Builds the relocation records of the links of an artifact, grouped by
/// section. All records go to the text section, which is the only group. A
/// link with a name that the table lacks is skipped.
pub fn build_relocations<'a>(artifact: &Artifact<'a>, symtab: &SymbolTable) -> (relocations: Vec<
    Vec<RelocationInfo>,
>)
    requires
        symtab.wf(),
        forall|i: int|
            0 <= i < artifact.links@.len() ==> link_in_range(
                symtab@,
                #[trigger] artifact.links@[i],
            ),
    ensures
        relocations@.len() == 1,
        relocations@[0]@ == text_relocations(symtab@, artifact.links@),
{
    let mut text_relocations: Vec<RelocationInfo> = Vec::new();
    let mut i: usize = 0;
    proof {
        assert(artifact.links@.take(0) =~= Seq::<Link<'a>>::empty());
    }
    while i < artifact.links.len()
        invariant
            0 <= i <= artifact.links@.len(),
            symtab.wf(),
            text_relocations@ == self::text_relocations(symtab@, artifact.links@.take(i as int)),
            forall|j: int|
                0 <= j < artifact.links@.len() ==> link_in_range(
                    symtab@,
                    #[trigger] artifact.links@[j],
                ),
        decreases artifact.links@.len() - i,
    {
        let link = artifact.links[i];
        proof {
            assert(artifact.links@.take(i + 1).drop_last() =~= artifact.links@.take(i as int));
            assert(link_in_range(symtab@, artifact.links@[i as int]));
        }
        let reloc = reloc_type(link.to_decl);
        match (symtab.offset(link.from), symtab.index(link.to)) {
            (Some(base_offset), Some(to_symbol_index)) => {
                let relocation = RelocationBuilder::new(
                    to_symbol_index,
                    base_offset + link.at,
                    reloc,
                ).create();
                text_relocations.push(relocation);
            },
            _ => {},
        }
        i += 1;
    }
    proof {
        assert(artifact.links@.take(i as int) =~= artifact.links@);
    }
    let mut relocations: Vec<Vec<RelocationInfo>> = Vec::new();
    relocations.push(text_relocations);
    relocations
}

} // verus!
