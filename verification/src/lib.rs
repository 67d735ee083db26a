//! A writer for relocatable Mach-O object files.
//!
//! An [`Artifact`] is a target, a list of named code and data definitions, a
//! list of imported names and a list of links between names. [`Mach`] lays
//! the artifact out as a 32-bit or 64-bit `MH_OBJECT` file (one segment with
//! a `__text` and a `__data` section, a symbol table with its string table,
//! and the relocation records of the links) and produces its bytes.
//!
//! The modules, from the leaves up:
//!
//! - [`target`] and [`artifact`]: the input.
//! - [`records`]: the fixed-size records of the format, as plain values.
//! - [`symbol`], [`section`], [`relocation`]: the builders of the records,
//!   the symbol table and the segment.
//! - [`image`]: the model of a file, its layout and its bytes, with what
//!   holds of them.
//! - [`mach`]: the writer.
//! - [`limits`]: a test for artifacts that are too large to lay out.
//!
//! Every function of the crate is verified against a contract, with two
//! exceptions. The byte encodings of the records are those of `goblin` and
//! `scroll`, and the symbol table is built on the maps of `ordermap` and on
//! the interner of `string_interner`; the modules [`encode`] and
//! [`collections`] hold the calls into these crates and the contracts that
//! are assumed of them.

pub mod artifact;
pub mod collections;
pub mod encode;
pub mod image;
pub mod limits;
pub mod mach;
pub mod records;
pub mod relocation;
pub mod section;
pub mod symbol;
pub mod target;

pub use artifact::{Artifact, Decl, Definition, ImportKind, Link, Prop};
pub use mach::{Layout, Mach};
pub use records::{Header, Nlist, RelocationInfo, Section, SegmentCommand, SymtabCommand};
pub use relocation::{build_relocations, reloc_type, RelocType, RelocationBuilder};
pub use section::{SectionBuilder, SegmentBuilder};
pub use symbol::{
    SectionIndex, StrtableOffset, SymbolBuilder, SymbolIndex, SymbolTable, SymbolType,
};
pub use target::{cpu_type, Container, Ctx, Endian, Target};
