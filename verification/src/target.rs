//! Target architectures and the container context that they select.

use vstd::prelude::*;

verus! {

/// CPU type of 32-bit x86.
pub const CPU_TYPE_X86: u32 = 0x0000_0007;

/// CPU type of x86-64.
pub const CPU_TYPE_X86_64: u32 = 0x0100_0007;

/// CPU type of 32-bit ARM.
pub const CPU_TYPE_ARM: u32 = 0x0000_000c;

/// CPU type of 64-bit ARM.
pub const CPU_TYPE_ARM64: u32 = 0x0100_000c;

/// The CPU subtype that stands for every model of an architecture.
pub const CPU_SUBTYPE_ALL: u32 = 3;

/// The architecture an object file is written for.
#[allow(non_camel_case_types)]
#[derive(Debug, Clone, Copy, PartialEq, Eq, Structural)]
pub enum Target {
    X86_64,
    X86,
    ARM64,
    ARMv7,
    Unknown,
}

/// Width of the container: `Little` is the 32-bit format, `Big` the 64-bit one.
#[derive(Debug, Clone, Copy, PartialEq, Eq, Structural)]
pub enum Container {
    Little,
    Big,
}

/// Byte order of the multi-byte fields of a record.
#[derive(Debug, Clone, Copy, PartialEq, Eq, Structural)]
pub enum Endian {
    Little,
    Big,
}

/// What every size computation and every record encoding depends on: the
/// container width and the byte order.
#[derive(Debug, Clone, Copy, PartialEq, Eq, Structural)]
pub struct Ctx {
    pub container: Container,
    pub endian: Endian,
}

/// The CPU type constant of a target, as a specification.
pub open spec fn cpu_type_of(target: Target) -> u32 {
    match target {
        Target::X86_64 => 0x0100_0007,
        Target::X86 => 0x0000_0007,
        Target::ARM64 => 0x0100_000c,
        Target::ARMv7 => 0x0000_000c,
        Target::Unknown => 0,
    }
}

/// The context of a target, as a specification. The 64-bit architectures use
/// the wide container, the 32-bit ones the narrow one; all are little-endian.
/// An unknown target is laid out like a 64-bit little-endian one.
pub open spec fn ctx_of(target: Target) -> Ctx {
    match target {
        Target::X86_64 => Ctx { container: Container::Big, endian: Endian::Little },
        Target::X86 => Ctx { container: Container::Little, endian: Endian::Little },
        Target::ARM64 => Ctx { container: Container::Big, endian: Endian::Little },
        Target::ARMv7 => Ctx { container: Container::Little, endian: Endian::Little },
        Target::Unknown => Ctx { container: Container::Big, endian: Endian::Little },
    }
}

/// Maps a target to its Mach-O CPU type constant; an unknown target maps to 0.
pub fn cpu_type(target: Target) -> (cputype: u32)
    ensures
        cputype == cpu_type_of(target),
{
    match target {
        Target::X86_64 => CPU_TYPE_X86_64,
        Target::X86 => CPU_TYPE_X86,
        Target::ARM64 => CPU_TYPE_ARM64,
        Target::ARMv7 => CPU_TYPE_ARM,
        Target::Unknown => 0,
    }
}

impl Ctx {
    /// A context with the given width and byte order.
    pub fn new(container: Container, endian: Endian) -> (ctx: Ctx)
        ensures
            ctx == (Ctx { container, endian }),
    {
        Ctx { container, endian }
    }

    /// The context that a target is written in.
    pub fn for_target(target: Target) -> (ctx: Ctx)
        ensures
            ctx == ctx_of(target),
    {
        match target {
            Target::X86_64 | Target::ARM64 | Target::Unknown => Ctx {
                container: Container::Big,
                endian: Endian::Little,
            },
            Target::X86 | Target::ARMv7 => Ctx {
                container: Container::Little,
                endian: Endian::Little,
            },
        }
    }

    /// Whether the container is the 64-bit one.
    pub open spec fn wide(&self) -> bool {
        self.container == Container::Big
    }

    /// Whether the container is the 64-bit one.
    #[verifier::when_used_as_spec(wide)]
    pub fn is_big(&self) -> (big: bool)
        ensures
            big == self.wide(),
    {
        match self.container {
            Container::Big => true,
            Container::Little => false,
        }
    }
}

} // verus!
