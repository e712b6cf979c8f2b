//! The machine an object file is built for, and the container that follows
//! from it: the pointer width and the byte order of the emitted file.

use vstd::prelude::*;

verus! {

/// The architecture tag of a target
#[derive(Debug, Copy, Clone, PartialEq, Eq, Structural)]
#[allow(missing_docs)]
pub enum Architecture {
    Unknown,
    Arm,
    AmdGcn,
    Aarch64,
    Asmjs,
    Hexagon,
    I386,
    I586,
    I686,
    Mips,
    Mips64,
    Mips64el,
    Mipsel,
    Mipsisa32r6,
    Mipsisa32r6el,
    Mipsisa64r6,
    Mipsisa64r6el,
    Msp430,
    Nvptx64,
    Powerpc,
    Powerpc64,
    Powerpc64le,
    Riscv32,
    Riscv32i,
    Riscv32imac,
    Riscv32imc,
    Riscv64,
    Riscv64gc,
    Riscv64imac,
    S390x,
    Sparc,
    Sparc64,
    Sparcv9,
    Wasm32,
    X86_64,
}

/// The object-file format of a target
#[derive(Debug, Copy, Clone, PartialEq, Eq, Structural)]
#[allow(missing_docs)]
pub enum BinaryFormat {
    Unknown,
    Elf,
    Coff,
    Macho,
    Wasm,
}

/// The width of a pointer on a target
#[derive(Debug, Copy, Clone, PartialEq, Eq, Structural)]
#[allow(missing_docs)]
pub enum PointerWidth {
    U16,
    U32,
    U64,
}

/// The byte order of a target
#[derive(Debug, Copy, Clone, PartialEq, Eq, Structural)]
#[allow(missing_docs)]
pub enum Endianness {
    Little,
    Big,
}

/// What an artifact needs to know of the machine it is built for
#[derive(Debug, Copy, Clone, PartialEq, Eq, Structural)]
pub struct Target {
    /// The architecture
    pub architecture: Architecture,
    /// The object-file format
    pub binary_format: BinaryFormat,
    /// The pointer width of the architecture, where it is known
    pub pointer_width: Option<PointerWidth>,
    /// The byte order of the architecture, where it is known
    pub endianness: Option<Endianness>,
}

/// The container of an emitted file: 64-bit or 32-bit, little or big endian
#[derive(Debug, Copy, Clone, PartialEq, Eq, Structural)]
pub struct Ctx {
    /// Whether the container is 64-bit
    pub big: bool,
    /// Whether the container is little endian
    pub le: bool,
}

impl Ctx {
    /// The size of a pointer in the container, in bytes
    pub open spec fn spec_size(&self) -> usize {
        if self.big {
            8
        } else {
            4
        }
    }

    /// The size of a pointer in the container, in bytes
    #[verifier::when_used_as_spec(spec_size)]
    pub fn size(&self) -> (r: usize)
        ensures
            r == self.spec_size(),
    {
        if self.big {
            8
        } else {
            4
        }
    }
}

/// The container of a target: by its pointer width and byte order, and
/// 64-bit little endian where either is unknown or the pointers are 16 bits wide.
pub open spec fn ctx_of(target: Target) -> Ctx {
    match (target.pointer_width, target.endianness) {
        (Some(PointerWidth::U32), Some(e)) => Ctx { big: false, le: e == Endianness::Little },
        (Some(PointerWidth::U64), Some(e)) => Ctx { big: true, le: e == Endianness::Little },
        _ => Ctx { big: true, le: true },
    }
}

/// Derive the container of a target
pub fn make_ctx(target: &Target) -> (r: Ctx)
    ensures
        r == ctx_of(*target),
{
    let big = match target.pointer_width {
        None | Some(PointerWidth::U16) => {
            return Ctx { big: true, le: true };
        },
        Some(PointerWidth::U32) => false,
        Some(PointerWidth::U64) => true,
    };
    let le = match target.endianness {
        None => {
            return Ctx { big: true, le: true };
        },
        Some(Endianness::Little) => true,
        Some(Endianness::Big) => false,
    };
    Ctx { big, le }
}

} // verus!
