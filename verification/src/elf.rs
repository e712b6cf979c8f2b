//! The ELF 32/64-bit backend: turns an artifact into a relocatable ELF object file.

use vstd::prelude::*;
use goblin::container::{Container, Endian};
use goblin::elf::header::Header;
use goblin::elf::reloc::Reloc as GoblinReloc;
use goblin::elf::section_header::SectionHeader;
use goblin::elf::sym::Sym;
use scroll::ctx::IntoCtx;
use scroll::Pwrite;
use vstd::string::StringExecFns;
use crate::artifact::{Data, DataView, Reloc};
use crate::decl::{DataType, Decl, DefinedDecl, ImportKind, Scope, Visibility};
use crate::artifact::{
    distinct_names, lemma_position, symbol_texts, Artifact, ArtifactView, Definition, EmitError,
    LinkAndDecl,
};
use crate::table::{
    append_bytes, pad_to, padding, strtab_of, strtab_offset, zeros, KeyIndex, StringTable,
};
use crate::target::{ctx_of, make_ctx, Architecture, Ctx, Target};
use crate::table::strtab_first;
use vstd::utf8::encode_utf8;

verus! {

/// Symbol binding: local
pub const STB_LOCAL: u8 = 0;

/// Symbol binding: global
pub const STB_GLOBAL: u8 = 1;

/// Symbol binding: weak
pub const STB_WEAK: u8 = 2;

/// Symbol type: unspecified
pub const STT_NOTYPE: u8 = 0;

/// Symbol type: data object
pub const STT_OBJECT: u8 = 1;

/// Symbol type: function
pub const STT_FUNC: u8 = 2;

/// Symbol type: section
pub const STT_SECTION: u8 = 3;

/// Symbol type: source file
pub const STT_FILE: u8 = 4;

/// Symbol visibility: default
pub const STV_DEFAULT: u8 = 0;

/// Symbol visibility: hidden
pub const STV_HIDDEN: u8 = 2;

/// Symbol visibility: protected
pub const STV_PROTECTED: u8 = 3;

/// First reserved section index
pub const SHN_LORESERVE: u32 = 0xff00;

/// Section index of absolute symbols
pub const SHN_ABS: u32 = 0xfff1;

/// Section index that refers to the table of extended indices
pub const SHN_XINDEX: u32 = 0xffff;

/// Section type: unused
pub const SHT_NULL: u32 = 0;

/// Section type: program data
pub const SHT_PROGBITS: u32 = 1;

/// Section type: symbol table
pub const SHT_SYMTAB: u32 = 2;

/// Section type: string table
pub const SHT_STRTAB: u32 = 3;

/// Section type: relocations with addends
pub const SHT_RELA: u32 = 4;

/// Section type: occupies no room in the file
pub const SHT_NOBITS: u32 = 8;

/// Section type: extended section indices
pub const SHT_SYMTAB_SHNDX: u32 = 18;

/// Section flag: writable
pub const SHF_WRITE: u64 = 0x1;

/// Section flag: occupies memory during execution
pub const SHF_ALLOC: u64 = 0x2;

/// Section flag: executable
pub const SHF_EXECINSTR: u64 = 0x4;

/// Section flag: may be merged
pub const SHF_MERGE: u64 = 0x10;

/// Section flag: holds null-terminated strings
pub const SHF_STRINGS: u64 = 0x20;

/// Section flag: `sh_info` holds a section index
pub const SHF_INFO_LINK: u64 = 0x40;

/// File type: relocatable
pub const ET_REL: u16 = 1;

/// Relocation: direct 64 bit
pub const R_X86_64_64: u32 = 1;

/// Relocation: PC relative 32 bit signed
pub const R_X86_64_PC32: u32 = 2;

/// Relocation: 32 bit PLT address
pub const R_X86_64_PLT32: u32 = 4;

/// Relocation: 32 bit signed PC relative offset to GOT
pub const R_X86_64_GOTPCREL: u32 = 9;

/// Relocation: direct 32 bit zero extended
pub const R_X86_64_32: u32 = 10;

/// Index of the string table among the sections
pub const STRTAB_LINK: u16 = 1;

/// The machine tag of an architecture, for those that exist in ELF.
pub open spec fn machine_of(architecture: Architecture) -> Option<u16> {
    match architecture {
        Architecture::X86_64 => Some(62u16),
        Architecture::I386 | Architecture::I586 | Architecture::I686 => Some(3u16),
        Architecture::Aarch64 => Some(183u16),
        Architecture::Arm => Some(40u16),
        Architecture::Mips
        | Architecture::Mipsel
        | Architecture::Mips64
        | Architecture::Mips64el
        | Architecture::Mipsisa32r6
        | Architecture::Mipsisa32r6el
        | Architecture::Mipsisa64r6
        | Architecture::Mipsisa64r6el => Some(8u16),
        Architecture::Powerpc => Some(20u16),
        Architecture::Powerpc64 | Architecture::Powerpc64le => Some(21u16),
        Architecture::Riscv32
        | Architecture::Riscv32imac
        | Architecture::Riscv32imc
        | Architecture::Riscv64
        | Architecture::Riscv32i
        | Architecture::Riscv64gc
        | Architecture::Riscv64imac => Some(243u16),
        Architecture::S390x => Some(22u16),
        Architecture::Sparc => Some(2u16),
        Architecture::Sparc64 | Architecture::Sparcv9 => Some(43u16),
        Architecture::Msp430 => Some(105u16),
        Architecture::Unknown => Some(0u16),
        Architecture::Hexagon
        | Architecture::Nvptx64
        | Architecture::AmdGcn
        | Architecture::Asmjs
        | Architecture::Wasm32 => None,
    }
}

/// The ELF machine tag of an architecture
pub struct MachineTag(pub u16);

impl MachineTag {
    /// The machine tag of an architecture, or nothing for an architecture
    /// that does not exist in ELF
    pub fn from(architecture: Architecture) -> (r: Option<MachineTag>)
        ensures
            r is Some <==> machine_of(architecture) is Some,
            r matches Some(tag) ==> Some(tag.0) == machine_of(architecture),
    {
        let tag: u16 = match architecture {
            Architecture::X86_64 => 62,
            Architecture::I386 | Architecture::I586 | Architecture::I686 => 3,
            Architecture::Aarch64 => 183,
            Architecture::Arm => 40,
            Architecture::Mips
            | Architecture::Mipsel
            | Architecture::Mips64
            | Architecture::Mips64el
            | Architecture::Mipsisa32r6
            | Architecture::Mipsisa32r6el
            | Architecture::Mipsisa64r6
            | Architecture::Mipsisa64r6el => 8,
            Architecture::Powerpc => 20,
            Architecture::Powerpc64 | Architecture::Powerpc64le => 21,
            Architecture::Riscv32
            | Architecture::Riscv32imac
            | Architecture::Riscv32imc
            | Architecture::Riscv64
            | Architecture::Riscv32i
            | Architecture::Riscv64gc
            | Architecture::Riscv64imac => 243,
            Architecture::S390x => 22,
            Architecture::Sparc => 2,
            Architecture::Sparc64 | Architecture::Sparcv9 => 43,
            Architecture::Msp430 => 105,
            Architecture::Unknown => 0,
            Architecture::Hexagon
            | Architecture::Nvptx64
            | Architecture::AmdGcn
            | Architecture::Asmjs
            | Architecture::Wasm32 => {
                return None;
            },
        };
        Some(MachineTag(tag))
    }
}

/// An entry of the symbol table
#[derive(Debug, Copy, Clone, PartialEq, Eq, Structural)]
pub struct Symbol {
    /// Offset of the name in the string table
    pub st_name: usize,
    /// Type and binding
    pub st_info: u8,
    /// Visibility
    pub st_other: u8,
    /// Index of the section the symbol is in
    pub st_shndx: usize,
    /// Value
    pub st_value: u64,
    /// Size
    pub st_size: u64,
}

/// A section header
#[derive(Debug, Copy, Clone, PartialEq, Eq, Structural)]
pub struct Section {
    /// Offset of the name in the string table
    pub sh_name: usize,
    /// Type
    pub sh_type: u32,
    /// Flags
    pub sh_flags: u64,
    /// Address at execution
    pub sh_addr: u64,
    /// Offset in the file
    pub sh_offset: u64,
    /// Size in bytes
    pub sh_size: u64,
    /// Link to another section
    pub sh_link: u32,
    /// Additional information
    pub sh_info: u32,
    /// Alignment
    pub sh_addralign: u64,
    /// Size of an entry, for a section that holds a table
    pub sh_entsize: u64,
}

/// A relocation entry
#[derive(Debug, Copy, Clone, PartialEq, Eq, Structural)]
pub struct Relocation {
    /// Offset within the section that is relocated
    pub r_offset: u64,
    /// Addend, or nothing for a relocation without one
    pub r_addend: Option<i64>,
    /// Index of the symbol referred to
    pub r_sym: usize,
    /// Relocation type
    pub r_type: u32,
}

impl Symbol {
    /// The null symbol: every field zero.
    pub open spec fn null() -> Symbol {
        Symbol { st_name: 0, st_info: 0, st_other: 0, st_shndx: 0, st_value: 0, st_size: 0 }
    }

    /// The binding of the symbol: the upper half of `st_info`.
    pub open spec fn binding(self) -> int {
        self.st_info as int / 16
    }

    /// The type of the symbol: the lower half of `st_info`.
    pub open spec fn kind(self) -> int {
        self.st_info as int % 16
    }
}

impl Section {
    /// The null section header: every field zero.
    pub open spec fn null() -> Section {
        Section {
            sh_name: 0,
            sh_type: 0,
            sh_flags: 0,
            sh_addr: 0,
            sh_offset: 0,
            sh_size: 0,
            sh_link: 0,
            sh_info: 0,
            sh_addralign: 0,
            sh_entsize: 0,
        }
    }

    /// A section header with every field zero
    pub fn zeroed() -> (r: Section)
        ensures
            r == Section::null(),
    {
        Section {
            sh_name: 0,
            sh_type: 0,
            sh_flags: 0,
            sh_addr: 0,
            sh_offset: 0,
            sh_size: 0,
            sh_link: 0,
            sh_info: 0,
            sh_addralign: 0,
            sh_entsize: 0,
        }
    }
}

/// The kind of symbol this is
#[derive(Debug, Copy, Clone, PartialEq, Eq, Structural)]
pub enum SymbolType {
    /// From a definition
    Decl(DefinedDecl),
    /// An import
    Import,
    /// A section reference
    Section,
    /// A file reference
    File,
    /// Nothing in particular
    Unset,
}

/// A builder for creating a 32/64 bit ELF symbol
#[derive(Debug, Copy, Clone, PartialEq, Eq, Structural)]
pub struct SymbolBuilder {
    /// Offset of the name in the string table
    pub name_offset: usize,
    /// Size of what the symbol stands for
    pub size: u64,
    /// The kind of symbol
    pub typ: SymbolType,
    /// Index of the section the symbol is in
    pub shndx: usize,
}

/// The binding bits of a scope, in their place in `st_info`.
pub open spec fn scope_bits(s: Scope) -> u8 {
    match s {
        Scope::Local => 0u8,
        Scope::Global => 16u8,
        Scope::Weak => 32u8,
    }
}

/// The `st_other` value of a visibility.
pub open spec fn visibility_bits(v: Visibility) -> u8 {
    match v {
        Visibility::Default => 0u8,
        Visibility::Hidden => 2u8,
        Visibility::Protected => 3u8,
    }
}

impl SymbolBuilder {
    /// The symbol that the builder stands for: type and binding by the kind
    /// of symbol and the scope of its declaration, visibility by the
    /// declaration, and the absolute section for a file symbol.
    pub open spec fn symbol(self) -> Symbol {
        let (st_info, st_other, st_shndx) = match self.typ {
            SymbolType::Decl(DefinedDecl::Function(d)) => (
                (2 + scope_bits(d.scope)) as u8,
                visibility_bits(d.visibility),
                self.shndx,
            ),
            SymbolType::Decl(DefinedDecl::Data(d)) => (
                (1 + scope_bits(d.scope)) as u8,
                visibility_bits(d.visibility),
                self.shndx,
            ),
            SymbolType::Import => (16u8, 0u8, self.shndx),
            SymbolType::Decl(DefinedDecl::Section(_)) | SymbolType::Section => (
                3u8,
                0u8,
                self.shndx,
            ),
            SymbolType::File => (4u8, 0u8, 0xfff1usize),
            SymbolType::Unset => (0u8, 0u8, self.shndx),
        };
        Symbol {
            st_name: self.name_offset,
            st_other,
            st_size: self.size,
            st_info,
            st_shndx,
            st_value: 0,
        }
    }

    /// Create a new symbol with `typ`
    pub fn new(typ: SymbolType) -> (r: Self)
        ensures
            r == (SymbolBuilder { name_offset: 0, typ, size: 0, shndx: 0 }),
    {
        SymbolBuilder { name_offset: 0, typ, size: 0, shndx: 0 }
    }

    /// Create a new symbol for a definition made under `decl`
    pub fn from_decl(decl: &DefinedDecl) -> (r: Self)
        ensures
            r == (SymbolBuilder { name_offset: 0, typ: SymbolType::Decl(*decl), size: 0, shndx: 0 }),
    {
        SymbolBuilder::new(SymbolType::Decl(*decl))
    }

    /// Set the size of this symbol; for functions, the size of the routine in bytes
    pub fn size(self, size: usize) -> (r: Self)
        ensures
            r == (SymbolBuilder { size: size as u64, ..self }),
    {
        let mut s = self;
        s.size = size as u64;
        s
    }

    /// Set the symbol name as a byte offset into the string table
    pub fn name_offset(self, name_offset: usize) -> (r: Self)
        ensures
            r == (SymbolBuilder { name_offset, ..self }),
    {
        let mut s = self;
        s.name_offset = name_offset;
        s
    }

    /// Set the section index
    pub fn section_index(self, shndx: usize) -> (r: Self)
        ensures
            r == (SymbolBuilder { shndx, ..self }),
    {
        let mut s = self;
        s.shndx = shndx;
        s
    }

    /// Finalize and create the symbol
    pub fn create(self) -> (r: Symbol)
        ensures
            r == self.symbol(),
    {
        let mut st_shndx = self.shndx;
        let mut st_info: u8 = 0;
        let mut st_other: u8 = 0;
        match self.typ {
            SymbolType::Decl(DefinedDecl::Function(d)) => {
                st_info = STT_FUNC + scope_stb_flags(d.get_scope());
                st_other = vis_stother_flags(d.get_visibility());
            },
            SymbolType::Decl(DefinedDecl::Data(d)) => {
                st_info = STT_OBJECT + scope_stb_flags(d.get_scope());
                st_other = vis_stother_flags(d.get_visibility());
            },
            SymbolType::Import => {
                st_info = STT_NOTYPE + STB_GLOBAL * 16;
            },
            SymbolType::Decl(DefinedDecl::Section(_)) | SymbolType::Section => {
                st_info = STT_SECTION + STB_LOCAL * 16;
            },
            SymbolType::File => {
                st_info = STT_FILE;
                st_shndx = 0xfff1;
            },
            SymbolType::Unset => {
                st_info = STT_NOTYPE;
            },
        }
        Symbol {
            st_name: self.name_offset,
            st_other,
            st_size: self.size,
            st_info,
            st_shndx,
            st_value: 0,
        }
    }
}

/// The binding of a scope, shifted to its place in `st_info`
fn scope_stb_flags(s: Scope) -> (r: u8)
    ensures
        r == scope_bits(s),
{
    let flag = match s {
        Scope::Local => STB_LOCAL,
        Scope::Global => STB_GLOBAL,
        Scope::Weak => STB_WEAK,
    };
    flag * 16
}

/// The `st_other` value of a visibility
fn vis_stother_flags(v: Visibility) -> (r: u8)
    ensures
        r == visibility_bits(v),
{
    match v {
        Visibility::Default => STV_DEFAULT,
        Visibility::Hidden => STV_HIDDEN,
        Visibility::Protected => STV_PROTECTED,
    }
}

/// The kind of section this can be
#[derive(Debug, Copy, Clone, PartialEq, Eq, Structural)]
pub enum SectionType {
    /// Zero-initialised data, which takes no room in the file
    NoBits,
    /// Code
    Bits,
    /// Data
    Data,
    /// Null-terminated strings
    String,
    /// The string table
    StrTab,
    /// The symbol table
    SymTab,
    /// Relocations
    Relocation,
    /// The table of extended section indices
    SymTabShndx,
    /// Nothing in particular
    Unset,
}

/// A builder for creating a 32/64 bit section
#[derive(Debug, Copy, Clone, PartialEq, Eq, Structural)]
pub struct SectionBuilder {
    /// The kind of section
    pub typ: SectionType,
    /// Whether the section is executable
    pub executable: bool,
    /// Whether the section is writable
    pub write: bool,
    /// Whether the section occupies memory at run time
    pub alloc: bool,
    /// Size in bytes
    pub size: u64,
    /// Offset of the name in the string table
    pub name_offset: usize,
    /// Alignment, or nothing for the default
    pub align: Option<u64>,
}

/// The size of a symbol table entry in a container.
pub open spec fn sizeof_sym(ctx: Ctx) -> nat {
    if ctx.big {
        24
    } else {
        16
    }
}

/// The size of a relocation entry with addend in a container.
pub open spec fn sizeof_rela(ctx: Ctx) -> nat {
    if ctx.big {
        24
    } else {
        12
    }
}

/// The size of a section header in a container.
pub open spec fn sizeof_shdr(ctx: Ctx) -> nat {
    if ctx.big {
        64
    } else {
        40
    }
}

/// The size of the file header in a container.
pub open spec fn sizeof_ehdr(ctx: Ctx) -> nat {
    if ctx.big {
        64
    } else {
        52
    }
}

impl SectionBuilder {
    /// The permission flags of the section.
    pub open spec fn base_flags(self) -> u64 {
        (if self.executable {
            SHF_EXECINSTR
        } else {
            0u64
        }) | (if self.write {
            SHF_WRITE
        } else {
            0u64
        }) | (if self.alloc {
            SHF_ALLOC
        } else {
            0u64
        })
    }

    /// The alignment of the section: as asked, else 16 for executable
    /// sections, 8 for writable ones and 1 for the others.
    pub open spec fn alignment(self) -> u64 {
        match self.align {
            Some(a) => a,
            None => if self.executable {
                0x10u64
            } else if self.write {
                0x8u64
            } else {
                1u64
            },
        }
    }

    /// The section header that the builder stands for, in a container.
    pub open spec fn section(self, ctx: Ctx) -> Section {
        let base = Section {
            sh_flags: self.base_flags(),
            sh_size: self.size,
            sh_name: self.name_offset,
            ..Section::null()
        };
        match self.typ {
            SectionType::Bits | SectionType::Data => Section {
                sh_addralign: self.alignment(),
                sh_type: SHT_PROGBITS,
                ..base
            },
            SectionType::String => Section {
                sh_addralign: self.alignment(),
                sh_type: SHT_PROGBITS,
                sh_flags: self.base_flags() | (SHF_MERGE | SHF_STRINGS),
                ..base
            },
            SectionType::StrTab => Section { sh_addralign: 0x1, sh_type: SHT_STRTAB, ..base },
            SectionType::SymTab => Section {
                sh_entsize: sizeof_sym(ctx) as u64,
                sh_addralign: 0x8,
                sh_type: SHT_SYMTAB,
                ..base
            },
            SectionType::Relocation => Section {
                sh_entsize: sizeof_rela(ctx) as u64,
                sh_addralign: 0x8,
                sh_flags: 0,
                sh_type: SHT_RELA,
                ..base
            },
            SectionType::SymTabShndx => Section {
                sh_entsize: 4,
                sh_addralign: 4,
                sh_type: SHT_SYMTAB_SHNDX,
                ..base
            },
            SectionType::NoBits => Section {
                sh_type: SHT_NOBITS,
                sh_flags: self.base_flags() | (SHF_WRITE | SHF_ALLOC),
                ..base
            },
            SectionType::Unset => Section { sh_type: SHT_NULL, ..base },
        }
    }

    /// Create a new section with `size`
    pub fn new(size: u64) -> (r: Self)
        ensures
            r == (SectionBuilder {
                typ: SectionType::Unset,
                executable: false,
                write: false,
                alloc: false,
                name_offset: 0,
                size,
                align: None,
            }),
    {
        SectionBuilder {
            typ: SectionType::Unset,
            executable: false,
            write: false,
            alloc: false,
            name_offset: 0,
            size,
            align: None,
        }
    }

    /// Make this section executable
    pub fn executable(self, executable: bool) -> (r: Self)
        ensures
            r == (SectionBuilder { executable, ..self }),
    {
        let mut s = self;
        s.executable = executable;
        s
    }

    /// Make this section allocatable
    pub fn allocate(self) -> (r: Self)
        ensures
            r == (SectionBuilder { alloc: true, ..self }),
    {
        let mut s = self;
        s.alloc = true;
        s
    }

    /// Make this section writable
    pub fn writable(self, writable: bool) -> (r: Self)
        ensures
            r == (SectionBuilder { write: writable, ..self }),
    {
        let mut s = self;
        s.write = writable;
        s
    }

    /// Specify section alignment
    pub fn align(self, align: Option<u64>) -> (r: Self)
        ensures
            r == (SectionBuilder { align, ..self }),
    {
        let mut s = self;
        s.align = align;
        s
    }

    /// Set the byte offset of this section's name in the string table
    pub fn name_offset(self, name_offset: usize) -> (r: Self)
        ensures
            r == (SectionBuilder { name_offset, ..self }),
    {
        let mut s = self;
        s.name_offset = name_offset;
        s
    }

    /// Set the type of this section
    pub fn section_type(self, typ: SectionType) -> (r: Self)
        ensures
            r == (SectionBuilder { typ, ..self }),
    {
        let mut s = self;
        s.typ = typ;
        s
    }

    /// Finalize and create the actual section
    pub fn create(self, ctx: &Ctx) -> (r: Section)
        ensures
            r == self.section(*ctx),
    {
        let mut shdr = Section::zeroed();
        let base: u64 = (if self.executable {
            SHF_EXECINSTR
        } else {
            0u64
        }) | (if self.write {
            SHF_WRITE
        } else {
            0u64
        }) | (if self.alloc {
            SHF_ALLOC
        } else {
            0u64
        });
        shdr.sh_flags = base;
        shdr.sh_size = self.size;
        shdr.sh_name = self.name_offset;
        let align: u64 = if let Some(align) = self.align {
            align
        } else if self.executable {
            0x10
        } else if self.write {
            0x8
        } else {
            1
        };
        match self.typ {
            SectionType::Bits => {
                shdr.sh_addralign = align;
                shdr.sh_type = SHT_PROGBITS;
            },
            SectionType::String => {
                shdr.sh_addralign = align;
                shdr.sh_type = SHT_PROGBITS;
                shdr.sh_flags = base | (SHF_MERGE | SHF_STRINGS);
            },
            SectionType::Data => {
                shdr.sh_addralign = align;
                shdr.sh_type = SHT_PROGBITS;
            },
            SectionType::StrTab => {
                shdr.sh_addralign = 0x1;
                shdr.sh_type = SHT_STRTAB;
            },
            SectionType::SymTab => {
                shdr.sh_entsize = if ctx.big {
                    24
                } else {
                    16
                };
                shdr.sh_addralign = 0x8;
                shdr.sh_type = SHT_SYMTAB;
            },
            SectionType::Relocation => {
                shdr.sh_entsize = if ctx.big {
                    24
                } else {
                    12
                };
                shdr.sh_addralign = 0x8;
                shdr.sh_flags = 0;
                shdr.sh_type = SHT_RELA;
            },
            SectionType::SymTabShndx => {
                shdr.sh_entsize = 4;
                shdr.sh_addralign = 4;
                shdr.sh_type = SHT_SYMTAB_SHNDX;
            },
            SectionType::NoBits => {
                shdr.sh_type = SHT_NOBITS;
                shdr.sh_flags = base | (SHF_WRITE | SHF_ALLOC);
            },
            SectionType::Unset => {
                shdr.sh_type = SHT_NULL;
            },
        }
        shdr
    }
}

/// A section of the output with its section symbol and its name
#[derive(Debug, Copy, Clone, PartialEq, Eq, Structural)]
pub struct SectionInfo {
    /// The section header
    pub header: Section,
    /// The section symbol
    pub symbol: Symbol,
    /// Position of the interned name
    pub name: usize,
}

/// A builder for constructing a relocation
#[derive(Debug, Copy, Clone, PartialEq, Eq, Structural)]
pub struct RelocationBuilder {
    /// Addend, or nothing for a relocation without one
    pub addend: Option<i64>,
    /// Index of the symbol referred to
    pub sym_idx: usize,
    /// Offset within the section that is relocated
    pub offset: u64,
    /// Relocation type
    pub typ: u32,
}

impl RelocationBuilder {
    /// Create a new relocation with `typ`
    pub fn new(typ: u32) -> (r: Self)
        ensures
            r == (RelocationBuilder { addend: Some(0i64), offset: 0, sym_idx: 0, typ }),
    {
        RelocationBuilder { addend: Some(0), offset: 0, sym_idx: 0, typ }
    }

    /// Set this relocation to a relocation without an addend
    pub fn rel(self) -> (r: Self)
        ensures
            r == (RelocationBuilder { addend: None, ..self }),
    {
        let mut s = self;
        s.addend = None;
        s
    }

    /// Set this relocation to a relocation with an addend of `addend`
    pub fn addend(self, addend: i64) -> (r: Self)
        ensures
            r == (RelocationBuilder { addend: Some(addend), ..self }),
    {
        let mut s = self;
        s.addend = Some(addend);
        s
    }

    /// Set the section relative offset this relocation refers to
    pub fn offset(self, offset: u64) -> (r: Self)
        ensures
            r == (RelocationBuilder { offset, ..self }),
    {
        let mut s = self;
        s.offset = offset;
        s
    }

    /// Set the symbol index this relocation affects
    pub fn sym(self, sym_idx: usize) -> (r: Self)
        ensures
            r == (RelocationBuilder { sym_idx, ..self }),
    {
        let mut s = self;
        s.sym_idx = sym_idx;
        s
    }

    /// Finalize and actually create this relocation
    pub fn create(self) -> (r: Relocation)
        ensures
            r == (Relocation {
                r_offset: self.offset,
                r_addend: self.addend,
                r_sym: self.sym_idx,
                r_type: self.typ,
            }),
    {
        Relocation {
            r_offset: self.offset,
            r_addend: self.addend,
            r_sym: self.sym_idx,
            r_type: self.typ,
        }
    }
}

/// The bytes of a file header with the given fields, in a container that
/// is 64-bit or not, little endian or not.
pub uninterp spec fn header_image(
    e_type: u16,
    e_machine: u16,
    e_shoff: u64,
    e_shnum: u16,
    e_shstrndx: u16,
    big: bool,
    le: bool,
) -> Seq<u8>;

/// The bytes of a symbol table entry.
pub uninterp spec fn symbol_image(
    st_name: usize,
    st_info: u8,
    st_other: u8,
    st_shndx: usize,
    st_value: u64,
    st_size: u64,
    big: bool,
    le: bool,
) -> Seq<u8>;

/// The bytes of a section header.
pub uninterp spec fn section_image(
    name_type: (usize, u32),
    sh_flags: u64,
    addr_offset_size: (u64, u64, u64),
    link_info: (u32, u32),
    align_entsize: (u64, u64),
    big: bool,
    le: bool,
) -> Seq<u8>;

/// The bytes of a relocation entry with addend.
pub uninterp spec fn rela_image(
    r_offset: u64,
    r_addend: i64,
    r_sym: usize,
    r_type: u32,
    big: bool,
    le: bool,
) -> Seq<u8>;

/// The bytes of a symbol in a container.
pub open spec fn symbol_bytes(s: Symbol, ctx: Ctx) -> Seq<u8> {
    symbol_image(s.st_name, s.st_info, s.st_other, s.st_shndx, s.st_value, s.st_size, ctx.big, ctx.le)
}

/// The bytes of a section header in a container.
pub open spec fn section_bytes(s: Section, ctx: Ctx) -> Seq<u8> {
    section_image(
        (s.sh_name, s.sh_type),
        s.sh_flags,
        (s.sh_addr, s.sh_offset, s.sh_size),
        (s.sh_link, s.sh_info),
        (s.sh_addralign, s.sh_entsize),
        ctx.big,
        ctx.le,
    )
}

/// The addend of a relocation, zero where it has none.
pub open spec fn addend_of(r: Relocation) -> i64 {
    match r.r_addend {
        Some(a) => a,
        None => 0i64,
    }
}

/// The bytes of a relocation with addend in a container.
pub open spec fn relocation_bytes(r: Relocation, ctx: Ctx) -> Seq<u8> {
    rela_image(r.r_offset, addend_of(r), r.r_sym, r.r_type, ctx.big, ctx.le)
}

/// goblin's `Header::new` for the container, with the given fields set and
/// the others as `new` leaves them, written by `into_ctx`: 64 bytes in a
/// 64-bit container and 52 in a 32-bit one.
#[verifier::external_body]
fn encode_header(e_type: u16, e_machine: u16, e_shoff: u64, e_shnum: u16, e_shstrndx: u16, ctx: Ctx) -> (r:
    Vec<u8>)
    ensures
        r@ == header_image(e_type, e_machine, e_shoff, e_shnum, e_shstrndx, ctx.big, ctx.le),
        r@.len() == sizeof_ehdr(ctx),
{
    let container = if ctx.big { Container::Big } else { Container::Little };
    let gctx = goblin::container::Ctx::new(container, if ctx.le { Endian::Little } else { Endian::Big });
    let mut header = Header::new(gctx);
    header.e_type = e_type;
    header.e_machine = e_machine;
    header.e_shoff = e_shoff;
    header.e_shnum = e_shnum;
    header.e_shstrndx = e_shstrndx;
    let mut bytes = vec![0u8; Header::size(gctx)];
    header.into_ctx(&mut bytes, gctx);
    bytes
}

/// goblin's `Sym` with the given fields, written by `into_ctx`: 24 bytes in
/// a 64-bit container and 16 in a 32-bit one.
#[verifier::external_body]
fn encode_symbol(s: &Symbol, ctx: Ctx) -> (r: Vec<u8>)
    ensures
        r@ == symbol_image(
            s.st_name,
            s.st_info,
            s.st_other,
            s.st_shndx,
            s.st_value,
            s.st_size,
            ctx.big,
            ctx.le,
        ),
        r@.len() == sizeof_sym(ctx),
{
    let container = if ctx.big { Container::Big } else { Container::Little };
    let gctx = goblin::container::Ctx::new(container, if ctx.le { Endian::Little } else { Endian::Big });
    let sym = Sym {
        st_name: s.st_name, st_info: s.st_info, st_other: s.st_other, st_shndx: s.st_shndx,
        st_value: s.st_value, st_size: s.st_size,
    };
    let mut bytes = vec![0u8; Sym::size(gctx.container)];
    sym.into_ctx(&mut bytes, gctx);
    bytes
}

/// goblin's `SectionHeader` with the given fields, written by `into_ctx`:
/// 64 bytes in a 64-bit container and 40 in a 32-bit one.
#[verifier::external_body]
fn encode_section(s: &Section, ctx: Ctx) -> (r: Vec<u8>)
    ensures
        r@ == section_image(
            (s.sh_name, s.sh_type),
            s.sh_flags,
            (s.sh_addr, s.sh_offset, s.sh_size),
            (s.sh_link, s.sh_info),
            (s.sh_addralign, s.sh_entsize),
            ctx.big,
            ctx.le,
        ),
        r@.len() == sizeof_shdr(ctx),
{
    let container = if ctx.big { Container::Big } else { Container::Little };
    let gctx = goblin::container::Ctx::new(container, if ctx.le { Endian::Little } else { Endian::Big });
    let shdr = SectionHeader {
        sh_name: s.sh_name, sh_type: s.sh_type, sh_flags: s.sh_flags, sh_addr: s.sh_addr,
        sh_offset: s.sh_offset, sh_size: s.sh_size, sh_link: s.sh_link, sh_info: s.sh_info,
        sh_addralign: s.sh_addralign, sh_entsize: s.sh_entsize,
    };
    let mut bytes = vec![0u8; SectionHeader::size(gctx)];
    shdr.into_ctx(&mut bytes, gctx);
    bytes
}

/// goblin's `Reloc` with the given fields, written by `into_ctx` as a
/// relocation with addend: 24 bytes in a 64-bit container and 12 in a 32-bit one.
#[verifier::external_body]
fn encode_relocation(r_offset: u64, r_addend: i64, r_sym: usize, r_type: u32, ctx: Ctx) -> (r: Vec<u8>)
    ensures
        r@ == rela_image(r_offset, r_addend, r_sym, r_type, ctx.big, ctx.le),
        r@.len() == sizeof_rela(ctx),
{
    let container = if ctx.big { Container::Big } else { Container::Little };
    let gctx = goblin::container::Ctx::new(container, if ctx.le { Endian::Little } else { Endian::Big });
    let reloc = GoblinReloc { r_offset, r_addend: Some(r_addend), r_sym, r_type };
    let mut bytes = vec![0u8; GoblinReloc::size(true, gctx)];
    reloc.into_ctx(&mut bytes, (true, gctx));
    bytes
}

/// `str::starts_with` with a string as the pattern: whether `prefix` is the
/// beginning of `s`.
#[verifier::external_body]
fn starts_with(s: &str, prefix: &str) -> (r: bool)
    ensures
        r == has_prefix(s@, prefix@),
{
    s.starts_with(prefix)
}

/// Whether `prefix` is the beginning of `s`.
pub open spec fn has_prefix(s: Seq<char>, prefix: Seq<char>) -> bool {
    prefix.len() <= s.len() && s.subrange(0, prefix.len() as int) == prefix
}

/// The bytes of the first `n` items, each encoded by `enc`, one after the other.
pub open spec fn flatten_first<T>(items: Seq<T>, enc: spec_fn(T) -> Seq<u8>, n: nat) -> Seq<u8>
    decreases n,
{
    if n == 0 {
        Seq::empty()
    } else {
        flatten_first(items, enc, (n - 1) as nat) + enc(items[n - 1])
    }
}

/// The bytes of all items, each encoded by `enc`, one after the other.
pub open spec fn flatten<T>(items: Seq<T>, enc: spec_fn(T) -> Seq<u8>) -> Seq<u8> {
    flatten_first(items, enc, items.len())
}

/// The bytes of a 32-bit number in the given byte order.
pub open spec fn u32_bytes(v: u32, le: bool) -> Seq<u8> {
    if le {
        seq![
            (v % 256) as u8,
            (v / 256 % 256) as u8,
            (v / 65536 % 256) as u8,
            (v / 16777216) as u8,
        ]
    } else {
        seq![
            (v / 16777216) as u8,
            (v / 65536 % 256) as u8,
            (v / 256 % 256) as u8,
            (v % 256) as u8,
        ]
    }
}

/// scroll's `pwrite_with` of a `u32`: its four bytes, lowest first in
/// little endian and highest first in big endian.
#[verifier::external_body]
fn encode_u32(v: u32, le: bool) -> (r: Vec<u8>)
    ensures
        r@ == u32_bytes(v, le),
{
    let mut bytes = vec![0u8; 4];
    let endian = if le { Endian::Little } else { Endian::Big };
    bytes.pwrite_with(v, 0, endian).unwrap();
    bytes
}

/// The section type for data of a given kind
pub fn section_type_for_data(typ: DataType, is_zero_init: bool) -> (r: SectionType)
    ensures
        r == data_section_type(typ, is_zero_init),
{
    if is_zero_init {
        return SectionType::NoBits;
    }
    match typ {
        DataType::Bytes => SectionType::Data,
        DataType::String => SectionType::String,
    }
}

/// The section type for data of a given kind: no bits for zero-initialised
/// data, else by the type of the data.
pub open spec fn data_section_type(typ: DataType, is_zero_init: bool) -> SectionType {
    if is_zero_init {
        SectionType::NoBits
    } else {
        match typ {
            DataType::Bytes => SectionType::Data,
            DataType::String => SectionType::String,
        }
    }
}

/// Whether a section of this name holds debug strings.
pub open spec fn is_debug_strings(name: Seq<char>) -> bool {
    has_prefix(name, ".debug_str"@) || has_prefix(name, ".debug_line_str"@)
}

/// The name of the section that holds a definition: by the kind of the
/// definition and its name, or the name itself for a raw section.
pub open spec fn section_name_of(name: Seq<char>, decl: DefinedDecl, zero_init: bool) -> Seq<char> {
    match decl {
        DefinedDecl::Function(_) => ".text."@ + name,
        DefinedDecl::Data(d) => if zero_init {
            ".bss."@ + name
        } else if d.writable {
            ".data."@ + name
        } else {
            ".rodata."@ + name
        },
        DefinedDecl::Section(_) => name,
    }
}

/// The section that holds a definition, before it has a name and an offset.
pub open spec fn section_builder_of(
    name: Seq<char>,
    decl: DefinedDecl,
    zero_init: bool,
    size: u64,
) -> SectionBuilder {
    let typ = match decl {
        DefinedDecl::Function(_) => SectionType::Bits,
        DefinedDecl::Data(d) => data_section_type(d.datatype, zero_init),
        DefinedDecl::Section(d) => if is_debug_strings(name) {
            SectionType::String
        } else {
            data_section_type(d.datatype, zero_init)
        },
    };
    SectionBuilder {
        typ,
        executable: decl.spec_is_executable(),
        write: decl.spec_is_writable(),
        alloc: decl.spec_is_loaded(),
        size,
        name_offset: 0,
        align: decl.spec_get_align(),
    }
}

/// The relocation type and the addend for a link: chosen by the
/// declarations of its two ends where the link leaves the choice open, as
/// given for a raw relocation, and absolute of the given size in a debug section.
pub open spec fn reloc_kind(reloc: Reloc, from: Decl, to: Decl, big: bool) -> Option<(u32, i32)> {
    match reloc {
        Reloc::Auto => match from {
            Decl::Defined(DefinedDecl::Function(_)) => match to {
                Decl::Defined(DefinedDecl::Function(_)) | Decl::Import(ImportKind::Function) => Some(
                    (R_X86_64_PLT32, -4i32),
                ),
                Decl::Defined(DefinedDecl::Data(_)) => Some((R_X86_64_PC32, -4i32)),
                Decl::Import(ImportKind::Data) => Some((R_X86_64_GOTPCREL, -4i32)),
                _ => None,
            },
            Decl::Defined(DefinedDecl::Data(_)) => if big {
                Some((R_X86_64_64, 0i32))
            } else {
                Some((R_X86_64_32, 0i32))
            },
            _ => None,
        },
        Reloc::Raw { reloc, addend } => Some((reloc, addend)),
        Reloc::Debug { size, addend } => if size == 4 {
            Some((R_X86_64_32, addend))
        } else if size == 8 {
            Some((R_X86_64_64, addend))
        } else {
            None
        },
    }
}

/// Choose the relocation type and the addend for a link
pub fn select_reloc(reloc: Reloc, from: &Decl, to: &Decl, big: bool) -> (r: Option<(u32, i32)>)
    ensures
        r == reloc_kind(reloc, *from, *to, big),
{
    match reloc {
        Reloc::Auto => match *from {
            Decl::Defined(DefinedDecl::Function(_)) => match *to {
                Decl::Defined(DefinedDecl::Function(_)) | Decl::Import(ImportKind::Function) => Some(
                    (R_X86_64_PLT32, -4),
                ),
                Decl::Defined(DefinedDecl::Data(_)) => Some((R_X86_64_PC32, -4)),
                Decl::Import(ImportKind::Data) => Some((R_X86_64_GOTPCREL, -4)),
                _ => None,
            },
            Decl::Defined(DefinedDecl::Data(_)) => {
                if big {
                    Some((R_X86_64_64, 0))
                } else {
                    Some((R_X86_64_32, 0))
                }
            },
            _ => None,
        },
        Reloc::Raw { reloc, addend } => Some((reloc, addend)),
        Reloc::Debug { size, addend } => {
            if size == 4 {
                Some((R_X86_64_32, addend))
            } else if size == 8 {
                Some((R_X86_64_64, addend))
            } else {
                None
            }
        },
    }
}

/// The section symbol of the section with index `shndx`.
pub open spec fn section_symbol(shndx: usize) -> Symbol {
    (SymbolBuilder { name_offset: 0, size: 0, typ: SymbolType::Section, shndx }).symbol()
}

/// The names with `name` added last, unless it is among them.
pub open spec fn interned_with(names: Seq<Seq<char>>, name: Seq<char>) -> Seq<Seq<char>> {
    if names.contains(name) {
        names
    } else {
        names.push(name)
    }
}

/// Whether the string table has room for `name`.
pub open spec fn has_room(names: Seq<Seq<char>>, name: Seq<char>) -> bool {
    strtab_of(interned_with(names, name)).len() <= usize::MAX
}

/// The content of an ELF file under construction.
pub struct ElfView {
    /// The container
    pub ctx: Ctx,
    /// The architecture
    pub architecture: Architecture,
    /// The strings of the string table
    pub names: Seq<Seq<char>>,
    /// The contents of the sections that take room in the file
    pub code: Seq<Seq<u8>>,
    /// The sections of the definitions
    pub sections: Seq<SectionInfo>,
    /// For each of those sections the position of its name
    pub section_keys: Seq<usize>,
    /// The symbols of the definitions and of the imports
    pub symbols: Seq<Symbol>,
    /// For each of those symbols the position of its name
    pub symbol_keys: Seq<usize>,
    /// The null symbol and the file symbol
    pub special_symbols: Seq<Symbol>,
    /// The relocation sections, each with its relocations
    pub relocations: Seq<(Section, Seq<Relocation>)>,
    /// For each relocation section the index of the section it relocates
    pub relocation_keys: Seq<usize>,
    /// Where the next section's contents will stand in the file
    pub sizeof_bits: usize,
    /// The number of sections
    pub nsections: u32,
    /// The number of symbols of definitions that are not global
    pub nlocals: usize,
}

/// Whether no key occurs twice.
pub open spec fn distinct_ids(keys: Seq<usize>) -> bool {
    forall|i: int, j: int|
        0 <= i < keys.len() && 0 <= j < keys.len() && i != j ==> #[trigger] keys[i]
            != #[trigger] keys[j]
}

/// The length of the first `n` blobs together.
pub open spec fn blobs_len(code: Seq<Seq<u8>>, n: nat) -> nat
    decreases n,
{
    if n == 0 {
        0
    } else {
        blobs_len(code, (n - 1) as nat) + code[n - 1].len()
    }
}

/// The first `n` blobs, one after the other.
pub open spec fn blobs_first(code: Seq<Seq<u8>>, n: nat) -> Seq<u8>
    decreases n,
{
    if n == 0 {
        Seq::empty()
    } else {
        blobs_first(code, (n - 1) as nat) + code[n - 1]
    }
}

/// Where `key` stands in `keys`.
pub open spec fn key_position(keys: Seq<usize>, key: usize) -> int {
    keys.index_of(key)
}

impl ElfView {
    /// What holds of every file under construction: the string table
    /// holds two names at least, the special symbols are the null symbol and
    /// a local one, every symbol refers into the string table, each section
    /// has its section symbol, the symbols that are not global come first,
    /// and the counts agree.
    pub open spec fn wf(self) -> bool {
        &&& distinct_names(self.names)
        &&& strtab_of(self.names).len() <= usize::MAX
        &&& self.names.len() >= 2
        &&& self.special_symbols.len() == 2
        &&& self.special_symbols[0] == Symbol::null()
        &&& self.special_symbols[1].st_info == 4
        &&& self.special_symbols[1].st_name < strtab_of(self.names).len()
        &&& forall|i: int|
            0 <= i < self.symbols.len() ==> (#[trigger] self.symbols[i]).st_name < strtab_of(
                self.names,
            ).len()
        &&& self.nsections == 4 + self.sections.len() + self.relocations.len()
        &&& self.section_keys.len() == self.sections.len()
        &&& self.symbol_keys.len() == self.symbols.len()
        &&& self.relocation_keys.len() == self.relocations.len()
        &&& distinct_ids(self.section_keys)
        &&& distinct_ids(self.symbol_keys)
        &&& distinct_ids(self.relocation_keys)
        &&& self.nlocals <= self.symbols.len()
        &&& forall|i: int| 0 <= i < self.nlocals ==> (#[trigger] self.symbols[i]).st_info / 16 != 1
        &&& forall|i: int|
            self.nlocals <= i < self.symbols.len() ==> (#[trigger] self.symbols[i]).st_info / 16 == 1
        &&& forall|i: int|
            0 <= i < self.sections.len() ==> (#[trigger] self.sections[i]).symbol == section_symbol(
                (i + 3) as usize,
            ) && self.sections[i].name < self.names.len()
        &&& self.sizeof_bits == sizeof_ehdr(self.ctx) + blobs_len(self.code, self.code.len())
        &&& forall|i: int|
            0 <= i < self.relocations.len() ==> (#[trigger] self.relocations[i]).0.sh_entsize
                == sizeof_rela(self.ctx) && self.relocations[i].0.sh_size == self.relocations[i].1.len()
                * sizeof_rela(self.ctx)
    }

    /// The file before any definition: the string table holds the names of
    /// the two tables and the name of the artifact, and the symbols are the
    /// null symbol and the file symbol.
    pub open spec fn initial(name: Seq<char>, ctx: Ctx, architecture: Architecture) -> Option<
        ElfView,
    > {
        let names = interned_with(interned_with(seq![".strtab"@], ".symtab"@), name);
        if strtab_of(names).len() > usize::MAX {
            None
        } else {
            Some(
                ElfView {
                    ctx,
                    architecture,
                    names,
                    code: Seq::empty(),
                    sections: Seq::empty(),
                    section_keys: Seq::empty(),
                    symbols: Seq::empty(),
                    symbol_keys: Seq::empty(),
                    special_symbols: seq![
                        Symbol::null(),
                        (SymbolBuilder {
                            name_offset: strtab_offset(names, names.index_of(name) as nat) as usize,
                            size: 0,
                            typ: SymbolType::File,
                            shndx: 0,
                        }).symbol(),
                    ],
                    relocations: Seq::empty(),
                    relocation_keys: Seq::empty(),
                    sizeof_bits: sizeof_ehdr(ctx) as usize,
                    nsections: 4,
                    nlocals: 0,
                },
            )
        }
    }

    /// The content after a section was added, with its section symbol, or
    /// nothing where the file has no place for it: the name must be new among
    /// the sections. The contents of a section that has any are added to the
    /// contents of the file.
    #[verifier::opaque]
    pub open spec fn add_section(
        self,
        section_name: Seq<char>,
        builder: SectionBuilder,
        contents: Option<Seq<u8>>,
    ) -> Option<ElfView> {
        if !has_room(self.names, section_name) {
            None
        } else {
            let names = interned_with(self.names, section_name);
            let sid = names.index_of(section_name) as usize;
            let file_len = match contents {
                Some(bytes) => bytes.len(),
                None => 0,
            };
            if self.section_keys.contains(sid) || self.nsections == u32::MAX || self.sizeof_bits
                + file_len > usize::MAX {
                None
            } else {
                let shndx = (self.sections.len() + 3) as usize;
                let header = Section {
                    sh_offset: self.sizeof_bits as u64,
                    ..(SectionBuilder {
                        name_offset: strtab_offset(names, sid as nat) as usize,
                        ..builder
                    }).section(self.ctx)
                };
                Some(
                    ElfView {
                        names,
                        sections: self.sections.push(
                            SectionInfo { header, symbol: section_symbol(shndx), name: sid },
                        ),
                        section_keys: self.section_keys.push(sid),
                        nsections: (self.nsections + 1) as u32,
                        sizeof_bits: (self.sizeof_bits + file_len) as usize,
                        code: match contents {
                            Some(bytes) => self.code.push(bytes),
                            None => self.code,
                        },
                        ..self
                    },
                )
            }
        }
    }

    /// The content after a definition was added, or nothing where the file
    /// has no place for it: a section named after the definition, and a
    /// symbol unless the definition is a raw section.
    #[verifier::opaque]
    pub open spec fn add_definition(
        self,
        name: Seq<char>,
        decl: DefinedDecl,
        data: DataView,
        custom_symbols: bool,
    ) -> Option<ElfView> {
        let zero_init = data is ZeroInit;
        if (zero_init && !(decl is Data)) || (decl is Section && custom_symbols) || data.len()
            > usize::MAX {
            None
        } else {
            match self.add_section(
                section_name_of(name, decl, zero_init),
                section_builder_of(name, decl, zero_init, data.len() as u64),
                if zero_init {
                    None
                } else {
                    Some(data.file_bytes())
                },
            ) {
                None => None,
                Some(placed) => if decl is Section {
                    Some(placed)
                } else {
                    placed.add_symbol(
                        name,
                        SymbolBuilder {
                            name_offset: 0,
                            size: data.len() as u64,
                            typ: SymbolType::Decl(decl),
                            shndx: (self.sections.len() + 3) as usize,
                        },
                        !decl.spec_is_global(),
                    )
                },
            }
        }
    }

    /// The content after a symbol named `name` was added last, or nothing
    /// where the string table has no room, the name has a symbol already, or
    /// a symbol that is not global would come after one that is.
    #[verifier::opaque]
    pub open spec fn add_symbol(self, name: Seq<char>, builder: SymbolBuilder, local: bool) -> Option<
        ElfView,
    > {
        if !has_room(self.names, name) {
            None
        } else {
            let names = interned_with(self.names, name);
            let id = names.index_of(name) as usize;
            if self.symbol_keys.contains(id) || (local && self.nlocals != self.symbols.len()) {
                None
            } else {
                Some(
                    ElfView {
                        names,
                        symbols: self.symbols.push(
                            (SymbolBuilder {
                                name_offset: strtab_offset(names, id as nat) as usize,
                                ..builder
                            }).symbol(),
                        ),
                        symbol_keys: self.symbol_keys.push(id),
                        nlocals: if local {
                            (self.nlocals + 1) as usize
                        } else {
                            self.nlocals
                        },
                        ..self
                    },
                )
            }
        }
    }

    /// The content after an import was added: an undefined global symbol.
    #[verifier::opaque]
    pub open spec fn import(self, name: Seq<char>) -> Option<ElfView> {
        self.add_symbol(
            name,
            SymbolBuilder { name_offset: 0, size: 0, typ: SymbolType::Import, shndx: 0 },
            false,
        )
    }

    /// The index of the symbol of `name` and the index of its section: for a
    /// raw section its section symbol, which comes after the special symbols;
    /// for anything else its own symbol, which comes after the section symbols.
    pub open spec fn locate(self, name: Seq<char>, decl: Decl) -> Option<(usize, usize)> {
        if !self.names.contains(name) {
            None
        } else {
            let id = self.names.index_of(name) as usize;
            if decl.spec_is_section() {
                if !self.section_keys.contains(id) {
                    None
                } else {
                    let pos = key_position(self.section_keys, id);
                    Some(((pos + self.special_symbols.len()) as usize, (pos + 3) as usize))
                }
            } else {
                if !self.symbol_keys.contains(id) || key_position(self.symbol_keys, id)
                    + self.special_symbols.len() + self.sections.len() > usize::MAX {
                    None
                } else {
                    let pos = key_position(self.symbol_keys, id);
                    Some(
                        (
                            (pos + self.special_symbols.len() + self.sections.len()) as usize,
                            self.symbols[pos].st_shndx,
                        ),
                    )
                }
            }
        }
    }

    /// The content after a link was added, or nothing where an end of the
    /// link has no symbol or no relocation is known for it. The relocation
    /// refers to the section symbol of a defined destination, and to the
    /// symbol of an imported one.
    #[verifier::opaque]
    pub open spec fn link(
        self,
        from: (Seq<char>, Decl),
        to: (Seq<char>, Decl),
        at: u64,
        reloc: Reloc,
    ) -> Option<ElfView> {
        match (
            self.locate(to.0, to.1),
            self.locate(from.0, from.1),
            reloc_kind(reloc, from.1, to.1, self.ctx.big),
        ) {
            (Some((to_idx, to_shndx)), Some((_, from_shndx)), Some((typ, addend))) => {
                if to.1 is Defined && to_shndx < 3 {
                    None
                } else {
                    let sym_idx = if to.1 is Defined {
                        (to_shndx - 3 + self.special_symbols.len()) as usize
                    } else {
                        to_idx
                    };
                    self.add_reloc(
                        Relocation {
                            r_offset: at,
                            r_addend: Some(addend as i64),
                            r_sym: sym_idx,
                            r_type: typ,
                        },
                        from_shndx,
                    )
                }
            },
            _ => None,
        }
    }

    /// The content after a relocation was added to the relocations of the
    /// section with index `shndx`: the first one makes the relocation
    /// section, named `.rela` and the name of the section.
    #[verifier::opaque]
    pub open spec fn add_reloc(self, rel: Relocation, shndx: usize) -> Option<ElfView> {
        if self.relocation_keys.contains(shndx) {
            let pos = key_position(self.relocation_keys, shndx);
            let (section, rels) = self.relocations[pos];
            if section.sh_size + section.sh_entsize > u64::MAX {
                None
            } else {
                Some(
                    ElfView {
                        relocations: self.relocations.update(
                            pos,
                            (
                                Section {
                                    sh_size: (section.sh_size + section.sh_entsize) as u64,
                                    ..section
                                },
                                rels.push(rel),
                            ),
                        ),
                        ..self
                    },
                )
            }
        } else if shndx < 3 || shndx - 3 >= self.sections.len() || shndx > u32::MAX {
            None
        } else {
            let name = ".rela"@ + self.names[self.sections[shndx - 3].name as int];
            if !has_room(self.names, name) || self.nsections == u32::MAX {
                None
            } else {
                let names = interned_with(self.names, name);
                let builder = SectionBuilder {
                    typ: SectionType::Relocation,
                    executable: false,
                    write: false,
                    alloc: false,
                    size: sizeof_rela(self.ctx) as u64,
                    name_offset: strtab_offset(names, names.index_of(name) as nat) as usize,
                    align: None,
                };
                let section = Section {
                    sh_link: 2,
                    sh_info: shndx as u32,
                    sh_flags: SHF_INFO_LINK,
                    ..builder.section(self.ctx)
                };
                Some(
                    ElfView {
                        names,
                        relocations: self.relocations.push((section, seq![rel])),
                        relocation_keys: self.relocation_keys.push(shndx),
                        nsections: (self.nsections + 1) as u32,
                        ..self
                    },
                )
            }
        }
    }
}


/// In a list of keys without repetition, the position of a key is the one
/// place where it stands.
pub proof fn lemma_key_position(keys: Seq<usize>, key: usize, i: int)
    requires
        distinct_ids(keys),
        0 <= i < keys.len(),
        keys[i] == key,
    ensures
        keys.contains(key),
        key_position(keys, key) == i,
{
    let j = keys.index_of(key);
    assert(0 <= j < keys.len() && keys[j] == key);
}

/// The blobs of a list that agrees with another on its first `n` blobs
/// have the same length and the same bytes there.
pub proof fn lemma_blobs_same(a: Seq<Seq<u8>>, b: Seq<Seq<u8>>, n: nat)
    requires
        n <= a.len(),
        n <= b.len(),
        forall|i: int| 0 <= i < n ==> a[i] == b[i],
    ensures
        blobs_len(a, n) == blobs_len(b, n),
        blobs_first(a, n) == blobs_first(b, n),
        blobs_first(a, n).len() == blobs_len(a, n),
    decreases n,
{
    if n > 0 {
        lemma_blobs_same(a, b, (n - 1) as nat);
    }
}

/// An intermediate ELF object file container
pub struct Elf<'a> {
    name: &'a str,
    code: Vec<&'a [u8]>,
    relocations: Vec<(Section, Vec<Relocation>)>,
    relocation_index: KeyIndex,
    symbols: Vec<Symbol>,
    symbol_index: KeyIndex,
    special_symbols: Vec<Symbol>,
    sections: Vec<SectionInfo>,
    section_index: KeyIndex,
    strtab: StringTable,
    sizeof_bits: usize,
    nsections: u32,
    ctx: Ctx,
    architecture: Architecture,
    nlocals: usize,
}

impl<'a> View for Elf<'a> {
    type V = ElfView;

    closed spec fn view(&self) -> ElfView {
        ElfView {
            ctx: self.ctx,
            architecture: self.architecture,
            names: self.strtab.names(),
            code: Seq::new(self.code@.len(), |i: int| self.code@[i]@),
            sections: self.sections@,
            section_keys: self.section_index.keys(),
            symbols: self.symbols@,
            symbol_keys: self.symbol_index.keys(),
            special_symbols: self.special_symbols@,
            relocations: Seq::new(
                self.relocations@.len(),
                |i: int| (self.relocations@[i].0, self.relocations@[i].1@),
            ),
            relocation_keys: self.relocation_index.keys(),
            sizeof_bits: self.sizeof_bits,
            nsections: self.nsections,
            nlocals: self.nlocals,
        }
    }
}

impl<'a> Elf<'a> {
    /// The tables are in order and the content is well formed.
    pub closed spec fn wf(&self) -> bool {
        &&& self.strtab.wf()
        &&& self.section_index.wf()
        &&& self.symbol_index.wf()
        &&& self.relocation_index.wf()
        &&& self@.wf()
    }

    /// A well-formed file under construction has well-formed content.
    pub proof fn lemma_wf(&self)
        requires
            self.wf(),
        ensures
            self@.wf(),
    {
    }

    /// Start an ELF file for an artifact of the given name, for the
    /// container of `target`
    pub fn new(name: &'a str, target: &Target) -> (r: Result<Elf<'a>, EmitError>)
        ensures
            r matches Err(e) ==> !(e is Undefined),
            r is Ok <==> ElfView::initial(name@, ctx_of(*target), target.architecture) is Some,
            r matches Ok(elf) ==> elf.wf() && Some(elf@) == ElfView::initial(
                name@,
                ctx_of(*target),
                target.architecture,
            ),
    {
        let ctx = make_ctx(target);
        let mut strtab = StringTable::new();
        proof {
            reveal_strlit(".strtab");
            reveal_strlit(".symtab");
            assert(".strtab"@ != ".symtab"@) by {
                assert(".strtab"@[2] != ".symtab"@[2]);
            }
            assert(Seq::<Seq<char>>::empty().push(".strtab"@) =~= seq![".strtab"@]);
            assert(strtab_of(seq![".strtab"@]).len() == 9) by {
                reveal_with_fuel(strtab_first, 2);
                lemma_ascii_len(".strtab"@);
            }
        }
        let first = strtab.new_string(".strtab");
        assert(first is Some);
        proof {
            let two = seq![".strtab"@].push(".symtab"@);
            assert(!seq![".strtab"@].contains(".symtab"@));
            assert(strtab_of(two).len() == 17) by {
                reveal_with_fuel(strtab_first, 3);
                lemma_ascii_len(".strtab"@);
                lemma_ascii_len(".symtab"@);
                assert(two[0] == ".strtab"@);
                assert(two[1] == ".symtab"@);
            }
        }
        let second = strtab.new_string(".symtab");
        assert(second is Some);
        let ghost two = strtab.names();
        let offset = match strtab.new_string(name) {
            Some((id, offset)) => {
                proof {
                    strtab.lemma_distinct();
                    lemma_position(strtab.names(), name@, id as int);
                    crate::table::lemma_strtab_entry(strtab.names(), id as nat);
                }
                offset
            },
            None => {
                return Err(EmitError::TooLarge);
            },
        };
        let mut special_symbols: Vec<Symbol> = Vec::new();
        special_symbols.push(SymbolBuilder::new(SymbolType::Unset).create());
        special_symbols.push(SymbolBuilder::new(SymbolType::File).name_offset(offset).create());
        let sizeof_bits: usize = if ctx.big {
            64
        } else {
            52
        };
        let elf = Elf {
            name,
            code: Vec::new(),
            relocations: Vec::new(),
            relocation_index: KeyIndex::new(),
            symbols: Vec::new(),
            symbol_index: KeyIndex::new(),
            special_symbols,
            sections: Vec::new(),
            section_index: KeyIndex::new(),
            strtab,
            sizeof_bits,
            nsections: 4,
            ctx,
            architecture: target.architecture,
            nlocals: 0,
        };
        proof {
            strtab.lemma_distinct();
            assert(elf@.code =~= Seq::empty());
            assert(elf@.relocations =~= Seq::empty());
            assert(elf@.special_symbols =~= seq![
                Symbol::null(),
                (SymbolBuilder {
                    name_offset: offset,
                    size: 0,
                    typ: SymbolType::File,
                    shndx: 0,
                }).symbol(),
            ]);
        }
        Ok(elf)
    }

    /// Add a string to the string table, unless it is there, and return its
    /// position and its offset
    fn new_string(&mut self, name: &str) -> (r: Option<(usize, usize)>)
        requires
            old(self).wf(),
        ensures
            final(self).wf(),
            r is Some <==> has_room(old(self)@.names, name@),
            r is None ==> final(self)@ == old(self)@,
            r matches Some((id, offset)) ==> final(self)@ == (ElfView {
                names: interned_with(old(self)@.names, name@),
                ..old(self)@
            }) && id == final(self)@.names.index_of(name@) && id < final(self)@.names.len()
                && final(self)@.names[id as int] == name@ && offset == strtab_offset(
                final(self)@.names,
                id as nat,
            ),
    {
        let ghost before = self@;
        proof {
            self.strtab.lemma_distinct();
            lemma_interned_with(before.names, name@);
        }
        let r = self.strtab.new_string(name);
        proof {
            self.strtab.lemma_distinct();
            assert(self@.code =~= before.code);
            assert(self@.relocations =~= before.relocations);
            match r {
                Some((id, offset)) => {
                    lemma_position(self@.names, name@, id as int);
                },
                None => {},
            }
        }
        r
    }
}

impl<'a> Elf<'a> {
    /// Add a section with its section symbol and return the section index
    fn add_section(&mut self, name: &str, section: SectionBuilder, data: Option<&'a [u8]>) -> (r:
        Result<usize, EmitError>)
        requires
            old(self).wf(),
        ensures
            final(self)@.architecture == old(self)@.architecture,
            r matches Err(e) ==> !(e is Undefined),
            final(self).wf(),
            r is Ok <==> old(self)@.add_section(name@, section, slice_view(data)) is Some,
            r matches Ok(shndx) ==> Some(final(self)@) == old(self)@.add_section(
                name@,
                section,
                slice_view(data),
            ) && shndx == old(self)@.sections.len() + 3,
    {
        proof {
            reveal(ElfView::add_section);
        }
        let ghost before = self@;
        let (idx, offset) = match self.new_string(name) {
            Some(pair) => pair,
            None => {
                return Err(EmitError::TooLarge);
            },
        };
        let ghost named = self@;
        let size: usize = match data {
            Some(bytes) => bytes.len(),
            None => 0,
        };
        if self.section_index.position(idx).is_some() {
            return Err(EmitError::Duplicate);
        }
        if self.nsections == u32::MAX || size > usize::MAX - self.sizeof_bits {
            return Err(EmitError::TooLarge);
        }
        let shndx = self.sections.len() + 3;
        let section_symbol = SymbolBuilder::new(SymbolType::Section).section_index(shndx).create();
        let mut header = section.name_offset(offset).create(&self.ctx);
        header.sh_offset = self.sizeof_bits as u64;
        self.sections.push(SectionInfo { header, symbol: section_symbol, name: idx });
        self.section_index.append(idx);
        self.nsections = self.nsections + 1;
        self.sizeof_bits = self.sizeof_bits + size;
        match data {
            Some(bytes) => {
                self.code.push(bytes);
            },
            None => {},
        }
        proof {
            self.section_index.lemma_distinct();
            assert(self@.relocations =~= before.relocations);
            match data {
                Some(bytes) => {
                    assert(self@.code =~= before.code.push(bytes@));
                    lemma_blobs_same(before.code, self@.code, before.code.len());
                },
                None => {
                    assert(self@.code =~= before.code);
                },
            }
        }
        Ok(shndx)
    }

    /// Create a section with contents in the file (and its section symbol),
    /// and return the section index
    pub fn add_progbits(&mut self, name: &str, section: SectionBuilder, data: &'a [u8]) -> (r:
        Result<usize, EmitError>)
        requires
            old(self).wf(),
        ensures
            final(self)@.architecture == old(self)@.architecture,
            r matches Err(e) ==> !(e is Undefined),
            final(self).wf(),
            r is Ok <==> old(self)@.add_section(name@, section, Some(data@)) is Some,
            r matches Ok(shndx) ==> Some(final(self)@) == old(self)@.add_section(
                name@,
                section,
                Some(data@),
            ) && shndx == old(self)@.sections.len() + 3,
    {
        self.add_section(name, section, Some(data))
    }

    /// Create a section without contents in the file (and its section
    /// symbol), and return the section index
    pub fn add_bss(&mut self, name: &str, section: SectionBuilder) -> (r: Result<usize, EmitError>)
        requires
            old(self).wf(),
        ensures
            final(self)@.architecture == old(self)@.architecture,
            r matches Err(e) ==> !(e is Undefined),
            final(self).wf(),
            r is Ok <==> old(self)@.add_section(name@, section, None) is Some,
            r matches Ok(shndx) ==> Some(final(self)@) == old(self)@.add_section(
                name@,
                section,
                None,
            ) && shndx == old(self)@.sections.len() + 3,
    {
        self.add_section(name, section, None)
    }

    /// Add a symbol named `name`, last
    fn add_symbol(&mut self, name: &str, builder: SymbolBuilder, local: bool) -> (r: Result<
        (),
        EmitError,
    >)
        requires
            old(self).wf(),
            local == (builder.symbol().st_info / 16 != 1),
        ensures
            final(self)@.architecture == old(self)@.architecture,
            r matches Err(e) ==> !(e is Undefined),
            final(self).wf(),
            r is Ok <==> old(self)@.add_symbol(name@, builder, local) is Some,
            r is Ok ==> Some(final(self)@) == old(self)@.add_symbol(name@, builder, local),
    {
        proof {
            reveal(ElfView::add_symbol);
        }
        let ghost before = self@;
        let (idx, offset) = match self.new_string(name) {
            Some(pair) => pair,
            None => {
                return Err(EmitError::TooLarge);
            },
        };
        if self.symbol_index.position(idx).is_some() {
            return Err(EmitError::Duplicate);
        }
        if local && self.nlocals != self.symbols.len() {
            return Err(EmitError::Misordered);
        }
        let symbol = builder.name_offset(offset).create();
        proof {
            crate::table::lemma_strtab_entry(self@.names, idx as nat);
        }
        self.symbols.push(symbol);
        self.symbol_index.append(idx);
        if local {
            self.nlocals = self.symbols.len();
        }
        proof {
            self.symbol_index.lemma_distinct();
            assert(self@.relocations =~= before.relocations);
            assert(self@.code =~= before.code);
        }
        Ok(())
    }

    /// Add a definition: a section for its contents, and a symbol unless it
    /// is a raw section. Definitions that are not global come first.
    pub fn add_definition(&mut self, def: Definition<'a>) -> (r: Result<(), EmitError>)
        requires
            old(self).wf(),
        ensures
            final(self)@.architecture == old(self)@.architecture,
            r matches Err(e) ==> !(e is Undefined),
            final(self).wf(),
            r is Ok <==> old(self)@.add_definition(
                def.name@,
                *def.decl,
                def.data@,
                def.symbols@.len() > 0,
            ) is Some,
            r is Ok ==> Some(final(self)@) == old(self)@.add_definition(
                def.name@,
                *def.decl,
                def.data@,
                def.symbols@.len() > 0,
            ),
    {
        proof {
            reveal(ElfView::add_definition);
        }
        let name = def.name;
        let decl = *def.decl;
        let zero_init = def.data.is_zero_init();
        if (zero_init && !decl.is_data()) || (decl.is_section() && def.symbols.len() > 0) {
            return Err(EmitError::UnsupportedDefinition);
        }
        let def_size = def.data.len();
        let section_name: String = match decl {
            DefinedDecl::Function(_) => ".text.".to_owned().concat(name),
            DefinedDecl::Data(d) => {
                if zero_init {
                    ".bss.".to_owned().concat(name)
                } else if d.is_writable() {
                    ".data.".to_owned().concat(name)
                } else {
                    ".rodata.".to_owned().concat(name)
                }
            },
            DefinedDecl::Section(_) => name.to_owned(),
        };
        let typ = match decl {
            DefinedDecl::Function(_) => SectionType::Bits,
            DefinedDecl::Data(d) => section_type_for_data(d.get_datatype(), zero_init),
            DefinedDecl::Section(d) => {
                if starts_with(name, ".debug_str") || starts_with(name, ".debug_line_str") {
                    SectionType::String
                } else {
                    section_type_for_data(d.get_datatype(), zero_init)
                }
            },
        };
        let mut section = SectionBuilder::new(def_size as u64).section_type(typ).writable(
            decl.is_writable(),
        ).executable(decl.is_executable()).align(decl.get_align());
        if decl.is_loaded() {
            section = section.allocate();
        }
        assert(section == section_builder_of(name@, decl, zero_init, def_size as u64));
        let placed = match def.data {
            Data::Blob(bytes) => self.add_progbits(section_name.as_str(), section, bytes.as_slice()),
            Data::ZeroInit(_) => self.add_bss(section_name.as_str(), section),
        };
        let shndx = match placed {
            Ok(shndx) => shndx,
            Err(e) => {
                return Err(e);
            },
        };
        match decl {
            DefinedDecl::Function(_) | DefinedDecl::Data(_) => {
                let builder = SymbolBuilder::from_decl(def.decl).size(def_size).section_index(shndx);
                self.add_symbol(name, builder, !decl.is_global())
            },
            DefinedDecl::Section(_) => Ok(()),
        }
    }

    /// Add an import: an undefined global symbol
    pub fn import(&mut self, import: &str, kind: &ImportKind) -> (r: Result<(), EmitError>)
        requires
            old(self).wf(),
        ensures
            final(self)@.architecture == old(self)@.architecture,
            r matches Err(e) ==> !(e is Undefined),
            final(self).wf(),
            r is Ok <==> old(self)@.import(import@) is Some,
            r is Ok ==> Some(final(self)@) == old(self)@.import(import@),
    {
        proof {
            reveal(ElfView::import);
        }
        self.add_symbol(import, SymbolBuilder::new(SymbolType::Import), false)
    }

    /// The index of the symbol of `name` and the index of its section
    fn locate(&self, name: &str, decl: &Decl) -> (r: Option<(usize, usize)>)
        requires
            self.wf(),
        ensures
            r == self@.locate(name@, *decl),
    {
        proof {
            self.strtab.lemma_distinct();
            self.section_index.lemma_distinct();
            self.symbol_index.lemma_distinct();
        }
        let id = match self.strtab.lookup(name) {
            Some(id) => id,
            None => {
                return None;
            },
        };
        proof {
            lemma_position(self@.names, name@, id as int);
        }
        if decl.is_section() {
            match self.section_index.position(id) {
                Some(pos) => {
                    proof {
                        lemma_key_position(self@.section_keys, id, pos as int);
                    }
                    Some((pos + self.special_symbols.len(), pos + 3))
                },
                None => None,
            }
        } else {
            match self.symbol_index.position(id) {
                Some(pos) => {
                    proof {
                        lemma_key_position(self@.symbol_keys, id, pos as int);
                    }
                    let before = self.special_symbols.len() + self.sections.len();
                    if pos > usize::MAX - before {
                        return None;
                    }
                    Some((pos + before, self.symbols[pos].st_shndx))
                },
                None => None,
            }
        }
    }

    /// Add a link: a relocation in the section of its source that refers
    /// to the symbol of its destination
    pub fn link(&mut self, l: &LinkAndDecl) -> (r: Result<(), EmitError>)
        requires
            old(self).wf(),
        ensures
            final(self)@.architecture == old(self)@.architecture,
            r matches Err(e) ==> !(e is Undefined),
            final(self).wf(),
            r is Ok <==> old(self)@.link(
                (l.from.name@, *l.from.decl),
                (l.to.name@, *l.to.decl),
                l.at,
                l.reloc,
            ) is Some,
            r is Ok ==> Some(final(self)@) == old(self)@.link(
                (l.from.name@, *l.from.decl),
                (l.to.name@, *l.to.decl),
                l.at,
                l.reloc,
            ),
    {
        proof {
            reveal(ElfView::link);
        }
        let (to_idx, to_shndx) = match self.locate(l.to.name, l.to.decl) {
            Some(pair) => pair,
            None => {
                return Err(EmitError::MissingSymbol);
            },
        };
        let (_from_idx, from_shndx) = match self.locate(l.from.name, l.from.decl) {
            Some(pair) => pair,
            None => {
                return Err(EmitError::MissingSymbol);
            },
        };
        let (reloc, addend) = match select_reloc(l.reloc, l.from.decl, l.to.decl, self.ctx.big) {
            Some(pair) => pair,
            None => {
                return Err(EmitError::UnsupportedRelocation);
            },
        };
        let sym_idx = match *l.to.decl {
            Decl::Defined(_) => {
                if to_shndx < 3 {
                    return Err(EmitError::MissingSymbol);
                }
                (to_shndx - 3) + self.special_symbols.len()
            },
            Decl::Import(_) => to_idx,
        };
        let reloc = RelocationBuilder::new(reloc).sym(sym_idx).offset(l.at).addend(
            addend as i64,
        ).create();
        self.add_reloc(l.from.name, reloc, from_shndx)
    }

    /// Add a relocation to the relocations of the section with index `shndx`
    pub fn add_reloc(&mut self, relocee: &str, reloc: Relocation, shndx: usize) -> (r: Result<
        (),
        EmitError,
    >)
        requires
            old(self).wf(),
        ensures
            final(self)@.architecture == old(self)@.architecture,
            r matches Err(e) ==> !(e is Undefined),
            final(self).wf(),
            r is Ok <==> old(self)@.add_reloc(reloc, shndx) is Some,
            r is Ok ==> Some(final(self)@) == old(self)@.add_reloc(reloc, shndx),
    {
        proof {
            reveal(ElfView::add_reloc);
        }
        let ghost before = self@;
        proof {
            self.relocation_index.lemma_distinct();
        }
        match self.relocation_index.position(shndx) {
            Some(pos) => {
                proof {
                    lemma_key_position(before.relocation_keys, shndx, pos as int);
                    assert(before.relocations[pos as int].0 == self.relocations@[pos as int].0);
                }
                let section = self.relocations[pos].0;
                if section.sh_entsize > u64::MAX - section.sh_size {
                    return Err(EmitError::TooLarge);
                }
                let (_, mut relocs) = self.relocations.remove(pos);
                let ghost rels = relocs@;
                relocs.push(reloc);
                let mut grown = section;
                grown.sh_size = section.sh_size + section.sh_entsize;
                self.relocations.insert(pos, (grown, relocs));
                proof {
                    assert(self@.relocations =~= before.relocations.update(
                        pos as int,
                        (grown, rels.push(reloc)),
                    ));
                    assert(self@.code =~= before.code);
                    assert((rels.len() + 1) * sizeof_rela(self.ctx) == rels.len() * sizeof_rela(
                        self.ctx,
                    ) + sizeof_rela(self.ctx)) by (nonlinear_arith);
                }
                Ok(())
            },
            None => {
                if shndx < 3 || shndx - 3 >= self.sections.len() || shndx > 0xffff_ffff {
                    return Err(EmitError::MissingSymbol);
                }
                let name_id = self.sections[shndx - 3].name;
                let reloc_name: String = match self.strtab.resolve(name_id) {
                    Some(section_name) => ".rela".to_owned().concat(section_name),
                    None => {
                        return Err(EmitError::MissingSymbol);
                    },
                };
                let reloc_size: u64 = if self.ctx.big {
                    24
                } else {
                    12
                };
                if self.nsections == u32::MAX {
                    proof {
                        if !has_room(before.names, reloc_name@) {
                        }
                    }
                    return Err(EmitError::TooLarge);
                }
                let (_reloc_idx, reloc_section_offset) = match self.new_string(reloc_name.as_str()) {
                    Some(pair) => pair,
                    None => {
                        return Err(EmitError::TooLarge);
                    },
                };
                let mut reloc_section = SectionBuilder::new(reloc_size).name_offset(
                    reloc_section_offset,
                ).section_type(SectionType::Relocation).create(&self.ctx);
                reloc_section.sh_link = 2;
                reloc_section.sh_info = shndx as u32;
                reloc_section.sh_flags = SHF_INFO_LINK;
                let mut relocs: Vec<Relocation> = Vec::new();
                relocs.push(reloc);
                self.relocations.push((reloc_section, relocs));
                self.relocation_index.append(shndx);
                self.nsections = self.nsections + 1;
                proof {
                    self.relocation_index.lemma_distinct();
                    assert(relocs@ =~= seq![reloc]);
                    assert(self@.relocations =~= before.relocations.push((reloc_section, seq![reloc])));
                    assert(self@.code =~= before.code);
                    assert(1 * sizeof_rela(self.ctx) == sizeof_rela(self.ctx)) by (nonlinear_arith);
                }
                Ok(())
            },
        }
    }
}

/// The bytes of a slice that may be absent.
pub open spec fn slice_view(data: Option<&[u8]>) -> Option<Seq<u8>> {
    match data {
        Some(bytes) => Some(bytes@),
        None => None,
    }
}

/// The symbol as it stands in the symbol table: a section index that does
/// not fit the field gives way to the mark of an extended index.
pub open spec fn table_symbol(s: Symbol) -> Symbol {
    if s.st_shndx >= 0xff00 {
        Symbol { st_shndx: 0xffff, ..s }
    } else {
        s
    }
}

/// `offset` brought to the next multiple of `align`.
pub open spec fn aligned(offset: nat, align: nat) -> nat {
    offset + padding(offset, align)
}

/// `bytes` with zero bytes after them up to the length `len`.
pub open spec fn padded(bytes: Seq<u8>, len: nat) -> Seq<u8> {
    bytes + zeros((len - bytes.len()) as nat)
}

/// The relocations of the first `n` relocation sections, in order.
pub open spec fn relocs_first(relocations: Seq<(Section, Seq<Relocation>)>, n: nat) -> Seq<
    Relocation,
>
    decreases n,
{
    if n == 0 {
        Seq::empty()
    } else {
        relocs_first(relocations, (n - 1) as nat) + relocations[n - 1].1
    }
}

/// The headers of the first `n` relocation sections, each with the offset
/// at which its relocations stand: one section after the other from `start`.
pub open spec fn reloc_headers_first(
    relocations: Seq<(Section, Seq<Relocation>)>,
    start: nat,
    size: nat,
    n: nat,
) -> Seq<Section>
    decreases n,
{
    if n == 0 {
        Seq::empty()
    } else {
        reloc_headers_first(relocations, start, size, (n - 1) as nat).push(
            Section {
                sh_offset: (start + relocs_first(relocations, (n - 1) as nat).len() * size) as u64,
                ..relocations[n - 1].0
            },
        )
    }
}

/// How a symbol is encoded in a container.
pub open spec fn symbol_encoder(ctx: Ctx) -> spec_fn(Symbol) -> Seq<u8> {
    |s: Symbol| symbol_bytes(s, ctx)
}

/// How an extended section index is encoded in a container.
pub open spec fn index_encoder(ctx: Ctx) -> spec_fn(u32) -> Seq<u8> {
    |v: u32| u32_bytes(v, ctx.le)
}

/// How a relocation is encoded in a container.
pub open spec fn relocation_encoder(ctx: Ctx) -> spec_fn(Relocation) -> Seq<u8> {
    |r: Relocation| relocation_bytes(r, ctx)
}

/// How a section header is encoded in a container.
pub open spec fn section_encoder(ctx: Ctx) -> spec_fn(Section) -> Seq<u8> {
    |h: Section| section_bytes(h, ctx)
}

/// Where the regions of a file stand, and the counts its headers give.
pub struct Offsets {
    /// The offset of the symbol table
    pub symtab: nat,
    /// The offset of the table of extended section indices
    pub shndx: nat,
    /// The offset of the relocations
    pub reloc: nat,
    /// The offset of the section headers
    pub sh: nat,
    /// The number of sections
    pub nsections: nat,
    /// The number of symbols that come before the global ones
    pub info: nat,
}

/// An ELF file as it is written: the fields of the header that vary, and
/// the regions of the file with the offsets at which they stand.
pub struct ElfLayout {
    /// The container
    pub ctx: Ctx,
    /// The machine tag
    pub e_machine: u16,
    /// The number of sections as the header gives it
    pub e_shnum: u16,
    /// The contents of the sections, which stand after the header
    pub code: Seq<Seq<u8>>,
    /// The string table, which stands after the contents
    pub strtab: Seq<u8>,
    /// The offset of the symbol table
    pub symtab_offset: usize,
    /// The symbols
    pub symbols: Seq<Symbol>,
    /// Whether there is a table of extended section indices
    pub extended: bool,
    /// The offset of the table of extended section indices
    pub shndx_offset: usize,
    /// The section index of each symbol, where there is such a table
    pub shndx: Seq<u32>,
    /// The offset of the relocations
    pub reloc_offset: usize,
    /// The relocations
    pub relocations: Seq<Relocation>,
    /// The offset of the section headers
    pub sh_offset: usize,
    /// The section headers
    pub sections: Seq<Section>,
}

impl ElfLayout {
    /// The bytes of the file: the header, the contents of the sections, the
    /// string table, the symbol table, the table of extended section
    /// indices where there is one, the relocations and the section headers,
    /// each region at its offset after zero bytes.
    pub open spec fn image(self) -> Seq<u8> {
        let ctx = self.ctx;
        let head = header_image(
            ET_REL,
            self.e_machine,
            self.sh_offset as u64,
            self.e_shnum,
            STRTAB_LINK,
            ctx.big,
            ctx.le,
        ) + blobs_first(self.code, self.code.len()) + self.strtab;
        let with_symbols = padded(head, self.symtab_offset as nat) + flatten(
            self.symbols,
            symbol_encoder(ctx),
        );
        let with_indices = if self.extended {
            padded(with_symbols, self.shndx_offset as nat) + flatten(
                self.shndx,
                index_encoder(ctx),
            )
        } else {
            with_symbols
        };
        let with_relocations = padded(with_indices, self.reloc_offset as nat) + flatten(
            self.relocations,
            relocation_encoder(ctx),
        );
        padded(with_relocations, self.sh_offset as nat) + flatten(
            self.sections,
            section_encoder(ctx),
        )
    }
}

impl ElfView {
    /// The number of symbols of the finished file.
    pub open spec fn symbol_count(self) -> nat {
        self.special_symbols.len() + self.sections.len() + self.symbols.len()
    }

    /// Whether the file needs a table of extended section indices.
    pub open spec fn extended(self) -> bool {
        self.nsections >= SHN_LORESERVE
    }

    /// The strings of the finished string table: the names of the table of
    /// extended indices, where there is one, and of the stack note join them.
    pub open spec fn final_names(self) -> Seq<Seq<char>> {
        let with_indices = if self.extended() {
            interned_with(self.names, ".symtab_shndx"@)
        } else {
            self.names
        };
        interned_with(with_indices, ".note.GNU-stack"@)
    }

    /// The symbols of the finished file: the special symbols, the section
    /// symbols, then the symbols of definitions and imports.
    pub open spec fn final_symbols(self) -> Seq<Symbol> {
        self.special_symbols + Seq::new(
            self.sections.len(),
            |i: int| table_symbol(self.sections[i].symbol),
        ) + Seq::new(self.symbols.len(), |i: int| table_symbol(self.symbols[i]))
    }

    /// The section index of each symbol of the finished file.
    pub open spec fn final_shndx(self) -> Seq<u32> {
        Seq::new(self.special_symbols.len(), |i: int| self.special_symbols[i].st_shndx as u32)
            + Seq::new(self.sections.len(), |i: int| self.sections[i].symbol.st_shndx as u32)
            + Seq::new(self.symbols.len(), |i: int| self.symbols[i].st_shndx as u32)
    }

    /// Where the regions of the finished file stand, once the string table
    /// is complete. The regions stand in this order, each aligned to the
    /// size of a pointer (the table of extended indices to four bytes):
    /// contents, string table, symbol table, extended indices, relocations,
    /// section headers.
    pub open spec fn offsets(self) -> Offsets {
        let ctx = self.ctx;
        let extended = self.extended();
        let count = self.symbol_count();
        let symtab = aligned(
            (self.sizeof_bits + strtab_of(self.names).len()) as nat,
            ctx.spec_size() as nat,
        );
        let after_symbols = symtab + count * sizeof_sym(ctx);
        let shndx = if extended {
            aligned(after_symbols, 4)
        } else {
            after_symbols
        };
        let after_indices = if extended {
            shndx + count * 4
        } else {
            shndx
        };
        let reloc = aligned(after_indices, ctx.spec_size() as nat);
        let nrelocs = relocs_first(self.relocations, self.relocations.len()).len();
        Offsets {
            symtab,
            shndx,
            reloc,
            sh: aligned(reloc + nrelocs * sizeof_rela(ctx), ctx.spec_size() as nat),
            nsections: if extended {
                (self.nsections + 1) as nat
            } else {
                self.nsections as nat
            },
            info: (self.special_symbols.len() + self.sections.len() + self.nlocals) as nat,
        }
    }

    /// Whether every count and every offset of the finished file fits its field.
    pub open spec fn fits(self) -> bool {
        let o = self.offsets();
        strtab_of(self.names).len() <= usize::MAX && o.nsections <= u32::MAX && o.info <= u32::MAX
            && o.sh + o.nsections * sizeof_shdr(self.ctx) <= usize::MAX
    }

    /// The finished file, or nothing where the architecture does not exist
    /// in ELF or an offset or a count is beyond what its field can hold.
    pub open spec fn layout(self) -> Option<ElfLayout> {
        let named = ElfView { names: self.final_names(), ..self };
        let o = named.offsets();
        if machine_of(self.architecture) is None || !named.fits() {
            None
        } else {
            Some(
                ElfLayout {
                    ctx: self.ctx,
                    e_machine: machine_of(self.architecture).unwrap(),
                    e_shnum: if self.extended() {
                        0
                    } else {
                        o.nsections as u16
                    },
                    code: self.code,
                    strtab: strtab_of(named.names),
                    symtab_offset: o.symtab as usize,
                    symbols: self.final_symbols(),
                    extended: self.extended(),
                    shndx_offset: o.shndx as usize,
                    shndx: if self.extended() {
                        self.final_shndx()
                    } else {
                        Seq::empty()
                    },
                    reloc_offset: o.reloc as usize,
                    relocations: relocs_first(self.relocations, self.relocations.len()),
                    sh_offset: o.sh as usize,
                    sections: named.headers(
                        o.nsections as u32,
                        o.info as u32,
                        o.symtab as usize,
                        o.shndx as usize,
                        o.reloc as usize,
                    ),
                },
            )
        }
    }

    /// The section headers of the finished file, once the string table is
    /// complete: the null section, the string table, the symbol table, the
    /// sections of the definitions, the table of extended indices where
    /// there is one, the relocation sections, and the empty stack note.
    pub open spec fn headers(
        self,
        nsections: u32,
        info: u32,
        symtab_offset: usize,
        shndx_offset: usize,
        reloc_offset: usize,
    ) -> Seq<Section> {
        let ctx = self.ctx;
        let names = self.names;
        let extended = self.extended();
        let count = self.symbol_count();
        let null = Section {
            sh_size: if extended {
                nsections as u64
            } else {
                0
            },
            ..Section::null()
        };
        let strtab_header = Section {
            sh_offset: self.sizeof_bits as u64,
            ..(SectionBuilder {
                typ: SectionType::StrTab,
                executable: false,
                write: false,
                alloc: false,
                size: strtab_of(names).len() as u64,
                name_offset: strtab_offset(names, 0) as usize,
                align: None,
            }).section(ctx)
        };
        let symtab_header = Section {
            sh_offset: symtab_offset as u64,
            sh_link: 1,
            sh_info: info,
            ..(SectionBuilder {
                typ: SectionType::SymTab,
                executable: false,
                write: false,
                alloc: false,
                size: (count * sizeof_sym(ctx)) as u64,
                name_offset: strtab_offset(names, 1) as usize,
                align: None,
            }).section(ctx)
        };
        let shndx_header = Section {
            sh_link: 2,
            sh_offset: shndx_offset as u64,
            ..(SectionBuilder {
                typ: SectionType::SymTabShndx,
                executable: false,
                write: false,
                alloc: false,
                size: (count * 4) as u64,
                name_offset: strtab_offset(names, names.index_of(".symtab_shndx"@) as nat) as usize,
                align: None,
            }).section(ctx)
        };
        let note = (SectionBuilder {
            typ: SectionType::Bits,
            executable: false,
            write: false,
            alloc: false,
            size: 0,
            name_offset: strtab_offset(names, names.index_of(".note.GNU-stack"@) as nat) as usize,
            align: None,
        }).section(ctx);
        let own = Seq::new(self.sections.len(), |i: int| self.sections[i].header);
        let indices = if extended {
            seq![shndx_header]
        } else {
            Seq::empty()
        };
        seq![null, strtab_header, symtab_header] + own + indices + reloc_headers_first(
            self.relocations,
            reloc_offset as nat,
            sizeof_rela(ctx),
            self.relocations.len(),
        ) + seq![note]
    }
}

/// In a finished file the first symbol is the null symbol, the symbols
/// before the one that the symbol table's `sh_info` names are not global,
/// and the symbols from there on are global.
pub proof fn lemma_locals_first(v: ElfView, l: ElfLayout)
    requires
        v.wf(),
        v.layout() == Some(l),
    ensures
        l.symbols[0] == Symbol::null(),
        l.sections[2].sh_type == SHT_SYMTAB,
        l.sections[2].sh_info <= l.symbols.len(),
        forall|i: int| 0 <= i < l.sections[2].sh_info ==> (#[trigger] l.symbols[i]).binding() != 1,
        forall|i: int|
            l.sections[2].sh_info <= i < l.symbols.len() ==> (#[trigger] l.symbols[i]).binding() == 1,
{
    let base = v.special_symbols.len() + v.sections.len();
    assert forall|i: int| 0 <= i < l.symbols.len() implies ((#[trigger] l.symbols[i]).binding() != 1
        <==> i < base + v.nlocals) by {
        if i < 2 {
            assert(l.symbols[i] == v.special_symbols[i]);
        } else if i < base {
            assert(l.symbols[i] == table_symbol(v.sections[i - 2].symbol));
            assert(v.sections[i - 2].symbol == section_symbol((i - 2 + 3) as usize));
        } else {
            assert(l.symbols[i] == table_symbol(v.symbols[i - base]));
        }
    }
}

/// In a finished file the string table starts and ends with a zero byte,
/// and the name of every symbol is a place in the string table: so a
/// zero byte ends the text that stands there.
pub proof fn lemma_symbol_names(v: ElfView, l: ElfLayout)
    requires
        v.wf(),
        v.layout() == Some(l),
    ensures
        l.strtab.len() >= 1,
        l.strtab[0] == 0u8,
        l.strtab[l.strtab.len() - 1] == 0u8,
        forall|i: int| 0 <= i < l.symbols.len() ==> (#[trigger] l.symbols[i]).st_name < l.strtab.len(),
{
    let first = if v.extended() {
        interned_with(v.names, ".symtab_shndx"@)
    } else {
        v.names
    };
    lemma_interned_with(v.names, ".symtab_shndx"@);
    lemma_interned_with(first, ".note.GNU-stack"@);
    let names = v.final_names();
    lemma_strtab_ends(names, names.len());
    crate::table::lemma_strtab_grows(names, 0, names.len());
    assert(strtab_first(names, 0)[0] == 0u8);
    assert(l.strtab.subrange(0, 1)[0] == l.strtab[0]);
    assert forall|i: int| 0 <= i < l.symbols.len() implies (#[trigger] l.symbols[i]).st_name
        < l.strtab.len() by {
        let base = v.special_symbols.len() + v.sections.len();
        if i < 2 {
            assert(l.symbols[i] == v.special_symbols[i]);
        } else if i < base {
            assert(l.symbols[i] == table_symbol(v.sections[i - 2].symbol));
        } else {
            assert(l.symbols[i] == table_symbol(v.symbols[i - base]));
        }
    }
}

/// A string table ends with a zero byte.
pub proof fn lemma_strtab_ends(names: Seq<Seq<char>>, n: nat)
    ensures
        strtab_first(names, n).len() >= 1,
        strtab_first(names, n)[strtab_first(names, n).len() - 1] == 0u8,
    decreases n,
{
    if n > 0 {
        lemma_strtab_ends(names, (n - 1) as nat);
    }
}

/// A finished file with 0xff00 sections or more gives the number of
/// sections as zero in its header and as the size in its first section
/// header, and has a table of extended section indices.
pub proof fn lemma_extended_sections(v: ElfView, l: ElfLayout)
    requires
        v.wf(),
        v.layout() == Some(l),
        v.nsections >= 0xff00,
    ensures
        l.e_shnum == 0,
        l.sections[0].sh_size == l.sections.len(),
        l.sections[3 + v.sections.len() as int].sh_type == SHT_SYMTAB_SHNDX,
        l.shndx.len() == l.symbols.len(),
{
    lemma_reloc_headers_len(
        v.relocations,
        l.reloc_offset as nat,
        sizeof_rela(v.ctx),
        v.relocations.len(),
    );
}

/// A finished file with fewer than 0xff00 sections gives their number in
/// its header, and its last section is the empty stack note.
pub proof fn lemma_section_count(v: ElfView, l: ElfLayout)
    requires
        v.wf(),
        v.layout() == Some(l),
        v.nsections < 0xff00,
    ensures
        l.e_shnum == l.sections.len(),
        l.sections.last().sh_size == 0,
        l.sections.last().sh_type == SHT_PROGBITS,
{
    lemma_reloc_headers_len(
        v.relocations,
        l.reloc_offset as nat,
        sizeof_rela(v.ctx),
        v.relocations.len(),
    );
}

/// There is one header for each relocation section.
pub proof fn lemma_reloc_headers_len(
    relocations: Seq<(Section, Seq<Relocation>)>,
    start: nat,
    size: nat,
    n: nat,
)
    ensures
        reloc_headers_first(relocations, start, size, n).len() == n,
    decreases n,
{
    if n > 0 {
        lemma_reloc_headers_len(relocations, start, size, (n - 1) as nat);
    }
}

/// Append the encoded symbols to `out`
fn write_symbols(out: &mut Vec<u8>, symbols: &Vec<Symbol>, ctx: Ctx)
    ensures
        final(out)@ == old(out)@ + flatten(symbols@, symbol_encoder(ctx)),
        final(out)@.len() == old(out)@.len() + symbols@.len() * sizeof_sym(ctx),
{
    let mut i: usize = 0;
    assert(0 * sizeof_sym(ctx) == 0) by (nonlinear_arith);
    assert(out@ =~= old(out)@ + flatten_first(symbols@, symbol_encoder(ctx), 0));
    while i < symbols.len()
        invariant
            i <= symbols@.len(),
            out@.len() == old(out)@.len() + i * sizeof_sym(ctx),
            out@ == old(out)@ + flatten_first(symbols@, symbol_encoder(ctx), i as nat),
        decreases symbols@.len() - i,
    {
        let bytes = encode_symbol(&symbols[i], ctx);
        append_bytes(out, bytes.as_slice());
        assert((i + 1) * sizeof_sym(ctx) == i * sizeof_sym(ctx) + sizeof_sym(ctx)) by (nonlinear_arith);
        i += 1;
        assert(out@ =~= old(out)@ + flatten_first(symbols@, symbol_encoder(ctx), i as nat));
    }
}

/// Append the encoded section indices to `out`
fn write_indices(out: &mut Vec<u8>, indices: &Vec<u32>, ctx: Ctx)
    ensures
        final(out)@ == old(out)@ + flatten(indices@, index_encoder(ctx)),
        final(out)@.len() == old(out)@.len() + indices@.len() * 4,
{
    let mut i: usize = 0;
    assert(0 * 4 == 0) by (nonlinear_arith);
    assert(out@ =~= old(out)@ + flatten_first(indices@, index_encoder(ctx), 0));
    while i < indices.len()
        invariant
            i <= indices@.len(),
            out@.len() == old(out)@.len() + i * 4,
            out@ == old(out)@ + flatten_first(indices@, index_encoder(ctx), i as nat),
        decreases indices@.len() - i,
    {
        let bytes = encode_u32(indices[i], ctx.le);
        append_bytes(out, bytes.as_slice());
        assert((i + 1) * 4 == i * 4 + 4) by (nonlinear_arith);
        i += 1;
        assert(out@ =~= old(out)@ + flatten_first(indices@, index_encoder(ctx), i as nat));
    }
}

/// Append the encoded relocations to `out`
fn write_relocations(out: &mut Vec<u8>, relocations: &Vec<Relocation>, ctx: Ctx)
    ensures
        final(out)@ == old(out)@ + flatten(relocations@, relocation_encoder(ctx)),
        final(out)@.len() == old(out)@.len() + relocations@.len() * sizeof_rela(ctx),
{
    let mut i: usize = 0;
    assert(0 * sizeof_rela(ctx) == 0) by (nonlinear_arith);
    assert(out@ =~= old(out)@ + flatten_first(relocations@, relocation_encoder(ctx), 0));
    while i < relocations.len()
        invariant
            i <= relocations@.len(),
            out@.len() == old(out)@.len() + i * sizeof_rela(ctx),
            out@ == old(out)@ + flatten_first(relocations@, relocation_encoder(ctx), i as nat),
        decreases relocations@.len() - i,
    {
        let relocation = relocations[i];
        let addend = match relocation.r_addend {
            Some(a) => a,
            None => 0,
        };
        let bytes = encode_relocation(
            relocation.r_offset,
            addend,
            relocation.r_sym,
            relocation.r_type,
            ctx,
        );
        append_bytes(out, bytes.as_slice());
        assert((i + 1) * sizeof_rela(ctx) == i * sizeof_rela(ctx) + sizeof_rela(ctx)) by (nonlinear_arith);
        i += 1;
        assert(out@ =~= old(out)@ + flatten_first(relocations@, relocation_encoder(ctx), i as nat));
    }
}

/// Append the encoded section headers to `out`
fn write_sections(out: &mut Vec<u8>, sections: &Vec<Section>, ctx: Ctx)
    ensures
        final(out)@ == old(out)@ + flatten(sections@, section_encoder(ctx)),
{
    let mut i: usize = 0;
    assert(out@ =~= old(out)@ + flatten_first(sections@, section_encoder(ctx), 0));
    while i < sections.len()
        invariant
            i <= sections@.len(),
            out@ == old(out)@ + flatten_first(sections@, section_encoder(ctx), i as nat),
        decreases sections@.len() - i,
    {
        let bytes = encode_section(&sections[i], ctx);
        append_bytes(out, bytes.as_slice());
        i += 1;
        assert(out@ =~= old(out)@ + flatten_first(sections@, section_encoder(ctx), i as nat));
    }
}

/// `offset` brought to the next multiple of `align`
fn align_up(offset: u128, align: u128) -> (r: u128)
    requires
        align > 0,
        offset + align <= u128::MAX,
    ensures
        r == aligned(offset as nat, align as nat),
        offset <= r < offset + align,
{
    let rem = offset % align;
    if rem == 0 {
        offset
    } else {
        offset + (align - rem)
    }
}

/// String tables only grow: a table with one more name is no shorter, and
/// the names it had keep their offsets.
pub proof fn lemma_interned_with(names: Seq<Seq<char>>, name: Seq<char>)
    requires
        distinct_names(names),
    ensures
        distinct_names(interned_with(names, name)),
        interned_with(names, name).contains(name),
        strtab_of(names).len() <= strtab_of(interned_with(names, name)).len(),
        forall|i: nat|
            i <= names.len() ==> #[trigger] strtab_offset(interned_with(names, name), i)
                == strtab_offset(names, i),
        forall|other: Seq<char>|
            names.contains(other) ==> #[trigger] interned_with(names, name).index_of(other)
                == names.index_of(other),
{
    let grown = interned_with(names, name);
    if names.contains(name) {
    } else {
        assert(grown[names.len() as int] == name);
        crate::table::lemma_strtab_same(names, grown, names.len());
        crate::table::lemma_strtab_grows(grown, names.len(), grown.len());
    }
    assert forall|i: nat| i <= names.len() implies #[trigger] strtab_offset(grown, i)
        == strtab_offset(names, i) by {
        crate::table::lemma_strtab_same(names, grown, i);
    }
    assert forall|other: Seq<char>| names.contains(other) implies #[trigger] grown.index_of(other)
        == names.index_of(other) by {
        let i = names.index_of(other);
        assert(grown[i] == other);
        lemma_position(grown, other, i);
    }
}

impl<'a> Elf<'a> {
    /// The symbols of the finished file and the section index of each
    fn symbol_table(&self) -> (r: (Vec<Symbol>, Vec<u32>))
        requires
            self.wf(),
        ensures
            r.0@ == self@.final_symbols(),
            r.1@ == self@.final_shndx(),
    {
        let mut symbols: Vec<Symbol> = Vec::new();
        let mut indices: Vec<u32> = Vec::new();
        let mut i: usize = 0;
        while i < self.special_symbols.len()
            invariant
                i <= self.special_symbols@.len(),
                symbols@ == self.special_symbols@.subrange(0, i as int),
                indices@ == Seq::new(i as nat, |k: int| self.special_symbols@[k].st_shndx as u32),
            decreases self.special_symbols@.len() - i,
        {
            let symbol = self.special_symbols[i];
            symbols.push(symbol);
            indices.push(#[verifier::truncate] (symbol.st_shndx as u32));
            i += 1;
            assert(symbols@ =~= self.special_symbols@.subrange(0, i as int));
            assert(indices@ =~= Seq::new(i as nat, |k: int| self.special_symbols@[k].st_shndx as u32));
        }
        assert(symbols@ =~= self.special_symbols@);
        let ghost special_indices = indices@;
        let mut j: usize = 0;
        while j < self.sections.len()
            invariant
                j <= self.sections@.len(),
                symbols@ == self.special_symbols@ + Seq::new(
                    j as nat,
                    |k: int| table_symbol(self.sections@[k].symbol),
                ),
                indices@ == special_indices + Seq::new(
                    j as nat,
                    |k: int| self.sections@[k].symbol.st_shndx as u32,
                ),
            decreases self.sections@.len() - j,
        {
            let mut symbol = self.sections[j].symbol;
            indices.push(#[verifier::truncate] (symbol.st_shndx as u32));
            if symbol.st_shndx >= 0xff00 {
                symbol.st_shndx = 0xffff;
            }
            symbols.push(symbol);
            j += 1;
            assert(symbols@ =~= self.special_symbols@ + Seq::new(
                j as nat,
                |k: int| table_symbol(self.sections@[k].symbol),
            ));
            assert(indices@ =~= special_indices + Seq::new(
                j as nat,
                |k: int| self.sections@[k].symbol.st_shndx as u32,
            ));
        }
        let ghost section_symbols = symbols@;
        let ghost section_indices = indices@;
        let mut n: usize = 0;
        while n < self.symbols.len()
            invariant
                n <= self.symbols@.len(),
                symbols@ == section_symbols + Seq::new(
                    n as nat,
                    |k: int| table_symbol(self.symbols@[k]),
                ),
                indices@ == section_indices + Seq::new(
                    n as nat,
                    |k: int| self.symbols@[k].st_shndx as u32,
                ),
            decreases self.symbols@.len() - n,
        {
            let mut symbol = self.symbols[n];
            indices.push(#[verifier::truncate] (symbol.st_shndx as u32));
            if symbol.st_shndx >= 0xff00 {
                symbol.st_shndx = 0xffff;
            }
            symbols.push(symbol);
            n += 1;
            assert(symbols@ =~= section_symbols + Seq::new(
                n as nat,
                |k: int| table_symbol(self.symbols@[k]),
            ));
            assert(indices@ =~= section_indices + Seq::new(
                n as nat,
                |k: int| self.symbols@[k].st_shndx as u32,
            ));
        }
        (symbols, indices)
    }

    /// The relocations of the finished file, section after section
    fn relocation_table(&self) -> (r: Vec<Relocation>)
        requires
            self.wf(),
        ensures
            r@ == relocs_first(self@.relocations, self@.relocations.len()),
    {
        let mut flat: Vec<Relocation> = Vec::new();
        let mut i: usize = 0;
        while i < self.relocations.len()
            invariant
                i <= self.relocations@.len(),
                self@.relocations.len() == self.relocations@.len(),
                flat@ == relocs_first(self@.relocations, i as nat),
            decreases self.relocations@.len() - i,
        {
            let ghost before = flat@;
            let mut j: usize = 0;
            while j < self.relocations[i].1.len()
                invariant
                    i < self.relocations@.len(),
                    j <= self.relocations@[i as int].1@.len(),
                    flat@ == before + self.relocations@[i as int].1@.subrange(0, j as int),
                decreases self.relocations@[i as int].1@.len() - j,
            {
                flat.push(self.relocations[i].1[j]);
                j += 1;
                assert(flat@ =~= before + self.relocations@[i as int].1@.subrange(0, j as int));
            }
            assert(self.relocations@[i as int].1@.subrange(0, j as int)
                =~= self.relocations@[i as int].1@);
            assert(self@.relocations[i as int].1 == self.relocations@[i as int].1@);
            i += 1;
        }
        flat
    }

    /// The headers of the relocation sections, each with the offset of its
    /// relocations, which stand one section after the other from `start`
    fn relocation_headers(&self, start: usize) -> (r: Vec<Section>)
        requires
            self.wf(),
        ensures
            r@ == reloc_headers_first(
                self@.relocations,
                start as nat,
                sizeof_rela(self.ctx),
                self@.relocations.len(),
            ),
    {
        let size: u128 = if self.ctx.big {
            24
        } else {
            12
        };
        let mut headers: Vec<Section> = Vec::new();
        let mut count: u128 = 0;
        let mut i: usize = 0;
        assert(self@.relocations.len() <= 0xffff_ffff);
        while i < self.relocations.len()
            invariant
                i <= self.relocations@.len(),
                self.relocations@.len() <= 0xffff_ffff,
                size <= 24,
                self@.relocations.len() == self.relocations@.len(),
                size == sizeof_rela(self.ctx),
                count == relocs_first(self@.relocations, i as nat).len(),
                count <= i * 0x1_0000_0000_0000_0000,
                headers@ == reloc_headers_first(
                    self@.relocations,
                    start as nat,
                    sizeof_rela(self.ctx),
                    i as nat,
                ),
            decreases self.relocations@.len() - i,
        {
            let mut header = self.relocations[i].0;
            assert(self@.relocations[i as int].0 == self.relocations@[i as int].0);
            assert(self@.relocations[i as int].1 == self.relocations@[i as int].1@);
            assert(count * size <= 0xffff_ffff * 0x1_0000_0000_0000_0000 * 24) by (nonlinear_arith)
                requires
                    count <= i * 0x1_0000_0000_0000_0000,
                    i <= 0xffff_ffff,
                    size <= 24,
            ;
            let offset: u128 = start as u128 + count * size;
            header.sh_offset = #[verifier::truncate] (offset as u64);
            headers.push(header);
            count = count + self.relocations[i].1.len() as u128;
            i += 1;
        }
        headers
    }

    /// The section headers of the finished file, once the string table is
    /// complete
    fn section_headers(
        &self,
        nsections: u32,
        info: u32,
        symtab_offset: usize,
        shndx_offset: usize,
        reloc_offset: usize,
    ) -> (r: Vec<Section>)
        requires
            self.wf(),
            self@.names.contains(".note.GNU-stack"@),
            self@.extended() ==> self@.names.contains(".symtab_shndx"@),
        ensures
            r@ == self@.headers(nsections, info, symtab_offset, shndx_offset, reloc_offset),
    {
        let ctx = self.ctx;
        let extended = self.nsections >= SHN_LORESERVE;
        let sym_size: u128 = if ctx.big {
            24
        } else {
            16
        };
        let count: u128 = self.special_symbols.len() as u128 + self.sections.len() as u128
            + self.symbols.len() as u128;
        proof {
            self.strtab.lemma_distinct();
            assert(count * sym_size == self@.symbol_count() * sizeof_sym(ctx)) by (nonlinear_arith)
                requires
                    count == self@.symbol_count(),
                    sym_size == sizeof_sym(ctx),
            ;
            assert(count * sym_size <= 0x4_0000_0000_0000_0000 * 24) by (nonlinear_arith)
                requires
                    count <= 0x4_0000_0000_0000_0000,
                    sym_size <= 24,
            ;
        }
        let mut section_headers: Vec<Section> = Vec::new();
        let mut null = Section::zeroed();
        if extended {
            null.sh_size = nsections as u64;
        }
        section_headers.push(null);
        let mut strtab_header = SectionBuilder::new(self.strtab.size() as u64).name_offset(
            self.strtab.offset(0),
        ).section_type(SectionType::StrTab).create(&ctx);
        strtab_header.sh_offset = self.sizeof_bits as u64;
        section_headers.push(strtab_header);
        let mut symtab_header = SectionBuilder::new(
            #[verifier::truncate]
            ((count * sym_size) as u64),
        ).name_offset(self.strtab.offset(1)).section_type(SectionType::SymTab).create(&ctx);
        symtab_header.sh_offset = symtab_offset as u64;
        symtab_header.sh_link = 1;
        symtab_header.sh_info = info;
        section_headers.push(symtab_header);
        let ghost fixed = section_headers@;
        let mut i: usize = 0;
        assert(section_headers@ =~= fixed + Seq::new(0, |k: int| self.sections@[k].header));
        while i < self.sections.len()
            invariant
                i <= self.sections@.len(),
                section_headers@ == fixed + Seq::new(i as nat, |k: int| self.sections@[k].header),
            decreases self.sections@.len() - i,
        {
            section_headers.push(self.sections[i].header);
            i += 1;
            assert(section_headers@ =~= fixed + Seq::new(
                i as nat,
                |k: int| self.sections@[k].header,
            ));
        }
        if extended {
            let name_offset = match self.strtab.lookup(".symtab_shndx") {
                Some(id) => {
                    proof {
                        lemma_position(self@.names, ".symtab_shndx"@, id as int);
                    }
                    self.strtab.offset(id)
                },
                None => 0,
            };
            let mut section = SectionBuilder::new(#[verifier::truncate] ((count * 4) as u64)).name_offset(
                name_offset,
            ).section_type(SectionType::SymTabShndx).create(&ctx);
            section.sh_link = 2;
            section.sh_offset = shndx_offset as u64;
            section_headers.push(section);
        }
        let mut reloc_headers = self.relocation_headers(reloc_offset);
        section_headers.append(&mut reloc_headers);
        let note_offset = match self.strtab.lookup(".note.GNU-stack") {
            Some(id) => {
                proof {
                    lemma_position(self@.names, ".note.GNU-stack"@, id as int);
                }
                self.strtab.offset(id)
            },
            None => 0,
        };
        let nonexec_stack = SectionBuilder::new(0).name_offset(note_offset).section_type(
            SectionType::Bits,
        ).create(&ctx);
        section_headers.push(nonexec_stack);
        assert(section_headers@ =~= self@.headers(
            nsections,
            info,
            symtab_offset,
            shndx_offset,
            reloc_offset,
        ));
        section_headers
    }

    /// Add the names of the sections that every file has to the string table
    fn finish_names(&mut self) -> (r: bool)
        requires
            old(self).wf(),
        ensures
            final(self).wf(),
            r <==> strtab_of(old(self)@.final_names()).len() <= usize::MAX,
            r ==> final(self)@ == (ElfView { names: old(self)@.final_names(), ..old(self)@ }),
            r ==> final(self)@.names.contains(".note.GNU-stack"@),
            r && old(self)@.extended() ==> final(self)@.names.contains(".symtab_shndx"@),
    {
        let ghost v = self@;
        let extended = self.nsections >= SHN_LORESERVE;
        proof {
            lemma_interned_with(v.names, ".symtab_shndx"@);
            let with_indices = if extended {
                interned_with(v.names, ".symtab_shndx"@)
            } else {
                v.names
            };
            lemma_interned_with(with_indices, ".note.GNU-stack"@);
        }
        if extended {
            if self.new_string(".symtab_shndx").is_none() {
                return false;
            }
        }
        let ghost mid = self@;
        let r = self.new_string(".note.GNU-stack").is_some();
        proof {
            if r && extended {
                let i = mid.names.index_of(".symtab_shndx"@);
                assert(mid.names.contains(".symtab_shndx"@));
                assert(self@.names[i] == ".symtab_shndx"@);
            }
        }
        r
    }

    /// Where the regions of the finished file stand, once the string table
    /// is complete, with the number of sections and the number of symbols
    /// that come before the global ones; nothing where one does not fit its field
    fn place(&self, nrelocs: usize) -> (r: Option<(usize, usize, usize, usize, u32, u32)>)
        requires
            self.wf(),
            nrelocs == relocs_first(self@.relocations, self@.relocations.len()).len(),
        ensures
            r is Some <==> self@.fits(),
            r matches Some(p) ==> p.0 == self@.offsets().symtab && p.1 == self@.offsets().shndx && p.2
                == self@.offsets().reloc && p.3 == self@.offsets().sh && p.4
                == self@.offsets().nsections && p.5 == self@.offsets().info,
            r is Some ==> sizeof_ehdr(self.ctx) + blobs_len(self@.code, self@.code.len()) + strtab_of(
                self@.names,
            ).len() <= self@.offsets().symtab,
            r is Some && self@.extended() ==> self@.offsets().symtab + self@.symbol_count()
                * sizeof_sym(self.ctx) <= self@.offsets().shndx && self@.offsets().shndx
                + self@.symbol_count() * 4 <= self@.offsets().reloc,
            r is Some && !self@.extended() ==> self@.offsets().symtab + self@.symbol_count()
                * sizeof_sym(self.ctx) <= self@.offsets().reloc,
            r is Some ==> self@.offsets().reloc + nrelocs * sizeof_rela(self.ctx)
                <= self@.offsets().sh,
    {
        let ctx = self.ctx;
        let extended = self.nsections >= SHN_LORESERVE;
        let pointer: u128 = if ctx.big {
            8
        } else {
            4
        };
        let sym_size: u128 = if ctx.big {
            24
        } else {
            16
        };
        let rela_size: u128 = if ctx.big {
            24
        } else {
            12
        };
        let shdr_size: u128 = if ctx.big {
            64
        } else {
            40
        };
        let count: u128 = self.special_symbols.len() as u128 + self.sections.len() as u128
            + self.symbols.len() as u128;
        let nsections: u128 = if extended {
            self.nsections as u128 + 1
        } else {
            self.nsections as u128
        };
        let relocs: u128 = nrelocs as u128;
        proof {
            self.strtab.lemma_distinct();
            assert(count * sym_size == self@.symbol_count() * sizeof_sym(ctx)) by (nonlinear_arith)
                requires
                    count == self@.symbol_count(),
                    sym_size == sizeof_sym(ctx),
            ;
            assert(relocs * rela_size == nrelocs * sizeof_rela(ctx)) by (nonlinear_arith)
                requires
                    relocs == nrelocs,
                    rela_size == sizeof_rela(ctx),
            ;
            assert(nsections * shdr_size == nsections * sizeof_shdr(ctx)) by (nonlinear_arith)
                requires
                    shdr_size == sizeof_shdr(ctx),
            ;
            assert(count * sym_size <= 0x4_0000_0000_0000_0000 * 24) by (nonlinear_arith)
                requires
                    count <= 0x4_0000_0000_0000_0000,
                    sym_size <= 24,
            ;
            assert(relocs * rela_size <= 0x1_0000_0000_0000_0000 * 24) by (nonlinear_arith)
                requires
                    relocs <= 0x1_0000_0000_0000_0000,
                    rela_size <= 24,
            ;
            assert(nsections * shdr_size <= 0x1_0000_0000 * 64) by (nonlinear_arith)
                requires
                    nsections <= 0x1_0000_0000,
                    shdr_size <= 64,
            ;
        }
        let symtab_offset = align_up(self.sizeof_bits as u128 + self.strtab.size() as u128, pointer);
        let after_symbols = symtab_offset + count * sym_size;
        let shndx_offset = if extended {
            align_up(after_symbols, 4)
        } else {
            after_symbols
        };
        let after_indices = if extended {
            shndx_offset + count * 4
        } else {
            shndx_offset
        };
        let reloc_offset = align_up(after_indices, pointer);
        let sh_offset = align_up(reloc_offset + relocs * rela_size, pointer);
        let info: u128 = self.special_symbols.len() as u128 + self.sections.len() as u128
            + self.nlocals as u128;
        if nsections > 0xffff_ffff || info > 0xffff_ffff || sh_offset + nsections * shdr_size
            > usize::MAX as u128 {
            return None;
        }
        Some(
            (
                symtab_offset as usize,
                shndx_offset as usize,
                reloc_offset as usize,
                sh_offset as usize,
                nsections as u32,
                info as u32,
            ),
        )
    }

    /// Finish the file and give its bytes
    #[verifier::rlimit(50)]
    pub fn write(self) -> (r: Result<Vec<u8>, EmitError>)
        requires
            self.wf(),
        ensures
            machine_of(self@.architecture) is None ==> r == Err::<Vec<u8>, EmitError>(
                EmitError::UnsupportedArchitecture(self@.architecture),
            ),
            r matches Err(e) ==> !(e is Undefined),
            r is Ok <==> self@.layout() is Some,
            r matches Ok(bytes) ==> bytes@ == self@.layout().unwrap().image(),
    {
        let mut elf = self;
        let ghost v = elf@;
        let ctx = elf.ctx;
        let machine = match MachineTag::from(elf.architecture) {
            Some(tag) => tag.0,
            None => {
                return Err(EmitError::UnsupportedArchitecture(elf.architecture));
            },
        };
        let extended = elf.nsections >= SHN_LORESERVE;
        if !elf.finish_names() {
            return Err(EmitError::TooLarge);
        }
        let ghost named = elf@;
        let strtab = elf.strtab.bytes();
        let (symbols, indices) = elf.symbol_table();
        let relocations = elf.relocation_table();
        let (symtab_offset, shndx_offset, reloc_offset, sh_offset, nsections, info) =
            match elf.place(relocations.len()) {
            Some(p) => p,
            None => {
                return Err(EmitError::TooLarge);
            },
        };
        let section_headers = elf.section_headers(
            nsections,
            info,
            symtab_offset,
            shndx_offset,
            reloc_offset,
        );
        let e_shnum: u16 = if extended {
            0
        } else {
            nsections as u16
        };
        let out = emit_image(
            ctx,
            machine,
            e_shnum,
            &elf.code,
            &strtab,
            symtab_offset,
            &symbols,
            extended,
            shndx_offset,
            &indices,
            reloc_offset,
            &relocations,
            sh_offset,
            &section_headers,
        );
        proof {
            assert(named.code == v.code);
            assert(Seq::new(elf.code@.len(), |i: int| elf.code@[i]@) == v.code);
            assert(symbols@.len() == v.symbol_count());
            assert(indices@.len() == v.symbol_count());
        }
        Ok(out)
    }
}

/// The bytes of a file with the given regions at the given offsets
fn emit_image(
    ctx: Ctx,
    machine: u16,
    e_shnum: u16,
    code: &Vec<&[u8]>,
    strtab: &Vec<u8>,
    symtab_offset: usize,
    symbols: &Vec<Symbol>,
    extended: bool,
    shndx_offset: usize,
    indices: &Vec<u32>,
    reloc_offset: usize,
    relocations: &Vec<Relocation>,
    sh_offset: usize,
    sections: &Vec<Section>,
) -> (r: Vec<u8>)
    requires
        sizeof_ehdr(ctx) + blobs_len(Seq::new(code@.len(), |i: int| code@[i]@), code@.len())
            + strtab@.len() <= symtab_offset,
        extended ==> symtab_offset + symbols@.len() * sizeof_sym(ctx) <= shndx_offset
            && shndx_offset + indices@.len() * 4 <= reloc_offset,
        !extended ==> symtab_offset + symbols@.len() * sizeof_sym(ctx) <= reloc_offset,
        reloc_offset + relocations@.len() * sizeof_rela(ctx) <= sh_offset,
    ensures
        r@ == (ElfLayout {
            ctx,
            e_machine: machine,
            e_shnum,
            code: Seq::new(code@.len(), |i: int| code@[i]@),
            strtab: strtab@,
            symtab_offset,
            symbols: symbols@,
            extended,
            shndx_offset,
            shndx: if extended {
                indices@
            } else {
                Seq::empty()
            },
            reloc_offset,
            relocations: relocations@,
            sh_offset,
            sections: sections@,
        }).image(),
{
    let ghost blobs = Seq::new(code@.len(), |i: int| code@[i]@);
    let mut out = encode_header(ET_REL, machine, sh_offset as u64, e_shnum, STRTAB_LINK, ctx);
    let ghost header = out@;
    let mut c: usize = 0;
    assert(out@ =~= header + blobs_first(blobs, 0));
    while c < code.len()
        invariant
            c <= code@.len(),
            blobs == Seq::new(code@.len(), |i: int| code@[i]@),
            out@ == header + blobs_first(blobs, c as nat),
        decreases code@.len() - c,
    {
        assert(blobs[c as int] == code@[c as int]@);
        append_bytes(&mut out, code[c]);
        c += 1;
        assert(out@ =~= header + blobs_first(blobs, c as nat));
    }
    proof {
        lemma_blobs_same(blobs, blobs, blobs.len());
    }
    append_bytes(&mut out, strtab.as_slice());
    pad_to(&mut out, symtab_offset);
    write_symbols(&mut out, symbols, ctx);
    if extended {
        pad_to(&mut out, shndx_offset);
        write_indices(&mut out, indices, ctx);
    }
    pad_to(&mut out, reloc_offset);
    write_relocations(&mut out, relocations, ctx);
    pad_to(&mut out, sh_offset);
    write_sections(&mut out, sections, ctx);
    out
}

/// The file after the first `n` definitions of an artifact were added.
pub open spec fn with_definitions(start: Option<ElfView>, a: ArtifactView, n: nat) -> Option<
    ElfView,
>
    decreases n,
{
    if n == 0 {
        start
    } else {
        match with_definitions(start, a, (n - 1) as nat) {
            None => None,
            Some(e) => {
                let d = a.definitions()[n - 1];
                e.add_definition(a.names[d.name as int], d.decl, d.data, d.symbols.len() > 0)
            },
        }
    }
}

/// The file after the first `n` imports of an artifact were added.
pub open spec fn with_imports(start: Option<ElfView>, a: ArtifactView, n: nat) -> Option<ElfView>
    decreases n,
{
    if n == 0 {
        start
    } else {
        match with_imports(start, a, (n - 1) as nat) {
            None => None,
            Some(e) => e.import(a.names[a.imports[n - 1].0 as int]),
        }
    }
}

/// The file after the first `n` links of an artifact were added.
pub open spec fn with_links(start: Option<ElfView>, a: ArtifactView, n: nat) -> Option<ElfView>
    decreases n,
{
    if n == 0 {
        start
    } else {
        match with_links(start, a, (n - 1) as nat) {
            None => None,
            Some(e) => {
                let l = a.links[n - 1];
                e.link(
                    (a.names[l.from as int], a.decl_at(l.from)),
                    (a.names[l.to as int], a.decl_at(l.to)),
                    l.at,
                    l.reloc,
                )
            },
        }
    }
}

/// The ELF file under construction that holds all of an artifact: its
/// definitions, those that are not global first, then its imports, then
/// its links.
pub open spec fn elf_of(a: ArtifactView) -> Option<ElfView> {
    let start = ElfView::initial(a.name, ctx_of(a.target), a.target.architecture);
    let defined = with_definitions(start, a, a.definitions().len());
    let imported = with_imports(defined, a, a.imports.len());
    with_links(imported, a, a.links.len())
}

/// The bytes of the ELF file of an artifact, or nothing where it has none.
pub open spec fn elf_image(a: ArtifactView) -> Option<Seq<u8>> {
    match elf_of(a) {
        None => None,
        Some(e) => match e.layout() {
            None => None,
            Some(l) => Some(l.image()),
        },
    }
}

/// Once a definition has no place in the file, the file has no place for
/// the definitions after it.
pub proof fn lemma_definitions_stuck(start: Option<ElfView>, a: ArtifactView, i: nat, n: nat)
    requires
        i <= n,
        with_definitions(start, a, i) is None,
    ensures
        with_definitions(start, a, n) is None,
    decreases n,
{
    if i < n {
        lemma_definitions_stuck(start, a, i, (n - 1) as nat);
    }
}

/// Once an import has no place in the file, the file has no place for the
/// imports after it.
pub proof fn lemma_imports_stuck(start: Option<ElfView>, a: ArtifactView, i: nat, n: nat)
    requires
        i <= n,
        with_imports(start, a, i) is None,
    ensures
        with_imports(start, a, n) is None,
    decreases n,
{
    if i < n {
        lemma_imports_stuck(start, a, i, (n - 1) as nat);
    }
}

/// Once a link has no place in the file, the file has no place for the
/// links after it.
pub proof fn lemma_links_stuck(start: Option<ElfView>, a: ArtifactView, i: nat, n: nat)
    requires
        i <= n,
        with_links(start, a, i) is None,
    ensures
        with_links(start, a, n) is None,
    decreases n,
{
    if i < n {
        lemma_links_stuck(start, a, i, (n - 1) as nat);
    }
}

/// The bytes of the ELF object file of an artifact. A file that is emitted
/// is the image of a well-formed file under construction, of which the
/// laws on the order of the symbols, on their names and on extended
/// section indices speak.
pub fn to_bytes(artifact: &Artifact) -> (r: Result<Vec<u8>, EmitError>)
    requires
        artifact.wf(),
    ensures
        r is Ok ==> elf_of(artifact@) is Some && elf_of(artifact@).unwrap().wf(),
        elf_of(artifact@) is Some && machine_of(artifact@.target.architecture) is None ==> r
            == Err::<Vec<u8>, EmitError>(
            EmitError::UnsupportedArchitecture(artifact@.target.architecture),
        ),
        r matches Err(e) ==> !(e is Undefined),
        r is Ok <==> elf_image(artifact@) is Some,
        r matches Ok(bytes) ==> Some(bytes@) == elf_image(artifact@),
{
    let ghost a = artifact@;
    let ghost start = ElfView::initial(a.name, ctx_of(a.target), a.target.architecture);
    let mut elf = match Elf::new(artifact.name(), artifact.target()) {
        Ok(elf) => elf,
        Err(e) => {
            proof {
                lemma_definitions_stuck(start, a, 0, a.definitions().len());
                lemma_imports_stuck(
                    with_definitions(start, a, a.definitions().len()),
                    a,
                    0,
                    a.imports.len(),
                );
                lemma_links_stuck(
                    with_imports(
                        with_definitions(start, a, a.definitions().len()),
                        a,
                        a.imports.len(),
                    ),
                    a,
                    0,
                    a.links.len(),
                );
            }
            return Err(e);
        },
    };
    let definitions = artifact.definitions();
    let mut i: usize = 0;
    while i < definitions.len()
        invariant
            i <= definitions@.len(),
            a == artifact@,
            definitions@.len() == a.definitions().len(),
            forall|k: int|
                0 <= k < definitions@.len() ==> (#[trigger] definitions@[k]).name@
                    == a.names[a.definitions()[k].name as int] && *definitions@[k].decl
                    == a.definitions()[k].decl && definitions@[k].data@ == a.definitions()[k].data
                    && symbol_texts(definitions@[k].symbols@) == a.definitions()[k].symbols,
            elf.wf(),
            elf@.architecture == a.target.architecture,
            start == ElfView::initial(a.name, ctx_of(a.target), a.target.architecture),
            Some(elf@) == with_definitions(start, a, i as nat),
        decreases definitions@.len() - i,
    {
        let def = &definitions[i];
        let copy = Definition { name: def.name, data: def.data, symbols: def.symbols, decl: def.decl };
        assert(symbol_texts(copy.symbols@).len() == copy.symbols@.len());
        match elf.add_definition(copy) {
            Ok(()) => {},
            Err(e) => {
                proof {
                    let defined = with_definitions(start, a, a.definitions().len());
                    assert(with_definitions(start, a, (i + 1) as nat) is None);
                    lemma_definitions_stuck(start, a, (i + 1) as nat, a.definitions().len());
                    lemma_imports_stuck(defined, a, 0, a.imports.len());
                    lemma_links_stuck(
                        with_imports(defined, a, a.imports.len()),
                        a,
                        0,
                        a.links.len(),
                    );
                }
                return Err(e);
            },
        }
        i += 1;
    }
    let ghost defined = with_definitions(start, a, a.definitions().len());
    let imports = artifact.imports();
    let mut j: usize = 0;
    while j < imports.len()
        invariant
            j <= imports@.len(),
            a == artifact@,
            imports@.len() == a.imports.len(),
            forall|k: int|
                0 <= k < imports@.len() ==> (#[trigger] imports@[k]).0@
                    == a.names[a.imports[k].0 as int] && imports@[k].1 == a.imports[k].1,
            elf.wf(),
            elf@.architecture == a.target.architecture,
            start == ElfView::initial(a.name, ctx_of(a.target), a.target.architecture),
            defined == with_definitions(start, a, a.definitions().len()),
            Some(elf@) == with_imports(defined, a, j as nat),
        decreases imports@.len() - j,
    {
        let (name, kind) = imports[j];
        match elf.import(name, &kind) {
            Ok(()) => {},
            Err(e) => {
                proof {
                    assert(with_imports(defined, a, (j + 1) as nat) is None);
                    lemma_imports_stuck(defined, a, (j + 1) as nat, a.imports.len());
                    lemma_links_stuck(
                        with_imports(defined, a, a.imports.len()),
                        a,
                        0,
                        a.links.len(),
                    );
                }
                return Err(e);
            },
        }
        j += 1;
    }
    let ghost imported = with_imports(defined, a, a.imports.len());
    let links = artifact.links();
    let mut k: usize = 0;
    while k < links.len()
        invariant
            k <= links@.len(),
            a == artifact@,
            links@.len() == a.links.len(),
            forall|n: int|
                0 <= n < links@.len() ==> (#[trigger] links@[n]).from.name@
                    == a.names[a.links[n].from as int] && *links@[n].from.decl == a.decl_at(
                    a.links[n].from,
                ) && links@[n].to.name@ == a.names[a.links[n].to as int] && *links@[n].to.decl
                    == a.decl_at(a.links[n].to) && links@[n].at == a.links[n].at
                    && links@[n].reloc == a.links[n].reloc,
            elf.wf(),
            elf@.architecture == a.target.architecture,
            start == ElfView::initial(a.name, ctx_of(a.target), a.target.architecture),
            defined == with_definitions(start, a, a.definitions().len()),
            imported == with_imports(defined, a, a.imports.len()),
            Some(elf@) == with_links(imported, a, k as nat),
        decreases links@.len() - k,
    {
        match elf.link(&links[k]) {
            Ok(()) => {},
            Err(e) => {
                proof {
                    assert(with_links(imported, a, (k + 1) as nat) is None);
                    lemma_links_stuck(imported, a, (k + 1) as nat, a.links.len());
                }
                return Err(e);
            },
        }
        k += 1;
    }
    proof {
        elf.lemma_wf();
    }
    elf.write()
}

/// Text of seven plain characters takes seven bytes.
proof fn lemma_ascii_len(s: Seq<char>)
    requires
        s == ".strtab"@ || s == ".symtab"@,
    ensures
        encode_utf8(s).len() == 7,
{
    reveal_strlit(".strtab");
    reveal_strlit(".symtab");
    reveal_with_fuel(encode_utf8, 8);
    assert(s.len() == 7);
    let a = s;
    let b = a.drop_first();
    let c = b.drop_first();
    let d = c.drop_first();
    let e = d.drop_first();
    let f = e.drop_first();
    let g = f.drop_first();
    let h = g.drop_first();
    assert(h.len() == 0);
    assert(vstd::utf8::encode_scalar(a[0] as u32).len() == 1);
    assert(vstd::utf8::encode_scalar(b[0] as u32).len() == 1);
    assert(vstd::utf8::encode_scalar(c[0] as u32).len() == 1);
    assert(vstd::utf8::encode_scalar(d[0] as u32).len() == 1);
    assert(vstd::utf8::encode_scalar(e[0] as u32).len() == 1);
    assert(vstd::utf8::encode_scalar(f[0] as u32).len() == 1);
    assert(vstd::utf8::encode_scalar(g[0] as u32).len() == 1);
}

} // verus!
