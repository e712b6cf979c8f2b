//! The Mach-O 32/64-bit backend: turns an artifact into a relocatable Mach-O object file.

use vstd::prelude::*;
use goblin::container::{Container, Endian};
use goblin::mach::header::Header;
use goblin::mach::load_command::{SymtabCommand, SIZEOF_SYMTAB_COMMAND};
use goblin::mach::relocation::{RelocationInfo, SIZEOF_RELOCATION_INFO};
use goblin::mach::segment::{Section, Segment};
use goblin::mach::symbols::Nlist;
use scroll::ctx::{IntoCtx, SizeWith};
use scroll::Pwrite;
use vstd::utf8::encode_utf8;
use crate::artifact::{
    distinct_names, lemma_position, Artifact, ArtifactView, Data, Definition, EmitError,
    LinkAndDecl, NamedDefinition, NamedLink,
};
use crate::decl::{DataType, Decl, DefinedDecl, ImportKind};
use crate::interner::{
    interned, interner_get, interner_get_or_intern, interner_len, interner_new, interner_resolve,
    Interner,
};
use crate::elf::{flatten, flatten_first};
use crate::table::append_bytes;
use crate::target::{ctx_of, make_ctx, Architecture, Ctx, Target};

verus! {

/// File type: relocatable object
pub const MH_OBJECT: u32 = 0x1;

/// Header flag: the sections can be divided into subsections by their symbols
pub const MH_SUBSECTIONS_VIA_SYMBOLS: u32 = 0x2000;

/// Section type: regular
pub const S_REGULAR: u32 = 0x0;

/// Section type: null-terminated strings
pub const S_CSTRING_LITERALS: u32 = 0x2;

/// Section attribute: only machine instructions
pub const S_ATTR_PURE_INSTRUCTIONS: u32 = 0x8000_0000;

/// Section attribute: some machine instructions
pub const S_ATTR_SOME_INSTRUCTIONS: u32 = 0x0000_0400;

/// Symbol type flag: external
pub const N_EXT: u8 = 0x01;

/// Symbol type: defined in a section
pub const N_SECT: u8 = 0x0e;

/// Relocation: absolute address
pub const X86_64_RELOC_UNSIGNED: u8 = 0;

/// Relocation: signed 32-bit displacement
pub const X86_64_RELOC_SIGNED: u8 = 1;

/// Relocation: a call or jump with a 32-bit displacement
pub const X86_64_RELOC_BRANCH: u8 = 2;

/// Relocation: a load of an entry of the global offset table
pub const X86_64_RELOC_GOT_LOAD: u8 = 3;

/// Index of the section of code
pub const CODE_SECTION_INDEX: usize = 0;

/// Index of the section of data
pub const DATA_SECTION_INDEX: usize = 1;

/// Index of the section of strings
pub const CSTRING_SECTION_INDEX: usize = 2;

/// The CPU type of an architecture, for those that exist in Mach-O.
pub open spec fn cputype_of(architecture: Architecture) -> Option<u32> {
    match architecture {
        Architecture::X86_64 => Some(0x0100_0007u32),
        Architecture::I386 | Architecture::I586 | Architecture::I686 => Some(7u32),
        Architecture::Aarch64 => Some(0x0100_000cu32),
        Architecture::Arm => Some(12u32),
        Architecture::Sparc => Some(14u32),
        Architecture::Powerpc => Some(18u32),
        Architecture::Powerpc64 | Architecture::Powerpc64le => Some(0x0100_0012u32),
        Architecture::Unknown => Some(0u32),
        _ => None,
    }
}

/// The Mach-O CPU type of an architecture
pub struct CpuType(pub u32);

impl CpuType {
    /// The CPU type of an architecture, or nothing for an architecture that
    /// does not exist in Mach-O
    pub fn from(architecture: Architecture) -> (r: Option<CpuType>)
        ensures
            r is Some <==> cputype_of(architecture) is Some,
            r matches Some(t) ==> Some(t.0) == cputype_of(architecture),
    {
        let tag: u32 = match architecture {
            Architecture::X86_64 => 0x0100_0007,
            Architecture::I386 | Architecture::I586 | Architecture::I686 => 7,
            Architecture::Aarch64 => 0x0100_000c,
            Architecture::Arm => 12,
            Architecture::Sparc => 14,
            Architecture::Powerpc => 18,
            Architecture::Powerpc64 | Architecture::Powerpc64le => 0x0100_0012,
            Architecture::Unknown => 0,
            _ => {
                return None;
            },
        };
        Some(CpuType(tag))
    }
}

/// An entry of the symbol table
#[derive(Debug, Copy, Clone, PartialEq, Eq, Structural)]
pub struct Symbol {
    /// Offset of the name in the string table
    pub n_strx: usize,
    /// Type flags
    pub n_type: u8,
    /// Section number, counted from one, or zero
    pub n_sect: usize,
    /// Description
    pub n_desc: u16,
    /// Value
    pub n_value: u64,
}

/// A relocation entry
#[derive(Debug, Copy, Clone, PartialEq, Eq, Structural)]
pub struct Relocation {
    /// Offset of the place that is relocated
    pub r_address: i32,
    /// Symbol number (24 bits), then whether the place is relative to the
    /// program counter (1), its length (2), whether the symbol number is
    /// one (1), and the relocation type (4)
    pub r_info: u32,
}

/// A section header
#[derive(Debug, Copy, Clone, PartialEq, Eq, Structural)]
pub struct SectionHeader {
    /// Address in memory
    pub addr: u64,
    /// Size in memory
    pub size: u64,
    /// Offset in the file
    pub offset: u32,
    /// Alignment, as a power of two
    pub align: u32,
    /// Offset of the relocations in the file
    pub reloff: u32,
    /// Number of relocations
    pub nreloc: u32,
    /// Type and attributes
    pub flags: u32,
}

/// A builder for creating a 32/64 bit Mach-O symbol
#[derive(Debug, Copy, Clone, PartialEq, Eq, Structural)]
pub struct SymbolBuilder {
    /// Offset of the name in the string table
    pub name: u64,
    /// The section the symbol belongs to
    pub section: Option<usize>,
    /// Whether the symbol is global
    pub global: bool,
    /// Whether the symbol is an import
    pub import: bool,
    /// Offset of the symbol among all the definitions
    pub offset: u64,
    /// Offset of the symbol within its section
    pub segment_relative_offset: u64,
}

impl SymbolBuilder {
    /// The symbol that the builder stands for: an import is external and in
    /// no section, with the value zero; anything else is in a section, and
    /// external if it is global.
    pub open spec fn symbol(self) -> Symbol {
        if self.import {
            Symbol { n_strx: self.name as usize, n_type: 0x01, n_sect: 0, n_desc: 0, n_value: 0 }
        } else {
            Symbol {
                n_strx: self.name as usize,
                n_type: if self.global {
                    0x0f
                } else {
                    0x0e
                },
                n_sect: match self.section {
                    Some(idx) => (idx + 1) as usize,
                    None => 0,
                },
                n_desc: 0,
                n_value: self.offset,
            }
        }
    }

    /// Create a new symbol whose name stands at the offset `name`
    pub fn new(name: u64) -> (r: Self)
        ensures
            r == (SymbolBuilder {
                name,
                section: None,
                global: false,
                import: false,
                offset: 0,
                segment_relative_offset: 0,
            }),
    {
        SymbolBuilder {
            name,
            section: None,
            global: false,
            import: false,
            offset: 0,
            segment_relative_offset: 0,
        }
    }

    /// The section this symbol belongs to
    pub fn section(self, section_index: usize) -> (r: Self)
        ensures
            r == (SymbolBuilder { section: Some(section_index), ..self }),
    {
        let mut s = self;
        s.section = Some(section_index);
        s
    }

    /// Is this symbol global?
    pub fn global(self, global: bool) -> (r: Self)
        ensures
            r == (SymbolBuilder { global, ..self }),
    {
        let mut s = self;
        s.global = global;
        s
    }

    /// Set the offset of this symbol among all the definitions
    pub fn offset(self, offset: u64) -> (r: Self)
        ensures
            r == (SymbolBuilder { offset, ..self }),
    {
        let mut s = self;
        s.offset = offset;
        s
    }

    /// Set the offset of this symbol within its section, required for relocations
    pub fn relative_offset(self, relative_offset: u64) -> (r: Self)
        ensures
            r == (SymbolBuilder { segment_relative_offset: relative_offset, ..self }),
    {
        let mut s = self;
        s.segment_relative_offset = relative_offset;
        s
    }

    /// Returns the offset of this symbol within its section
    pub fn get_segment_relative_offset(&self) -> (r: u64)
        ensures
            r == self.segment_relative_offset,
    {
        self.segment_relative_offset
    }

    /// Make this symbol an import
    pub fn import(self) -> (r: Self)
        ensures
            r == (SymbolBuilder { import: true, ..self }),
    {
        let mut s = self;
        s.import = true;
        s
    }

    /// Finalize and create the symbol
    pub fn create(self) -> (r: Symbol)
        requires
            self.section matches Some(idx) ==> idx < usize::MAX,
        ensures
            r == self.symbol(),
    {
        let n_strx = #[verifier::truncate] (self.name as usize);
        if self.import {
            return Symbol { n_strx, n_type: N_EXT, n_sect: 0, n_desc: 0, n_value: 0 };
        }
        let n_sect = match self.section {
            Some(idx) => idx + 1,
            None => 0,
        };
        let n_type: u8 = if self.global {
            0x0f
        } else {
            N_SECT
        };
        Symbol { n_strx, n_type, n_sect, n_desc: 0, n_value: self.offset }
    }
}

/// Mach relocation builder
#[derive(Debug, Copy, Clone, PartialEq, Eq, Structural)]
pub struct RelocationBuilder {
    /// Index of the symbol referred to
    pub symbol: usize,
    /// Offset of the place that is relocated
    pub relocation_offset: u64,
    /// Whether the relocation is absolute
    pub absolute: bool,
    /// Relocation type
    pub r_type: u8,
}

impl RelocationBuilder {
    /// The relocation that the builder stands for. An absolute relocation
    /// is eight bytes long and not relative to the program counter; any
    /// other is four bytes long and relative to it. Both refer to a symbol.
    pub open spec fn relocation(self) -> Relocation {
        Relocation {
            r_address: self.relocation_offset as i32,
            r_info: (self.symbol as u32) | (if self.absolute {
                0x0e00_0000u32
            } else {
                0x0d00_0000u32
            }) | (((self.r_type % 16) as u32) * 0x1000_0000) as u32,
        }
    }

    /// Create a relocation for `symbol`, starting at `relocation_offset`
    pub fn new(symbol: usize, relocation_offset: u64, r_type: u8) -> (r: Self)
        ensures
            r == (RelocationBuilder { symbol, relocation_offset, absolute: false, r_type }),
    {
        RelocationBuilder { symbol, relocation_offset, absolute: false, r_type }
    }

    /// This is an absolute relocation
    pub fn absolute(self) -> (r: Self)
        ensures
            r == (RelocationBuilder { absolute: true, ..self }),
    {
        let mut s = self;
        s.absolute = true;
        s
    }

    /// Finalize and create the relocation
    pub fn create(self) -> (r: Relocation)
        ensures
            r == self.relocation(),
    {
        let r_symbolnum: u32 = #[verifier::truncate] (self.symbol as u32);
        let flags: u32 = if self.absolute {
            0x0e00_0000
        } else {
            0x0d00_0000
        };
        let r_type: u32 = ((self.r_type % 16) as u32) * 0x1000_0000;
        let r_info = r_symbolnum | flags | r_type;
        Relocation {
            r_address: #[verifier::truncate] (self.relocation_offset as i32),
            r_info,
        }
    }
}

/// Helper to build sections
#[derive(Debug, Copy, Clone, PartialEq, Eq, Structural)]
pub struct SectionBuilder {
    /// Address in memory
    pub addr: u64,
    /// Alignment, as a power of two
    pub align: u64,
    /// Offset in the file
    pub offset: u64,
    /// Size in memory
    pub size: u64,
    /// Type and attributes
    pub flags: u32,
    /// Which of the three sections this is
    pub index: usize,
}

impl SectionBuilder {
    /// The section header that the builder stands for, without relocations.
    pub open spec fn header(self) -> SectionHeader {
        SectionHeader {
            addr: self.addr,
            size: self.size,
            offset: self.offset as u32,
            align: self.align as u32,
            reloff: 0,
            nreloc: 0,
            flags: self.flags,
        }
    }

    /// Create a new builder for the section with the given index, of `size` bytes
    pub fn new(index: usize, size: u64) -> (r: Self)
        ensures
            r == (SectionBuilder { addr: 0, align: 4, offset: 0, flags: S_REGULAR, size, index }),
    {
        SectionBuilder { addr: 0, align: 4, offset: 0, flags: S_REGULAR, size, index }
    }

    /// Set the address of this section in memory
    pub fn addr(self, addr: u64) -> (r: Self)
        ensures
            r == (SectionBuilder { addr, ..self }),
    {
        let mut s = self;
        s.addr = addr;
        s
    }

    /// Set the file offset of this section
    pub fn offset(self, offset: u64) -> (r: Self)
        ensures
            r == (SectionBuilder { offset, ..self }),
    {
        let mut s = self;
        s.offset = offset;
        s
    }

    /// Set the alignment of this section
    pub fn align(self, align: u64) -> (r: Self)
        ensures
            r == (SectionBuilder { align, ..self }),
    {
        let mut s = self;
        s.align = align;
        s
    }

    /// Set the flags of this section
    pub fn flags(self, flags: u32) -> (r: Self)
        ensures
            r == (SectionBuilder { flags, ..self }),
    {
        let mut s = self;
        s.flags = flags;
        s
    }

    /// Finalize and create the section header
    pub fn create(self) -> (r: SectionHeader)
        ensures
            r == self.header(),
    {
        SectionHeader {
            addr: self.addr,
            size: self.size,
            offset: #[verifier::truncate] (self.offset as u32),
            align: #[verifier::truncate] (self.align as u32),
            reloff: 0,
            nreloc: 0,
            flags: self.flags,
        }
    }
}

/// The bytes of a file header with the given fields.
pub uninterp spec fn header_image(
    cputype: u32,
    cpusubtype: u32,
    filetype: u32,
    ncmds_sizeofcmds: (usize, u32),
    flags: u32,
    big: bool,
    le: bool,
) -> Seq<u8>;

/// The bytes of a segment command that is followed by the given encoded sections.
pub uninterp spec fn segment_image(
    sections: Seq<u8>,
    nsects: u32,
    protection: (u32, u32),
    vmsize: u64,
    fileoff_filesize: (u64, u64),
    big: bool,
    le: bool,
) -> Seq<u8>;

/// The bytes of a section header with the given names and fields.
pub uninterp spec fn section_image(
    names: (Seq<char>, Seq<char>),
    addr_size: (u64, u64),
    offset_align: (u32, u32),
    reloff_nreloc: (u32, u32),
    flags: u32,
    big: bool,
    le: bool,
) -> Seq<u8>;

/// The bytes of a symbol table command with the given fields.
pub uninterp spec fn symtab_image(symoff: u32, nsyms: u32, stroff: u32, strsize: u32, le: bool) -> Seq<
    u8,
>;

/// The bytes of a symbol table entry.
pub uninterp spec fn nlist_image(
    n_strx: usize,
    n_type: u8,
    n_sect: usize,
    n_desc: u16,
    n_value: u64,
    big: bool,
    le: bool,
) -> Seq<u8>;

/// The bytes of a relocation entry.
pub uninterp spec fn relocation_image(r_address: i32, r_info: u32, le: bool) -> Seq<u8>;

/// The size of the file header in a container.
pub open spec fn sizeof_header(ctx: Ctx) -> nat {
    if ctx.big {
        32
    } else {
        28
    }
}

/// The size of a segment command in a container, without its sections.
pub open spec fn sizeof_segment(ctx: Ctx) -> nat {
    if ctx.big {
        72
    } else {
        56
    }
}

/// The size of a section header in a container.
pub open spec fn sizeof_section(ctx: Ctx) -> nat {
    if ctx.big {
        80
    } else {
        68
    }
}

/// The size of a symbol table entry in a container.
pub open spec fn sizeof_nlist(ctx: Ctx) -> nat {
    if ctx.big {
        16
    } else {
        12
    }
}

/// goblin's Mach-O `Header::new` for the container, with the given fields
/// set, written by `into_ctx`: 32 bytes in a 64-bit container, 28 in a 32-bit one.
#[verifier::external_body]
fn encode_header(cputype: u32, cpusubtype: u32, filetype: u32, ncmds: usize, sizeofcmds: u32, flags: u32, ctx: Ctx) -> (r:
    Vec<u8>)
    ensures
        r@ == header_image(cputype, cpusubtype, filetype, (ncmds, sizeofcmds), flags, ctx.big, ctx.le),
        r@.len() == sizeof_header(ctx),
{
    let container = if ctx.big { Container::Big } else { Container::Little };
    let gctx = goblin::container::Ctx::new(container, if ctx.le { Endian::Little } else { Endian::Big });
    let mut header = Header::new(gctx);
    header.filetype = filetype;
    header.flags = flags;
    header.cputype = cputype;
    header.cpusubtype = cpusubtype;
    header.ncmds = ncmds;
    header.sizeofcmds = sizeofcmds;
    let mut bytes = vec![0u8; Header::size_with(&gctx)];
    header.into_ctx(&mut bytes, gctx);
    bytes
}

/// goblin's `Segment::new` for the container and the encoded sections that
/// follow the command, with the given fields set, written by `into_ctx`:
/// 72 bytes in a 64-bit container, 56 in a 32-bit one.
#[verifier::external_body]
fn encode_segment(sections: &[u8], nsects: u32, initprot: u32, maxprot: u32, vmsize: u64, fileoff: u64, filesize: u64, ctx: Ctx) -> (r:
    Vec<u8>)
    ensures
        r@ == segment_image(
            sections@,
            nsects,
            (initprot, maxprot),
            vmsize,
            (fileoff, filesize),
            ctx.big,
            ctx.le,
        ),
        r@.len() == sizeof_segment(ctx),
{
    let container = if ctx.big { Container::Big } else { Container::Little };
    let gctx = goblin::container::Ctx::new(container, if ctx.le { Endian::Little } else { Endian::Big });
    let mut segment = Segment::new(gctx, sections);
    segment.nsects = nsects;
    segment.initprot = initprot;
    segment.maxprot = maxprot;
    segment.filesize = filesize;
    segment.vmsize = vmsize;
    segment.fileoff = fileoff;
    let mut bytes = vec![0u8; Segment::size_with(&gctx)];
    segment.into_ctx(&mut bytes, gctx);
    bytes
}

/// goblin's Mach-O `Section` with the given names, each written by
/// scroll's `pwrite` into sixteen zero bytes (which stay zero where the
/// name does not fit), and the given fields, written by `into_ctx`: 80
/// bytes in a 64-bit container, 68 in a 32-bit one.
#[verifier::external_body]
fn encode_section(sectname: &str, segname: &str, s: &SectionHeader, ctx: Ctx) -> (r: Vec<u8>)
    ensures
        r@ == section_image(
            (sectname@, segname@),
            (s.addr, s.size),
            (s.offset, s.align),
            (s.reloff, s.nreloc),
            s.flags,
            ctx.big,
            ctx.le,
        ),
        r@.len() == sizeof_section(ctx),
{
    let container = if ctx.big { Container::Big } else { Container::Little };
    let gctx = goblin::container::Ctx::new(container, if ctx.le { Endian::Little } else { Endian::Big });
    let mut sect = [0u8; 16];
    let _ = sect.pwrite(sectname, 0);
    let mut seg = [0u8; 16];
    let _ = seg.pwrite(segname, 0);
    let section = Section {
        sectname: sect, segname: seg, addr: s.addr, size: s.size, offset: s.offset,
        align: s.align, reloff: s.reloff, nreloc: s.nreloc, flags: s.flags,
    };
    let mut bytes = vec![0u8; Section::size_with(&gctx)];
    section.into_ctx(&mut bytes, gctx);
    bytes
}

/// goblin's `SymtabCommand::new` with the given fields set, written by
/// scroll's `pwrite_with` in the given byte order: 24 bytes.
#[verifier::external_body]
fn encode_symtab(symoff: u32, nsyms: u32, stroff: u32, strsize: u32, le: bool) -> (r: Vec<u8>)
    ensures
        r@ == symtab_image(symoff, nsyms, stroff, strsize, le),
        r@.len() == 24,
{
    let mut command = SymtabCommand::new();
    command.nsyms = nsyms;
    command.symoff = symoff;
    command.stroff = stroff;
    command.strsize = strsize;
    let mut bytes = vec![0u8; SIZEOF_SYMTAB_COMMAND];
    bytes.pwrite_with(command, 0, if le { Endian::Little } else { Endian::Big }).unwrap();
    bytes
}

/// goblin's `Nlist` with the given fields, written by `into_ctx`: 16
/// bytes in a 64-bit container, 12 in a 32-bit one.
#[verifier::external_body]
fn encode_nlist(s: &Symbol, ctx: Ctx) -> (r: Vec<u8>)
    ensures
        r@ == nlist_image(s.n_strx, s.n_type, s.n_sect, s.n_desc, s.n_value, ctx.big, ctx.le),
        r@.len() == sizeof_nlist(ctx),
{
    let container = if ctx.big { Container::Big } else { Container::Little };
    let gctx = goblin::container::Ctx::new(container, if ctx.le { Endian::Little } else { Endian::Big });
    let nlist = Nlist {
        n_strx: s.n_strx, n_type: s.n_type, n_sect: s.n_sect, n_desc: s.n_desc, n_value: s.n_value,
    };
    let mut bytes = vec![0u8; Nlist::size_with(&gctx)];
    nlist.into_ctx(&mut bytes, gctx);
    bytes
}

/// goblin's `RelocationInfo` with the given fields, written by scroll's
/// `pwrite_with` in the given byte order: 8 bytes.
#[verifier::external_body]
fn encode_relocation(rel: &Relocation, le: bool) -> (r: Vec<u8>)
    ensures
        r@ == relocation_image(rel.r_address, rel.r_info, le),
        r@.len() == 8,
{
    let info = RelocationInfo { r_address: rel.r_address, r_info: rel.r_info };
    let mut bytes = vec![0u8; SIZEOF_RELOCATION_INFO];
    bytes.pwrite_with(info, 0, if le { Endian::Little } else { Endian::Big }).unwrap();
    bytes
}

/// The string table of the first `n` names: a zero byte for the first
/// name, which is empty, and for each other name an underscore, the name
/// in UTF-8 and a zero byte.
pub open spec fn strtable_first(names: Seq<Seq<char>>, n: nat) -> Seq<u8>
    decreases n,
{
    if n <= 1 {
        seq![0u8]
    } else {
        strtable_first(names, (n - 1) as nat) + seq![0x5fu8] + encode_utf8(names[n - 1]) + seq![
            0u8,
        ]
    }
}

/// The kind of symbol this is
#[derive(Debug, Copy, Clone, PartialEq, Eq, Structural)]
pub enum SymbolType {
    /// A definition: the section it is in, its offset among all the
    /// definitions, its offset within its section, and whether it is global
    Defined {
        /// The section the definition is in
        section: usize,
        /// Its offset among all the definitions
        absolute_offset: u64,
        /// Its offset within its section
        segment_relative_offset: u64,
        /// Whether it is global
        global: bool,
    },
    /// An undefined symbol (an import)
    Undefined,
}

/// The builder of a symbol of the given kind whose name stands at `name`.
pub open spec fn builder_of(name: u64, kind: SymbolType) -> SymbolBuilder {
    match kind {
        SymbolType::Undefined => SymbolBuilder {
            name,
            section: None,
            global: true,
            import: true,
            offset: 0,
            segment_relative_offset: 0,
        },
        SymbolType::Defined { section, absolute_offset, segment_relative_offset, global } => SymbolBuilder {
            name,
            section: Some(section),
            global,
            import: false,
            offset: absolute_offset,
            segment_relative_offset,
        },
    }
}

/// The content of a symbol table: the names, the first of which is the
/// empty name, and a symbol for each of the other names.
pub struct SymbolTableView {
    /// The names of the string table
    pub names: Seq<Seq<char>>,
    /// The symbols: symbol `i` has the name `i + 1`
    pub symbols: Seq<SymbolBuilder>,
}

impl SymbolTableView {
    /// The empty name stands first and has no symbol, no name occurs twice,
    /// the string table fits what its size is counted in, and every symbol
    /// refers to the place in it where its name stands.
    pub open spec fn wf(self) -> bool {
        &&& self.names.len() == self.symbols.len() + 1
        &&& self.names[0] == Seq::<char>::empty()
        &&& distinct_names(self.names)
        &&& strtable_first(self.names, self.names.len()).len() <= u64::MAX
        &&& forall|i: int|
            0 <= i < self.symbols.len() ==> (#[trigger] self.symbols[i]).section is Some
                ==> self.symbols[i].section.unwrap() < 3
        &&& forall|i: int|
            0 <= i < self.symbols.len() ==> (#[trigger] self.symbols[i]).name == strtable_first(
                self.names,
                (i + 1) as nat,
            ).len()
    }

    /// The size of the string table.
    pub open spec fn size(self) -> nat {
        strtable_first(self.names, self.names.len()).len()
    }

    /// Whether a symbol of the given name can be added: its name is there
    /// already, in which case nothing changes, or the string table has room for it.
    pub open spec fn has_room(self, name: Seq<char>) -> bool {
        self.names.contains(name) || self.size() + encode_utf8(name).len() + 2 <= u64::MAX
    }

    /// The table after a symbol was inserted: nothing changes where the
    /// name is there already.
    pub open spec fn insert(self, name: Seq<char>, kind: SymbolType) -> SymbolTableView {
        if self.names.contains(name) {
            self
        } else {
            SymbolTableView {
                names: self.names.push(name),
                symbols: self.symbols.push(builder_of(self.size() as u64, kind)),
            }
        }
    }

    /// The offset within its section of the symbol of `name`, if it has one.
    pub open spec fn offset(self, name: Seq<char>) -> Option<u64> {
        if self.names.contains(name) && self.names.index_of(name) >= 1 {
            Some(self.symbols[self.names.index_of(name) - 1].segment_relative_offset)
        } else {
            None
        }
    }

    /// The index of the symbol of `name`, if it has one.
    pub open spec fn index(self, name: Seq<char>) -> Option<usize> {
        if self.names.contains(name) && self.names.index_of(name) >= 1 {
            Some((self.names.index_of(name) - 1) as usize)
        } else {
            None
        }
    }
}

/// A Mach-O symbol table
pub struct SymbolTable {
    symbols: Vec<SymbolBuilder>,
    strtable: Interner,
    strtable_size: u64,
}

impl View for SymbolTable {
    type V = SymbolTableView;

    closed spec fn view(&self) -> SymbolTableView {
        SymbolTableView { names: interned(self.strtable), symbols: self.symbols@ }
    }
}

impl SymbolTable {
    /// The content is well formed and the size is that of the string table.
    pub closed spec fn wf(&self) -> bool {
        self@.wf() && self.strtable_size == self@.size()
    }

    /// A well-formed table has well-formed content.
    pub proof fn lemma_wf(&self)
        requires
            self.wf(),
        ensures
            self@.wf(),
    {
    }

    /// Create a new symbol table. The first string is always the empty string
    pub fn new() -> (r: Self)
        ensures
            r.wf(),
            r@ == (SymbolTableView { names: seq![Seq::<char>::empty()], symbols: Seq::empty() }),
    {
        let mut strtable = interner_new();
        proof {
            reveal_strlit("");
            assert(""@ =~= Seq::<char>::empty());
        }
        interner_get_or_intern(&mut strtable, "");
        let r = SymbolTable { symbols: Vec::new(), strtable, strtable_size: 1 };
        assert(r@.names =~= seq![Seq::<char>::empty()]);
        r
    }

    /// The number of symbols in this table
    pub fn len(&self) -> (r: usize)
        ensures
            r == self@.symbols.len(),
    {
        self.symbols.len()
    }

    /// Returns the size of the string table, in bytes
    pub fn sizeof_strtable(&self) -> (r: u64)
        requires
            self.wf(),
        ensures
            r == self@.size(),
    {
        self.strtable_size
    }

    /// Look up the offset of this symbol within its section
    pub fn offset(&self, symbol_name: &str) -> (r: Option<u64>)
        requires
            self.wf(),
        ensures
            r == self@.offset(symbol_name@),
    {
        match interner_get(&self.strtable, symbol_name) {
            Some(idx) => {
                proof {
                    lemma_position(self@.names, symbol_name@, idx as int);
                }
                if idx >= 1 {
                    Some(self.symbols[idx - 1].get_segment_relative_offset())
                } else {
                    None
                }
            },
            None => None,
        }
    }

    /// Look up the index of this symbol in the symbol table, if it has one
    pub fn index(&self, symbol_name: &str) -> (r: Option<usize>)
        requires
            self.wf(),
        ensures
            r == self@.index(symbol_name@),
    {
        match interner_get(&self.strtable, symbol_name) {
            Some(idx) => {
                proof {
                    lemma_position(self@.names, symbol_name@, idx as int);
                }
                if idx >= 1 {
                    Some(idx - 1)
                } else {
                    None
                }
            },
            None => None,
        }
    }

    /// Insert a new symbol into this table, unless one of its name is there;
    /// says whether the string table had room for it
    pub fn insert(&mut self, symbol_name: &str, kind: SymbolType) -> (r: bool)
        requires
            old(self).wf(),
            kind matches SymbolType::Defined { section, .. } ==> section < 3,
        ensures
            final(self).wf(),
            r == old(self)@.has_room(symbol_name@),
            r ==> final(self)@ == old(self)@.insert(symbol_name@, kind),
            !r ==> final(self)@ == old(self)@,
    {
        let ghost before = self@;
        if interner_get(&self.strtable, symbol_name).is_some() {
            return true;
        }
        let name_len = symbol_name.as_bytes().len();
        assert(name_len == encode_utf8(symbol_name@).len());
        if name_len as u64 > u64::MAX - 2 || self.strtable_size > u64::MAX - 2 - name_len as u64 {
            return false;
        }
        interner_get_or_intern(&mut self.strtable, symbol_name);
        let builder = match kind {
            SymbolType::Undefined => SymbolBuilder::new(self.strtable_size).global(true).import(),
            SymbolType::Defined { section, absolute_offset, global, segment_relative_offset } => {
                SymbolBuilder::new(self.strtable_size).global(global).offset(
                    absolute_offset,
                ).relative_offset(segment_relative_offset).section(section)
            },
        };
        self.symbols.push(builder);
        self.strtable_size = self.strtable_size + name_len as u64 + 2;
        proof {
            let after = self@;
            assert(after.names == before.names.push(symbol_name@));
            lemma_strtable_same(before.names, after.names, before.names.len());
            assert(strtable_first(after.names, after.names.len()) == strtable_first(
                before.names,
                before.names.len(),
            ) + seq![0x5fu8] + encode_utf8(symbol_name@) + seq![0u8]);
            assert forall|i: int| 0 <= i < after.symbols.len() implies (#[trigger] after.symbols[i]).name
                == strtable_first(after.names, (i + 1) as nat).len() by {
                lemma_strtable_same(before.names, after.names, (i + 1) as nat);
            }
        }
        true
    }

    /// The string table: a zero byte, then each name but the first with an
    /// underscore before it and a zero byte after it
    pub fn strtable_bytes(&self) -> (r: Vec<u8>)
        requires
            self.wf(),
        ensures
            r@ == strtable_first(self@.names, self@.names.len()),
    {
        let mut out: Vec<u8> = Vec::new();
        out.push(0u8);
        let n = interner_len(&self.strtable);
        let mut i: usize = 1;
        assert(out@ =~= strtable_first(self@.names, 1));
        while i < n
            invariant
                self.wf(),
                n == self@.names.len(),
                1 <= i <= n,
                out@ == strtable_first(self@.names, i as nat),
            decreases n - i,
        {
            match interner_resolve(&self.strtable, i) {
                Some(s) => {
                    out.push(0x5fu8);
                    append_bytes(&mut out, s.as_bytes());
                    out.push(0u8);
                },
                None => {},
            }
            i += 1;
        }
        out
    }
}

/// Two lists of names that agree on their first `n` names have the same
/// string table of those names.
pub proof fn lemma_strtable_same(a: Seq<Seq<char>>, b: Seq<Seq<char>>, n: nat)
    requires
        n <= a.len(),
        n <= b.len(),
        forall|i: int| 0 <= i < n ==> a[i] == b[i],
    ensures
        strtable_first(a, n) == strtable_first(b, n),
    decreases n,
{
    if n > 1 {
        lemma_strtable_same(a, b, (n - 1) as nat);
    }
}

/// A string table starts with a zero byte, and every name but the first
/// stands in it behind an underscore.
pub proof fn lemma_strtable_underscore(names: Seq<Seq<char>>, i: nat, n: nat)
    requires
        1 <= i < n,
        n <= names.len(),
    ensures
        strtable_first(names, n)[0] == 0u8,
        strtable_first(names, i).len() < strtable_first(names, n).len(),
        strtable_first(names, n)[strtable_first(names, i).len() as int] == 0x5fu8,
    decreases n,
{
    lemma_strtable_starts(names, n);
    if i + 1 < n {
        lemma_strtable_underscore(names, i, (n - 1) as nat);
    } else {
        lemma_strtable_starts(names, i);
    }
}

/// The string table of a symbol table starts with a zero byte, and every
/// symbol refers to a place in it where an underscore stands: the
/// beginning of its name.
pub proof fn lemma_names_underscored(t: SymbolTableView, i: int)
    requires
        t.wf(),
        0 <= i < t.symbols.len(),
    ensures
        strtable_first(t.names, t.names.len())[0] == 0u8,
        t.symbols[i].name < strtable_first(t.names, t.names.len()).len(),
        strtable_first(t.names, t.names.len())[t.symbols[i].name as int] == 0x5fu8,
{
    lemma_strtable_underscore(t.names, (i + 1) as nat, t.names.len());
}

/// A string table starts with a zero byte.
pub proof fn lemma_strtable_starts(names: Seq<Seq<char>>, n: nat)
    ensures
        strtable_first(names, n).len() >= 1,
        strtable_first(names, n)[0] == 0u8,
    decreases n,
{
    if n > 1 {
        lemma_strtable_starts(names, (n - 1) as nat);
    }
}

/// The views of a list of definitions.
pub open spec fn definitions_view(v: Seq<Definition>) -> Seq<NamedDefinition> {
    Seq::new(v.len(), |i: int| v[i]@)
}

/// The section a definition goes to: functions to the code, strings to the
/// strings, anything else to the data.
pub open spec fn part_of(d: NamedDefinition) -> usize {
    match d.decl {
        DefinedDecl::Function(_) => 0,
        DefinedDecl::Data(dd) => if dd.datatype == DataType::String {
            2
        } else {
            1
        },
        DefinedDecl::Section(_) => 1,
    }
}

/// Those of the first `n` definitions that go to the section `part`.
pub open spec fn select(defs: Seq<NamedDefinition>, part: usize, n: nat) -> Seq<NamedDefinition>
    decreases n,
{
    if n == 0 {
        Seq::empty()
    } else {
        let rest = select(defs, part, (n - 1) as nat);
        if part_of(defs[n - 1]) == part {
            rest.push(defs[n - 1])
        } else {
            rest
        }
    }
}

/// The room that the first `n` definitions take in memory.
pub open spec fn mem_size(defs: Seq<NamedDefinition>, n: nat) -> nat
    decreases n,
{
    if n == 0 {
        0
    } else {
        mem_size(defs, (n - 1) as nat) + defs[n - 1].data.len()
    }
}

/// The bytes that the first `n` definitions take in the file.
pub open spec fn file_bytes(defs: Seq<NamedDefinition>, n: nat) -> Seq<u8>
    decreases n,
{
    if n == 0 {
        Seq::empty()
    } else {
        file_bytes(defs, (n - 1) as nat) + defs[n - 1].data.file_bytes()
    }
}

/// The symbol table after the first `n` definitions of a section were
/// inserted, or nothing where an offset or the string table grows too
/// large. `base` is the room that the sections before it take in memory.
#[verifier::opaque]
pub open spec fn place(
    table: SymbolTableView,
    defs: Seq<NamedDefinition>,
    section: usize,
    base: nat,
    n: nat,
) -> Option<SymbolTableView>
    decreases n,
{
    if n == 0 {
        Some(table)
    } else {
        match place(table, defs, section, base, (n - 1) as nat) {
            None => None,
            Some(t) => {
                let d = defs[n - 1];
                let rel = mem_size(defs, (n - 1) as nat);
                if base + rel + d.data.len() > u64::MAX || !t.has_room(d.name) {
                    None
                } else {
                    Some(
                        t.insert(
                            d.name,
                            SymbolType::Defined {
                                section,
                                absolute_offset: (base + rel) as u64,
                                segment_relative_offset: rel as u64,
                                global: d.decl.spec_is_global(),
                            },
                        ),
                    )
                }
            },
        }
    }
}

/// The symbol table after the first `n` imports were inserted.
#[verifier::opaque]
pub open spec fn place_imports(table: SymbolTableView, imports: Seq<Seq<char>>, n: nat) -> Option<
    SymbolTableView,
>
    decreases n,
{
    if n == 0 {
        Some(table)
    } else {
        match place_imports(table, imports, (n - 1) as nat) {
            None => None,
            Some(t) => if !t.has_room(imports[n - 1]) {
                None
            } else {
                Some(t.insert(imports[n - 1], SymbolType::Undefined))
            },
        }
    }
}

/// Once a definition has no place, neither have those after it.
pub proof fn lemma_place_stuck(
    table: SymbolTableView,
    defs: Seq<NamedDefinition>,
    section: usize,
    base: nat,
    i: nat,
    n: nat,
)
    requires
        i <= n,
        place(table, defs, section, base, i) is None,
    ensures
        place(table, defs, section, base, n) is None,
    decreases n,
{
    reveal(place);
    if i < n {
        lemma_place_stuck(table, defs, section, base, i, (n - 1) as nat);
    }
}

/// Once an import has no place, neither have those after it.
pub proof fn lemma_imports_stuck(table: SymbolTableView, imports: Seq<Seq<char>>, i: nat, n: nat)
    requires
        i <= n,
        place_imports(table, imports, i) is None,
    ensures
        place_imports(table, imports, n) is None,
    decreases n,
{
    reveal(place_imports);
    if i < n {
        lemma_imports_stuck(table, imports, i, (n - 1) as nat);
    }
}

/// The three sections of a file with its symbol table, and the room the
/// definitions take in memory and in the file.
pub struct SegmentView {
    /// The symbol table
    pub table: SymbolTableView,
    /// The sections: code, data, strings
    pub sections: Seq<SectionBuilder>,
    /// The room the definitions take in memory
    pub size: u64,
    /// Where the definitions end in the file, if they stood right after the header
    pub offset: u64,
}

/// The flags of the section with the given index.
pub open spec fn section_flags(index: usize) -> u32 {
    if index == 0 {
        S_ATTR_PURE_INSTRUCTIONS | S_ATTR_SOME_INSTRUCTIONS
    } else if index == 2 {
        S_CSTRING_LITERALS
    } else {
        S_REGULAR
    }
}

/// The segment of a file: the definitions of each section follow those of
/// the section before, in memory and in the file, and the symbols of the
/// imports follow those of the definitions.
pub open spec fn segment_of(
    ctx: Ctx,
    defs: Seq<NamedDefinition>,
    imports: Seq<Seq<char>>,
) -> Option<SegmentView> {
    segment_parts(
        ctx,
        select(defs, 0, defs.len()),
        select(defs, 1, defs.len()),
        select(defs, 2, defs.len()),
        imports,
    )
}

/// The relocation type for a link by the declarations of its two ends, and
/// whether the relocation is absolute; nothing for a link to a raw section.
pub open spec fn reloc_kind(from: Decl, to: Decl) -> Option<(bool, u8)> {
    let from_data = from matches Decl::Defined(DefinedDecl::Data(d)) && d.datatype == DataType::Bytes;
    match to {
        Decl::Defined(DefinedDecl::Function(_)) => if from_data {
            Some((true, X86_64_RELOC_UNSIGNED))
        } else {
            Some((false, X86_64_RELOC_BRANCH))
        },
        Decl::Import(ImportKind::Function) => if from_data {
            Some((true, X86_64_RELOC_UNSIGNED))
        } else {
            Some((false, X86_64_RELOC_BRANCH))
        },
        Decl::Defined(DefinedDecl::Data(d)) => if d.datatype == DataType::String {
            Some((false, X86_64_RELOC_SIGNED))
        } else if from_data {
            Some((true, X86_64_RELOC_UNSIGNED))
        } else {
            Some((false, X86_64_RELOC_SIGNED))
        },
        Decl::Import(ImportKind::Data) => Some((false, X86_64_RELOC_GOT_LOAD)),
        Decl::Defined(DefinedDecl::Section(_)) => None,
    }
}

/// Choose the relocation type for a link
pub fn select_reloc(from: &Decl, to: &Decl) -> (r: Option<(bool, u8)>)
    ensures
        r == reloc_kind(*from, *to),
{
    let from_data = match *from {
        Decl::Defined(DefinedDecl::Data(d)) => match d.get_datatype() {
            DataType::Bytes => true,
            DataType::String => false,
        },
        _ => false,
    };
    match *to {
        Decl::Defined(DefinedDecl::Function(_)) | Decl::Import(ImportKind::Function) => {
            if from_data {
                Some((true, X86_64_RELOC_UNSIGNED))
            } else {
                Some((false, X86_64_RELOC_BRANCH))
            }
        },
        Decl::Defined(DefinedDecl::Data(d)) => {
            match d.get_datatype() {
                DataType::String => Some((false, X86_64_RELOC_SIGNED)),
                DataType::Bytes => {
                    if from_data {
                        Some((true, X86_64_RELOC_UNSIGNED))
                    } else {
                        Some((false, X86_64_RELOC_SIGNED))
                    }
                },
            }
        },
        Decl::Import(ImportKind::Data) => Some((false, X86_64_RELOC_GOT_LOAD)),
        Decl::Defined(DefinedDecl::Section(_)) => None,
    }
}

/// The relocations of the first `n` links: those that are not absolute,
/// which belong to the code, and the absolute ones, which belong to the
/// data. A link one of whose ends has no symbol is passed over; a link for
/// which no relocation is known, or whose place is beyond what can be
/// counted, leaves nothing.
#[verifier::opaque]
pub open spec fn relocations_of(table: SymbolTableView, links: Seq<NamedLink>, n: nat) -> Option<
    (Seq<Relocation>, Seq<Relocation>),
>
    decreases n,
{
    if n == 0 {
        Some((Seq::empty(), Seq::empty()))
    } else {
        match relocations_of(table, links, (n - 1) as nat) {
            None => None,
            Some((text, data)) => {
                let l = links[n - 1];
                match reloc_kind(l.from.1, l.to.1) {
                    None => None,
                    Some((absolute, typ)) => match (table.offset(l.from.0), table.index(l.to.0)) {
                        (Some(base), Some(to)) => if base + l.at > u64::MAX {
                            None
                        } else {
                            let r = (RelocationBuilder {
                                symbol: to,
                                relocation_offset: (base + l.at) as u64,
                                absolute,
                                r_type: typ,
                            }).relocation();
                            if absolute {
                                Some((text, data.push(r)))
                            } else {
                                Some((text.push(r), data))
                            }
                        },
                        _ => Some((text, data)),
                    },
                }
            },
        }
    }
}

/// Once a link leaves nothing, so do those after it.
pub proof fn lemma_relocations_stuck(table: SymbolTableView, links: Seq<NamedLink>, i: nat, n: nat)
    requires
        i <= n,
        relocations_of(table, links, i) is None,
    ensures
        relocations_of(table, links, n) is None,
    decreases n,
{
    reveal(relocations_of);
    if i < n {
        lemma_relocations_stuck(table, links, i, (n - 1) as nat);
    }
}

/// Build the relocations of the links against a symbol table: those of the
/// code, then those of the data
pub fn build_relocations(links: &Vec<LinkAndDecl>, symtab: &SymbolTable) -> (r: Result<
    (Vec<Relocation>, Vec<Relocation>),
    EmitError,
>)
    requires
        symtab.wf(),
    ensures
        r matches Err(e) ==> !(e is Undefined),
        r is Ok <==> relocations_of(symtab@, links_view(links@), links@.len()) is Some,
        r matches Ok(p) ==> Some((p.0@, p.1@)) == relocations_of(
            symtab@,
            links_view(links@),
            links@.len(),
        ),
{
    let mut text_relocations: Vec<Relocation> = Vec::new();
    let mut data_relocations: Vec<Relocation> = Vec::new();
    let ghost items = links_view(links@);
    let mut i: usize = 0;
    proof {
        reveal(relocations_of);
    }
    while i < links.len()
        invariant
            i <= links@.len(),
            symtab.wf(),
            items == links_view(links@),
            Some((text_relocations@, data_relocations@)) == relocations_of(symtab@, items, i as nat),
        decreases links@.len() - i,
    {
        proof {
            reveal(relocations_of);
        }
        let link = &links[i];
        assert(items[i as int] == link@);
        let (absolute, reloc) = match select_reloc(link.from.decl, link.to.decl) {
            Some(pair) => pair,
            None => {
                proof {
                    lemma_relocations_stuck(symtab@, items, (i + 1) as nat, links@.len() as nat);
                }
                return Err(EmitError::UnsupportedRelocation);
            },
        };
        match (symtab.offset(link.from.name), symtab.index(link.to.name)) {
            (Some(base_offset), Some(to_symbol_index)) => {
                if link.at > u64::MAX - base_offset {
                    proof {
                        lemma_relocations_stuck(symtab@, items, (i + 1) as nat, links@.len() as nat);
                    }
                    return Err(EmitError::TooLarge);
                }
                let builder = RelocationBuilder::new(to_symbol_index, base_offset + link.at, reloc);
                if absolute {
                    data_relocations.push(builder.absolute().create());
                } else {
                    text_relocations.push(builder.create());
                }
            },
            _ => {},
        }
        i += 1;
    }
    Ok((text_relocations, data_relocations))
}

/// The views of a list of links.
pub open spec fn links_view(v: Seq<LinkAndDecl>) -> Seq<NamedLink> {
    Seq::new(v.len(), |i: int| v[i]@)
}

/// How a symbol is encoded in a container.
pub open spec fn nlist_encoder(ctx: Ctx) -> spec_fn(Symbol) -> Seq<u8> {
    |s: Symbol| nlist_image(s.n_strx, s.n_type, s.n_sect, s.n_desc, s.n_value, ctx.big, ctx.le)
}

/// How a relocation is encoded in a byte order.
pub open spec fn relocation_encoder(le: bool) -> spec_fn(Relocation) -> Seq<u8> {
    |r: Relocation| relocation_image(r.r_address, r.r_info, le)
}

/// The name of the section with the given index.
pub open spec fn section_name(index: usize) -> Seq<char> {
    if index == 0 {
        "__text"@
    } else if index == 2 {
        "__cstring"@
    } else {
        "__data"@
    }
}

/// The name of the segment that the section with the given index is said to be in.
pub open spec fn segment_name(index: usize) -> Seq<char> {
    if index == 1 {
        "__DATA"@
    } else {
        "__TEXT"@
    }
}

/// The bytes of a section header of the section with the given index.
pub open spec fn section_bytes(index: usize, s: SectionHeader, ctx: Ctx) -> Seq<u8> {
    section_image(
        (section_name(index), segment_name(index)),
        (s.addr, s.size),
        (s.offset, s.align),
        (s.reloff, s.nreloc),
        s.flags,
        ctx.big,
        ctx.le,
    )
}

/// A Mach-O program segment
pub struct SegmentBuilder {
    /// The sections that belong to this program segment: code, data, strings
    pub sections: Vec<SectionBuilder>,
    /// Where the definitions end in the file, if they stood right after the header
    pub offset: u64,
    /// The room the definitions take in memory
    pub size: u64,
}

/// The content of a Mach-O file that is ready to be written.
pub struct MachView {
    /// The container
    pub ctx: Ctx,
    /// The architecture
    pub architecture: Architecture,
    /// The segment with its symbol table
    pub segment: SegmentView,
    /// The relocations of the code
    pub text_relocations: Seq<Relocation>,
    /// The relocations of the data
    pub data_relocations: Seq<Relocation>,
    /// The bytes of the definitions in the file
    pub contents: Seq<u8>,
}

impl MachView {
    /// The size of the two load commands.
    pub open spec fn sizeof_cmds(self) -> nat {
        sizeof_segment(self.ctx) + 3 * sizeof_section(self.ctx) + 24
    }

    /// The offset of the symbol table: behind the header, the load
    /// commands and the definitions.
    pub open spec fn symoff(self) -> nat {
        (self.segment.offset + self.sizeof_cmds()) as nat
    }

    /// The offset of the string table: behind the symbols.
    pub open spec fn stroff(self) -> nat {
        self.symoff() + self.segment.table.symbols.len() * sizeof_nlist(self.ctx)
    }

    /// The offset of the relocations: behind the string table.
    pub open spec fn reloff(self) -> nat {
        self.stroff() + self.segment.table.size()
    }

    /// The header of section `k` as it is written: at its place in the
    /// file, and with its relocations for the code and the data.
    pub open spec fn section_header(self, k: int) -> SectionHeader {
        let header = self.segment.sections[k].header();
        let placed = SectionHeader {
            offset: (self.segment.sections[k].offset + self.sizeof_cmds()) as u32,
            ..header
        };
        if k == 0 {
            SectionHeader {
                nreloc: self.text_relocations.len() as u32,
                reloff: self.reloff() as u32,
                ..placed
            }
        } else if k == 1 {
            SectionHeader {
                nreloc: self.data_relocations.len() as u32,
                reloff: (self.reloff() + 8 * self.text_relocations.len()) as u32,
                ..placed
            }
        } else {
            placed
        }
    }

    /// The three section headers as they follow the segment command.
    pub open spec fn raw_sections(self) -> Seq<u8> {
        section_bytes(0, self.section_header(0), self.ctx) + section_bytes(
            1,
            self.section_header(1),
            self.ctx,
        ) + section_bytes(2, self.section_header(2), self.ctx)
    }

    /// Whether every offset of the file fits the 32 bits of its field, and
    /// the architecture exists in Mach-O.
    pub open spec fn fits(self) -> bool {
        cputype_of(self.architecture) is Some && self.reloff() + 8 * (self.text_relocations.len()
            + self.data_relocations.len()) <= u32::MAX
    }

    /// The bytes of the file: the header, the segment command with its
    /// three sections, the symbol table command, the definitions (code,
    /// data, strings), the symbols, the string table, the relocations of
    /// the code and of the data, and a zero byte.
    pub open spec fn image(self) -> Seq<u8> {
        let ctx = self.ctx;
        let first = sizeof_header(ctx) + self.sizeof_cmds();
        header_image(
            cputype_of(self.architecture).unwrap(),
            3,
            MH_OBJECT,
            (2, self.sizeof_cmds() as u32),
            MH_SUBSECTIONS_VIA_SYMBOLS,
            ctx.big,
            ctx.le,
        ) + segment_image(
            self.raw_sections(),
            3,
            (7, 7),
            self.segment.size,
            (first as u64, (self.segment.offset - sizeof_header(ctx)) as u64),
            ctx.big,
            ctx.le,
        ) + self.raw_sections() + symtab_image(
            self.symoff() as u32,
            self.segment.table.symbols.len() as u32,
            self.stroff() as u32,
            self.segment.table.size() as u32,
            ctx.le,
        ) + self.contents + flatten(
            Seq::new(
                self.segment.table.symbols.len(),
                |i: int| self.segment.table.symbols[i].symbol(),
            ),
            nlist_encoder(ctx),
        ) + strtable_first(self.segment.table.names, self.segment.table.names.len()) + flatten(
            self.text_relocations,
            relocation_encoder(ctx.le),
        ) + flatten(self.data_relocations, relocation_encoder(ctx.le)) + seq![0u8]
    }
}

/// The Mach-O file that holds all of an artifact, or nothing where a size
/// is beyond what can be counted or no relocation is known for a link.
pub open spec fn mach_of(a: ArtifactView) -> Option<MachView> {
    mach_parts(a.target, a.named_definitions(), a.import_names(), a.named_links())
}

/// The bytes of the Mach-O file of an artifact, or nothing where it has none.
pub open spec fn mach_image(a: ArtifactView) -> Option<Seq<u8>> {
    match mach_of(a) {
        None => None,
        Some(m) => if m.fits() {
            Some(m.image())
        } else {
            None
        },
    }
}

/// Those of the definitions that go to the section `part`, in order
fn partition<'a>(defs: &Vec<Definition<'a>>, part: usize) -> (r: Vec<Definition<'a>>)
    ensures
        definitions_view(r@) == select(definitions_view(defs@), part, defs@.len()),
{
    let mut out: Vec<Definition<'a>> = Vec::new();
    let ghost items = definitions_view(defs@);
    let mut i: usize = 0;
    assert(definitions_view(out@) =~= select(items, part, 0));
    while i < defs.len()
        invariant
            i <= defs@.len(),
            items == definitions_view(defs@),
            definitions_view(out@) == select(items, part, i as nat),
        decreases defs@.len() - i,
    {
        let def = &defs[i];
        assert(items[i as int] == def@);
        let to: usize = match *def.decl {
            DefinedDecl::Function(_) => 0,
            DefinedDecl::Data(d) => match d.get_datatype() {
                DataType::String => 2,
                DataType::Bytes => 1,
            },
            DefinedDecl::Section(_) => 1,
        };
        if to == part {
            let ghost before = definitions_view(out@);
            out.push(
                Definition { name: def.name, data: def.data, symbols: def.symbols, decl: def.decl },
            );
            assert(definitions_view(out@) =~= before.push(def@));
        }
        i += 1;
    }
    out
}

impl SegmentBuilder {
    /// The size of this segment's data in memory, in bytes
    pub fn size(&self) -> (r: u64)
        ensures
            r == self.size,
    {
        self.size
    }

    /// The size of the load command of a segment, with its three sections, in bytes
    pub fn load_command_size(ctx: &Ctx) -> (r: u64)
        ensures
            r == sizeof_segment(*ctx) + 3 * sizeof_section(*ctx),
    {
        if ctx.big {
            72 + 3 * 80
        } else {
            56 + 3 * 68
        }
    }

    /// Insert the symbols of the definitions of one section, and return the
    /// room they take in memory and in the file
    fn build_section(
        symtab: &mut SymbolTable,
        base: u64,
        section: usize,
        definitions: &Vec<Definition>,
    ) -> (r: Option<(u64, u64)>)
        requires
            old(symtab).wf(),
            section < 3,
        ensures
            final(symtab).wf(),
            r is Some <==> place(
                old(symtab)@,
                definitions_view(definitions@),
                section,
                base as nat,
                definitions@.len(),
            ) is Some,
            r matches Some(p) ==> Some(final(symtab)@) == place(
                old(symtab)@,
                definitions_view(definitions@),
                section,
                base as nat,
                definitions@.len(),
            ) && p.0 == mem_size(definitions_view(definitions@), definitions@.len()) && p.1
                == file_bytes(definitions_view(definitions@), definitions@.len()).len() && base
                + p.0 <= u64::MAX,
    {
        let ghost start = symtab@;
        let ghost items = definitions_view(definitions@);
        let mut local_size: u64 = 0;
        let mut file_size: u64 = 0;
        let mut i: usize = 0;
        proof {
            reveal(place);
        }
        while i < definitions.len()
            invariant
                i <= definitions@.len(),
                section < 3,
                symtab.wf(),
                items == definitions_view(definitions@),
                start == old(symtab)@,
                Some(symtab@) == place(start, items, section, base as nat, i as nat),
                local_size == mem_size(items, i as nat),
                file_size == file_bytes(items, i as nat).len(),
                file_size <= local_size,
                base + local_size <= u64::MAX,
            decreases definitions@.len() - i,
        {
            proof {
                reveal(place);
            }
            let def = &definitions[i];
            assert(items[i as int] == def@);
            let len = def.data.len() as u64;
            if len > u64::MAX - base - local_size {
                proof {
                    lemma_place_stuck(
                        start,
                        items,
                        section,
                        base as nat,
                        (i + 1) as nat,
                        definitions@.len() as nat,
                    );
                }
                return None;
            }
            let kind = SymbolType::Defined {
                section,
                segment_relative_offset: local_size,
                absolute_offset: base + local_size,
                global: def.decl.is_global(),
            };
            if !symtab.insert(def.name, kind) {
                proof {
                    lemma_place_stuck(
                        start,
                        items,
                        section,
                        base as nat,
                        (i + 1) as nat,
                        definitions@.len() as nat,
                    );
                }
                return None;
            }
            let in_file: u64 = match def.data {
                Data::Blob(bytes) => bytes.len() as u64,
                Data::ZeroInit(_) => 0,
            };
            local_size = local_size + len;
            file_size = file_size + in_file;
            i += 1;
        }
        Some((local_size, file_size))
    }

    /// Create the segment of a file from its definitions, by section, and
    /// its imports, and fill the symbol table
    pub fn new(
        imports: &Vec<(&str, ImportKind)>,
        code: &Vec<Definition>,
        data: &Vec<Definition>,
        cstrings: &Vec<Definition>,
        symtab: &mut SymbolTable,
        ctx: &Ctx,
    ) -> (r: Option<SegmentBuilder>)
        requires
            old(symtab).wf(),
            old(symtab)@ == (SymbolTableView {
                names: seq![Seq::<char>::empty()],
                symbols: Seq::empty(),
            }),
        ensures
            final(symtab).wf(),
            r is Some <==> segment_parts(
                *ctx,
                definitions_view(code@),
                definitions_view(data@),
                definitions_view(cstrings@),
                import_texts(imports@),
            ) is Some,
            r matches Some(b) ==> Some(
                SegmentView {
                    table: final(symtab)@,
                    sections: b.sections@,
                    size: b.size,
                    offset: b.offset,
                },
            ) == segment_parts(
                *ctx,
                definitions_view(code@),
                definitions_view(data@),
                definitions_view(cstrings@),
                import_texts(imports@),
            ),
    {
        let header: u64 = if ctx.big {
            32
        } else {
            28
        };
        let ghost init = symtab@;
        let (m0, f0) = match Self::build_section(symtab, 0, CODE_SECTION_INDEX, code) {
            Some(p) => p,
            None => {
                return None;
            },
        };
        let ghost t0 = symtab@;
        let (m1, f1) = match Self::build_section(symtab, m0, DATA_SECTION_INDEX, data) {
            Some(p) => p,
            None => {
                return None;
            },
        };
        let ghost t1 = symtab@;
        let (m2, f2) = match Self::build_section(symtab, m0 + m1, CSTRING_SECTION_INDEX, cstrings) {
            Some(p) => p,
            None => {
                return None;
            },
        };
        let ghost defined = symtab@;
        let ghost names = import_texts(imports@);
        let mut i: usize = 0;
        proof {
            reveal(place_imports);
        }
        while i < imports.len()
            invariant
                i <= imports@.len(),
                symtab.wf(),
                names == import_texts(imports@),
                init == (SymbolTableView {
                    names: seq![Seq::<char>::empty()],
                    symbols: Seq::empty(),
                }),
                m0 == mem_size(definitions_view(code@), code@.len()),
                m1 == mem_size(definitions_view(data@), data@.len()),
                Some(t0) == place(init, definitions_view(code@), 0, 0, code@.len()),
                Some(t1) == place(t0, definitions_view(data@), 1, m0 as nat, data@.len()),
                Some(defined) == place(
                    t1,
                    definitions_view(cstrings@),
                    2,
                    (m0 + m1) as nat,
                    cstrings@.len(),
                ),
                Some(symtab@) == place_imports(defined, names, i as nat),
            decreases imports@.len() - i,
        {
            proof {
                reveal(place_imports);
            }
            let (name, _) = imports[i];
            assert(names[i as int] == name@);
            if !symtab.insert(name, SymbolType::Undefined) {
                proof {
                    lemma_imports_stuck(defined, names, (i + 1) as nat, imports@.len() as nat);
                }
                return None;
            }
            i += 1;
        }
        let memory: u128 = m0 as u128 + m1 as u128 + m2 as u128;
        let file: u128 = header as u128 + f0 as u128 + f1 as u128 + f2 as u128;
        if memory > u64::MAX as u128 || file > u64::MAX as u128 {
            return None;
        }
        let text = SectionBuilder::new(CODE_SECTION_INDEX, m0).offset(header).addr(0).align(4).flags(
            S_ATTR_PURE_INSTRUCTIONS | S_ATTR_SOME_INSTRUCTIONS,
        );
        let plain = SectionBuilder::new(DATA_SECTION_INDEX, m1).offset(header + f0).addr(m0).align(
            3,
        ).flags(S_REGULAR);
        let strings = SectionBuilder::new(CSTRING_SECTION_INDEX, m2).offset(header + f0 + f1).addr(
            m0 + m1,
        ).align(0).flags(S_CSTRING_LITERALS);
        let mut sections: Vec<SectionBuilder> = Vec::new();
        sections.push(text);
        sections.push(plain);
        sections.push(strings);
        assert(sections@ =~= seq![text, plain, strings]);
        Some(SegmentBuilder { sections, offset: file as u64, size: memory as u64 })
    }
}

/// The names of a list of imports.
pub open spec fn import_texts(v: Seq<(&str, ImportKind)>) -> Seq<Seq<char>> {
    Seq::new(v.len(), |i: int| v[i].0@)
}

/// The segment of a file whose definitions are given section by section.
pub open spec fn segment_parts(
    ctx: Ctx,
    code: Seq<NamedDefinition>,
    data: Seq<NamedDefinition>,
    strings: Seq<NamedDefinition>,
    imports: Seq<Seq<char>>,
) -> Option<SegmentView> {
    let start = SymbolTableView { names: seq![Seq::<char>::empty()], symbols: Seq::empty() };
    let m0 = mem_size(code, code.len());
    let m1 = mem_size(data, data.len());
    let m2 = mem_size(strings, strings.len());
    let f0 = file_bytes(code, code.len()).len();
    let f1 = file_bytes(data, data.len()).len();
    let f2 = file_bytes(strings, strings.len()).len();
    let h = sizeof_header(ctx);
    match place(start, code, 0, 0, code.len()) {
        None => None,
        Some(t0) => match place(t0, data, 1, m0, data.len()) {
            None => None,
            Some(t1) => match place(t1, strings, 2, m0 + m1, strings.len()) {
                None => None,
                Some(t2) => match place_imports(t2, imports, imports.len()) {
                    None => None,
                    Some(table) => if m0 + m1 + m2 > u64::MAX || h + f0 + f1 + f2 > u64::MAX {
                        None
                    } else {
                        Some(
                            SegmentView {
                                table,
                                sections: seq![
                                    SectionBuilder {
                                        addr: 0,
                                        align: 4,
                                        offset: h as u64,
                                        size: m0 as u64,
                                        flags: section_flags(0),
                                        index: 0,
                                    },
                                    SectionBuilder {
                                        addr: m0 as u64,
                                        align: 3,
                                        offset: (h + f0) as u64,
                                        size: m1 as u64,
                                        flags: section_flags(1),
                                        index: 1,
                                    },
                                    SectionBuilder {
                                        addr: (m0 + m1) as u64,
                                        align: 0,
                                        offset: (h + f0 + f1) as u64,
                                        size: m2 as u64,
                                        flags: section_flags(2),
                                        index: 2,
                                    },
                                ],
                                size: (m0 + m1 + m2) as u64,
                                offset: (h + f0 + f1 + f2) as u64,
                            },
                        )
                    },
                },
            },
        },
    }
}

/// A Mach-O object file container
pub struct Mach<'a> {
    ctx: Ctx,
    architecture: Architecture,
    symtab: SymbolTable,
    segment: SegmentBuilder,
    text_relocations: Vec<Relocation>,
    data_relocations: Vec<Relocation>,
    code: Vec<Definition<'a>>,
    data: Vec<Definition<'a>>,
    cstrings: Vec<Definition<'a>>,
}

impl<'a> View for Mach<'a> {
    type V = MachView;

    closed spec fn view(&self) -> MachView {
        MachView {
            ctx: self.ctx,
            architecture: self.architecture,
            segment: SegmentView {
                table: self.symtab@,
                sections: self.segment.sections@,
                size: self.segment.size,
                offset: self.segment.offset,
            },
            text_relocations: self.text_relocations@,
            data_relocations: self.data_relocations@,
            contents: file_bytes(definitions_view(self.code@), self.code@.len()) + file_bytes(
                definitions_view(self.data@),
                self.data@.len(),
            ) + file_bytes(definitions_view(self.cstrings@), self.cstrings@.len()),
        }
    }
}

/// Append the bytes that the definitions take in the file to `out`
fn write_contents(out: &mut Vec<u8>, definitions: &Vec<Definition>)
    ensures
        final(out)@ == old(out)@ + file_bytes(definitions_view(definitions@), definitions@.len()),
{
    let ghost items = definitions_view(definitions@);
    let mut i: usize = 0;
    assert(out@ =~= old(out)@ + file_bytes(items, 0));
    while i < definitions.len()
        invariant
            i <= definitions@.len(),
            items == definitions_view(definitions@),
            out@ == old(out)@ + file_bytes(items, i as nat),
        decreases definitions@.len() - i,
    {
        assert(items[i as int] == definitions@[i as int]@);
        match definitions[i].data {
            Data::Blob(bytes) => {
                append_bytes(out, bytes.as_slice());
            },
            Data::ZeroInit(_) => {},
        }
        i += 1;
        assert(out@ =~= old(out)@ + file_bytes(items, i as nat));
    }
}

/// Append the encoded symbols to `out`
fn write_symbols(out: &mut Vec<u8>, symbols: &Vec<Symbol>, ctx: Ctx)
    ensures
        final(out)@ == old(out)@ + flatten(symbols@, nlist_encoder(ctx)),
{
    let mut i: usize = 0;
    assert(out@ =~= old(out)@ + flatten_first(symbols@, nlist_encoder(ctx), 0));
    while i < symbols.len()
        invariant
            i <= symbols@.len(),
            out@ == old(out)@ + flatten_first(symbols@, nlist_encoder(ctx), i as nat),
        decreases symbols@.len() - i,
    {
        let bytes = encode_nlist(&symbols[i], ctx);
        append_bytes(out, bytes.as_slice());
        i += 1;
        assert(out@ =~= old(out)@ + flatten_first(symbols@, nlist_encoder(ctx), i as nat));
    }
}

/// Append the encoded relocations to `out`
fn write_relocations(out: &mut Vec<u8>, relocations: &Vec<Relocation>, le: bool)
    ensures
        final(out)@ == old(out)@ + flatten(relocations@, relocation_encoder(le)),
{
    let mut i: usize = 0;
    assert(out@ =~= old(out)@ + flatten_first(relocations@, relocation_encoder(le), 0));
    while i < relocations.len()
        invariant
            i <= relocations@.len(),
            out@ == old(out)@ + flatten_first(relocations@, relocation_encoder(le), i as nat),
        decreases relocations@.len() - i,
    {
        let bytes = encode_relocation(&relocations[i], le);
        append_bytes(out, bytes.as_slice());
        i += 1;
        assert(out@ =~= old(out)@ + flatten_first(relocations@, relocation_encoder(le), i as nat));
    }
}

impl<'a> Mach<'a> {
    /// The symbol table is in order and there are three sections, which
    /// stand behind the header.
    pub closed spec fn wf(&self) -> bool {
        &&& self.symtab.wf()
        &&& self.segment.sections@.len() == 3
        &&& self.segment.offset >= sizeof_header(self.ctx)
    }

    /// A well-formed file has a well-formed symbol table.
    pub proof fn lemma_wf(&self)
        requires
            self.wf(),
        ensures
            self@.segment.table.wf(),
    {
        self.symtab.lemma_wf();
    }

    /// Lay out the definitions, the imports and the links of an artifact
    /// for the container of `target`
    pub fn new(
        target: &Target,
        definitions: &Vec<Definition<'a>>,
        imports: &Vec<(&str, ImportKind)>,
        links: &Vec<LinkAndDecl>,
    ) -> (r: Result<Mach<'a>, EmitError>)
        ensures
            r matches Err(e) ==> !(e is Undefined),
            r is Ok <==> mach_parts(
                *target,
                definitions_view(definitions@),
                import_texts(imports@),
                links_view(links@),
            ) is Some,
            r matches Ok(m) ==> m.wf() && Some(m@) == mach_parts(
                *target,
                definitions_view(definitions@),
                import_texts(imports@),
                links_view(links@),
            ),
    {
        let ctx = make_ctx(target);
        let code = partition(definitions, 0);
        let data = partition(definitions, 1);
        let cstrings = partition(definitions, 2);
        let mut symtab = SymbolTable::new();
        let segment = match SegmentBuilder::new(imports, &code, &data, &cstrings, &mut symtab, &ctx) {
            Some(segment) => segment,
            None => {
                return Err(EmitError::TooLarge);
            },
        };
        let (text_relocations, data_relocations) = match build_relocations(links, &symtab) {
            Ok(pair) => pair,
            Err(e) => {
                return Err(e);
            },
        };
        Ok(
            Mach {
                ctx,
                architecture: target.architecture,
                symtab,
                segment,
                text_relocations,
                data_relocations,
                code,
                data,
                cstrings,
            },
        )
    }

    /// The bytes of the file header
    fn header(&self, cputype: u32, sizeofcmds: u32) -> (r: Vec<u8>)
        ensures
            r@ == header_image(
                cputype,
                3,
                MH_OBJECT,
                (2, sizeofcmds),
                MH_SUBSECTIONS_VIA_SYMBOLS,
                self.ctx.big,
                self.ctx.le,
            ),
    {
        encode_header(cputype, 3, MH_OBJECT, 2, sizeofcmds, MH_SUBSECTIONS_VIA_SYMBOLS, self.ctx)
    }

    /// The symbols of the symbol table
    fn symbols(&self) -> (r: Vec<Symbol>)
        requires
            self.wf(),
        ensures
            r@ == Seq::new(
                self@.segment.table.symbols.len(),
                |i: int| self@.segment.table.symbols[i].symbol(),
            ),
    {
        let mut out: Vec<Symbol> = Vec::new();
        let mut i: usize = 0;
        while i < self.symtab.symbols.len()
            invariant
                self.wf(),
                i <= self.symtab.symbols@.len(),
                out@ == Seq::new(i as nat, |k: int| self.symtab.symbols@[k].symbol()),
            decreases self.symtab.symbols@.len() - i,
        {
            assert(self.symtab@.symbols[i as int] == self.symtab.symbols@[i as int]);
            out.push(self.symtab.symbols[i].create());
            i += 1;
            assert(out@ =~= Seq::new(i as nat, |k: int| self.symtab.symbols@[k].symbol()));
        }
        assert(out@ =~= Seq::new(
            self@.segment.table.symbols.len(),
            |i: int| self@.segment.table.symbols[i].symbol(),
        ));
        out
    }

    /// Finish the file and give its bytes
    #[verifier::rlimit(50)]
    pub fn write(self) -> (r: Result<Vec<u8>, EmitError>)
        requires
            self.wf(),
        ensures
            cputype_of(self@.architecture) is None ==> r == Err::<Vec<u8>, EmitError>(
                EmitError::UnsupportedArchitecture(self@.architecture),
            ),
            r matches Err(e) ==> !(e is Undefined),
            r is Ok <==> self@.fits(),
            r matches Ok(bytes) ==> bytes@ == self@.image(),
    {
        let ctx = self.ctx;
        let ghost v = self@;
        let cputype = match CpuType::from(self.architecture) {
            Some(t) => t.0,
            None => {
                return Err(EmitError::UnsupportedArchitecture(self.architecture));
            },
        };
        let nlist_size: u128 = if ctx.big {
            16
        } else {
            12
        };
        let header_size: u128 = if ctx.big {
            32
        } else {
            28
        };
        let cmds: u128 = SegmentBuilder::load_command_size(&ctx) as u128 + 24;
        let nsyms: u128 = self.symtab.len() as u128;
        let ntext: u128 = self.text_relocations.len() as u128;
        let ndata: u128 = self.data_relocations.len() as u128;
        proof {
            assert(nsyms * nlist_size == v.segment.table.symbols.len() * sizeof_nlist(ctx)) by (nonlinear_arith)
                requires
                    nsyms == v.segment.table.symbols.len(),
                    nlist_size == sizeof_nlist(ctx),
            ;
            assert(nsyms * nlist_size <= 0x1_0000_0000_0000_0000 * 16) by (nonlinear_arith)
                requires
                    nsyms <= 0x1_0000_0000_0000_0000,
                    nlist_size <= 16,
            ;
        }
        let symoff: u128 = self.segment.offset as u128 + cmds;
        let stroff: u128 = symoff + nsyms * nlist_size;
        let reloff: u128 = stroff + self.symtab.sizeof_strtable() as u128;
        let end: u128 = reloff + 8 * (ntext + ndata);
        if end > 0xffff_ffff {
            return Err(EmitError::TooLarge);
        }
        let mut text = self.segment.sections[0].create();
        text.offset = #[verifier::truncate] ((self.segment.sections[0].offset as u128 + cmds) as u32);
        text.nreloc = ntext as u32;
        text.reloff = reloff as u32;
        let mut plain = self.segment.sections[1].create();
        plain.offset = #[verifier::truncate] ((self.segment.sections[1].offset as u128 + cmds) as u32);
        plain.nreloc = ndata as u32;
        plain.reloff = (reloff + 8 * ntext) as u32;
        let mut strings = self.segment.sections[2].create();
        strings.offset =
        #[verifier::truncate]
        ((self.segment.sections[2].offset as u128 + cmds) as u32);
        let mut raw_sections = encode_section("__text", "__TEXT", &text, ctx);
        let second = encode_section("__data", "__DATA", &plain, ctx);
        append_bytes(&mut raw_sections, second.as_slice());
        let third = encode_section("__cstring", "__TEXT", &strings, ctx);
        append_bytes(&mut raw_sections, third.as_slice());
        assert(raw_sections@ == v.raw_sections());

        let mut out = self.header(cputype, cmds as u32);
        let segment = encode_segment(
            raw_sections.as_slice(),
            3,
            7,
            7,
            self.segment.size(),
            (header_size + cmds) as u64,
            self.segment.offset - header_size as u64,
            ctx,
        );
        append_bytes(&mut out, segment.as_slice());
        append_bytes(&mut out, raw_sections.as_slice());
        let symtab_command = encode_symtab(
            symoff as u32,
            nsyms as u32,
            stroff as u32,
            self.symtab.sizeof_strtable() as u32,
            ctx.le,
        );
        append_bytes(&mut out, symtab_command.as_slice());
        let ghost before = out@;
        write_contents(&mut out, &self.code);
        write_contents(&mut out, &self.data);
        write_contents(&mut out, &self.cstrings);
        assert(out@ =~= before + v.contents);
        let symbols = self.symbols();
        write_symbols(&mut out, &symbols, ctx);
        let strtable = self.symtab.strtable_bytes();
        append_bytes(&mut out, strtable.as_slice());
        write_relocations(&mut out, &self.text_relocations, ctx.le);
        write_relocations(&mut out, &self.data_relocations, ctx.le);
        out.push(0u8);
        assert(out@ =~= v.image());
        Ok(out)
    }
}

/// The Mach-O file of the given definitions, imports and links.
pub open spec fn mach_parts(
    target: Target,
    defs: Seq<NamedDefinition>,
    imports: Seq<Seq<char>>,
    links: Seq<NamedLink>,
) -> Option<MachView> {
    let ctx = ctx_of(target);
    match segment_of(ctx, defs, imports) {
        None => None,
        Some(segment) => match relocations_of(segment.table, links, links.len()) {
            None => None,
            Some((text, data)) => {
                let code = select(defs, 0, defs.len());
                let plain = select(defs, 1, defs.len());
                let strings = select(defs, 2, defs.len());
                Some(
                    MachView {
                        ctx,
                        architecture: target.architecture,
                        segment,
                        text_relocations: text,
                        data_relocations: data,
                        contents: file_bytes(code, code.len()) + file_bytes(plain, plain.len())
                            + file_bytes(strings, strings.len()),
                    },
                )
            },
        },
    }
}

/// The bytes of the Mach-O object file of an artifact
pub fn to_bytes(artifact: &Artifact) -> (r: Result<Vec<u8>, EmitError>)
    requires
        artifact.wf(),
    ensures
        r is Ok ==> mach_of(artifact@) is Some && mach_of(artifact@).unwrap().segment.table.wf(),
        mach_of(artifact@) is Some && cputype_of(artifact@.target.architecture) is None ==> r
            == Err::<Vec<u8>, EmitError>(
            EmitError::UnsupportedArchitecture(artifact@.target.architecture),
        ),
        r matches Err(e) ==> !(e is Undefined),
        r is Ok <==> mach_image(artifact@) is Some,
        r matches Ok(bytes) ==> Some(bytes@) == mach_image(artifact@),
{
    let definitions = artifact.definitions();
    let imports = artifact.imports();
    let links = artifact.links();
    proof {
        let a = artifact@;
        assert(definitions_view(definitions@) =~= a.named_definitions());
        assert(import_texts(imports@) =~= a.import_names());
        assert(links_view(links@) =~= a.named_links());
    }
    let mach = match Mach::new(artifact.target(), &definitions, &imports, &links) {
        Ok(mach) => mach,
        Err(e) => {
            return Err(e);
        },
    };
    proof {
        mach.lemma_wf();
    }
    mach.write()
}

} // verus!
