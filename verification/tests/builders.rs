use faerie::elf::{
    select_reloc, MachineTag, RelocationBuilder, SectionBuilder, SectionType, SymbolBuilder,
    SymbolType,
};
use faerie::mach::CpuType;
use faerie::table::{append_bytes, pad_to, KeyIndex, StringTable};
use faerie::{Architecture, Ctx, Decl, DefinedDecl, ImportKind, Reloc, SectionKind};

fn defined(decl: Decl) -> DefinedDecl {
    match decl {
        Decl::Defined(d) => d,
        Decl::Import(_) => panic!("not a definition"),
    }
}

#[test]
fn elf_symbols_by_kind() {
    let f = defined(Decl::function().global().hidden().into());
    let s = SymbolBuilder::from_decl(&f).size(9).name_offset(5).section_index(7).create();
    assert_eq!(
        (s.st_name, s.st_info, s.st_other, s.st_shndx, s.st_value, s.st_size),
        (5, 0x12, 2, 7, 0, 9)
    );
    let d = defined(Decl::data().weak().protected().into());
    let s = SymbolBuilder::from_decl(&d).create();
    assert_eq!((s.st_info, s.st_other), (0x21, 3));
    let d = defined(Decl::data().local().into());
    assert_eq!(SymbolBuilder::from_decl(&d).create().st_info, 0x01);
    let sec = defined(Decl::section(SectionKind::Data).into());
    assert_eq!(SymbolBuilder::from_decl(&sec).create().st_info, 0x03);
    assert_eq!(SymbolBuilder::new(SymbolType::Section).create().st_info, 0x03);
    assert_eq!(SymbolBuilder::new(SymbolType::Import).create().st_info, 0x10);
    let file = SymbolBuilder::new(SymbolType::File).section_index(3).create();
    assert_eq!((file.st_info, file.st_shndx), (4, 0xfff1));
    let none = SymbolBuilder::new(SymbolType::Unset).create();
    assert_eq!((none.st_info, none.st_shndx, none.st_name), (0, 0, 0));
}

#[test]
fn elf_sections_by_type() {
    let ctx = Ctx { big: true, le: true };
    let small = Ctx { big: false, le: true };
    let code = SectionBuilder::new(10)
        .section_type(SectionType::Bits)
        .allocate()
        .executable(true)
        .name_offset(3)
        .create(&ctx);
    assert_eq!(
        (code.sh_type, code.sh_flags, code.sh_addralign, code.sh_size, code.sh_name),
        (1, 0x6, 16, 10, 3)
    );
    let data = SectionBuilder::new(1)
        .section_type(SectionType::Data)
        .allocate()
        .writable(true)
        .create(&ctx);
    assert_eq!((data.sh_type, data.sh_flags, data.sh_addralign), (1, 0x3, 8));
    let ro = SectionBuilder::new(1).section_type(SectionType::Data).allocate().create(&ctx);
    assert_eq!((ro.sh_flags, ro.sh_addralign), (0x2, 1));
    let aligned = SectionBuilder::new(1).section_type(SectionType::Data).align(Some(32)).create(&ctx);
    assert_eq!(aligned.sh_addralign, 32);
    let strings = SectionBuilder::new(1).section_type(SectionType::String).create(&ctx);
    assert_eq!((strings.sh_type, strings.sh_flags), (1, 0x30));
    let bss = SectionBuilder::new(8).section_type(SectionType::NoBits).create(&ctx);
    assert_eq!((bss.sh_type, bss.sh_flags, bss.sh_addralign), (8, 0x3, 0));
    let strtab = SectionBuilder::new(8).section_type(SectionType::StrTab).create(&ctx);
    assert_eq!((strtab.sh_type, strtab.sh_addralign, strtab.sh_entsize), (3, 1, 0));
    let symtab = SectionBuilder::new(8).section_type(SectionType::SymTab).create(&ctx);
    assert_eq!((symtab.sh_type, symtab.sh_addralign, symtab.sh_entsize), (2, 8, 24));
    assert_eq!(SectionBuilder::new(8).section_type(SectionType::SymTab).create(&small).sh_entsize, 16);
    let rela = SectionBuilder::new(8)
        .section_type(SectionType::Relocation)
        .allocate()
        .writable(true)
        .create(&ctx);
    assert_eq!((rela.sh_type, rela.sh_flags, rela.sh_entsize, rela.sh_addralign), (4, 0, 24, 8));
    assert_eq!(SectionBuilder::new(8).section_type(SectionType::Relocation).create(&small).sh_entsize, 12);
    let shndx = SectionBuilder::new(8).section_type(SectionType::SymTabShndx).create(&ctx);
    assert_eq!((shndx.sh_type, shndx.sh_entsize, shndx.sh_addralign), (18, 4, 4));
    let null = SectionBuilder::new(0).create(&ctx);
    assert_eq!((null.sh_type, null.sh_flags, null.sh_addralign), (0, 0, 0));
}

#[test]
fn elf_relocation_builder() {
    let r = RelocationBuilder::new(4).sym(3).offset(17).addend(-4).create();
    assert_eq!((r.r_offset, r.r_addend, r.r_sym, r.r_type), (17, Some(-4), 3, 4));
    assert_eq!(RelocationBuilder::new(1).create().r_addend, Some(0));
    assert_eq!(RelocationBuilder::new(1).rel().create().r_addend, None);
}

#[test]
fn elf_relocation_selection() {
    let f: Decl = Decl::function().into();
    let d: Decl = Decl::data().into();
    let s: Decl = Decl::section(SectionKind::Debug).into();
    let fi = Decl::Import(ImportKind::Function);
    let di = Decl::Import(ImportKind::Data);
    assert_eq!(select_reloc(Reloc::Auto, &f, &f, true), Some((4, -4)));
    assert_eq!(select_reloc(Reloc::Auto, &f, &fi, true), Some((4, -4)));
    assert_eq!(select_reloc(Reloc::Auto, &f, &d, true), Some((2, -4)));
    assert_eq!(select_reloc(Reloc::Auto, &f, &di, true), Some((9, -4)));
    assert_eq!(select_reloc(Reloc::Auto, &f, &s, true), None);
    assert_eq!(select_reloc(Reloc::Auto, &d, &f, true), Some((1, 0)));
    assert_eq!(select_reloc(Reloc::Auto, &d, &s, false), Some((10, 0)));
    assert_eq!(select_reloc(Reloc::Auto, &s, &f, true), None);
    assert_eq!(select_reloc(Reloc::Auto, &fi, &f, true), None);
    assert_eq!(select_reloc(Reloc::Raw { reloc: 77, addend: 5 }, &s, &s, true), Some((77, 5)));
    assert_eq!(select_reloc(Reloc::Debug { size: 4, addend: 1 }, &s, &s, true), Some((10, 1)));
    assert_eq!(select_reloc(Reloc::Debug { size: 8, addend: 2 }, &s, &s, true), Some((1, 2)));
    assert_eq!(select_reloc(Reloc::Debug { size: 3, addend: 2 }, &s, &s, true), None);
}

#[test]
fn machine_tags() {
    assert_eq!(MachineTag::from(Architecture::X86_64).map(|t| t.0), Some(62));
    assert_eq!(MachineTag::from(Architecture::I686).map(|t| t.0), Some(3));
    assert_eq!(MachineTag::from(Architecture::Aarch64).map(|t| t.0), Some(183));
    assert_eq!(MachineTag::from(Architecture::Riscv64gc).map(|t| t.0), Some(243));
    assert_eq!(MachineTag::from(Architecture::Unknown).map(|t| t.0), Some(0));
    assert!(MachineTag::from(Architecture::Wasm32).is_none());
    assert!(MachineTag::from(Architecture::Hexagon).is_none());
    assert_eq!(CpuType::from(Architecture::X86_64).map(|t| t.0), Some(0x0100_0007));
    assert_eq!(CpuType::from(Architecture::Arm).map(|t| t.0), Some(12));
    assert_eq!(CpuType::from(Architecture::Powerpc64le).map(|t| t.0), Some(0x0100_0012));
    assert!(CpuType::from(Architecture::Mips).is_none());
}

#[test]
fn mach_builders() {
    let s = faerie::mach::SymbolBuilder::new(9)
        .global(true)
        .offset(40)
        .relative_offset(4)
        .section(1);
    assert_eq!(s.get_segment_relative_offset(), 4);
    let n = s.create();
    assert_eq!((n.n_strx, n.n_type, n.n_sect, n.n_desc, n.n_value), (9, 0x0f, 2, 0, 40));
    let local = faerie::mach::SymbolBuilder::new(1).section(0).create();
    assert_eq!((local.n_type, local.n_sect), (0x0e, 1));
    let import = faerie::mach::SymbolBuilder::new(3).global(true).offset(8).import().create();
    assert_eq!((import.n_strx, import.n_type, import.n_sect, import.n_value), (3, 0x01, 0, 0));

    let r = faerie::mach::RelocationBuilder::new(5, 0x20, 2).create();
    assert_eq!((r.r_address, r.r_info), (0x20, 5 | 0x0d00_0000 | 0x2000_0000));
    let a = faerie::mach::RelocationBuilder::new(6, 8, 0).absolute().create();
    assert_eq!((a.r_address, a.r_info), (8, 6 | 0x0e00_0000));

    let h = faerie::mach::SectionBuilder::new(2, 30).addr(7).offset(100).align(3).flags(2).create();
    assert_eq!(
        (h.addr, h.size, h.offset, h.align, h.reloff, h.nreloc, h.flags),
        (7, 30, 100, 3, 0, 0, 2)
    );
    let d = faerie::mach::SectionBuilder::new(1, 1).create();
    assert_eq!((d.align, d.flags, d.offset), (4, 0, 0));
}

#[test]
fn mach_relocation_selection() {
    let f: Decl = Decl::function().into();
    let d: Decl = Decl::data().into();
    let c: Decl = Decl::cstring().into();
    let s: Decl = Decl::section(SectionKind::Data).into();
    let fi = Decl::Import(ImportKind::Function);
    let di = Decl::Import(ImportKind::Data);
    assert_eq!(faerie::mach::select_reloc(&d, &f), Some((true, 0)));
    assert_eq!(faerie::mach::select_reloc(&d, &fi), Some((true, 0)));
    assert_eq!(faerie::mach::select_reloc(&f, &f), Some((false, 2)));
    assert_eq!(faerie::mach::select_reloc(&c, &f), Some((false, 2)));
    assert_eq!(faerie::mach::select_reloc(&d, &d), Some((true, 0)));
    assert_eq!(faerie::mach::select_reloc(&f, &d), Some((false, 1)));
    assert_eq!(faerie::mach::select_reloc(&d, &c), Some((false, 1)));
    assert_eq!(faerie::mach::select_reloc(&f, &c), Some((false, 1)));
    assert_eq!(faerie::mach::select_reloc(&f, &fi), Some((false, 2)));
    assert_eq!(faerie::mach::select_reloc(&s, &fi), Some((false, 2)));
    assert_eq!(faerie::mach::select_reloc(&f, &di), Some((false, 3)));
    assert_eq!(faerie::mach::select_reloc(&d, &di), Some((false, 3)));
    assert_eq!(faerie::mach::select_reloc(&f, &s), None);
}

#[test]
fn key_index_keeps_first_positions() {
    let mut index = KeyIndex::new();
    assert_eq!(index.len(), 0);
    assert!(index.append(7));
    assert!(index.append(3));
    assert!(!index.append(7));
    assert_eq!(index.len(), 2);
    assert_eq!(index.position(7), Some(0));
    assert_eq!(index.position(3), Some(1));
    assert_eq!(index.position(4), None);
}

#[test]
fn string_table_offsets() {
    let mut table = StringTable::new();
    assert_eq!(table.size(), 1);
    assert_eq!(table.new_string("ab"), Some((0, 1)));
    assert_eq!(table.new_string("cde"), Some((1, 4)));
    assert_eq!(table.new_string("ab"), Some((0, 1)));
    assert_eq!(table.new_string("\u{e9}"), Some((2, 8)));
    assert_eq!(table.len(), 3);
    assert_eq!(table.size(), 11);
    assert_eq!(table.lookup("cde"), Some(1));
    assert_eq!(table.lookup("zz"), None);
    assert_eq!(table.resolve(1), Some("cde"));
    assert_eq!(table.resolve(3), None);
    assert_eq!(table.offset(2), 8);
    assert_eq!(table.bytes(), b"\0ab\0cde\0\xc3\xa9\0".to_vec());
}

#[test]
fn mach_symbol_table() {
    let mut table = faerie::mach::SymbolTable::new();
    assert_eq!(table.len(), 0);
    assert_eq!(table.sizeof_strtable(), 1);
    assert!(table.insert(
        "f",
        faerie::mach::SymbolType::Defined { section: 0, absolute_offset: 0, segment_relative_offset: 0, global: true }
    ));
    assert!(table.insert(
        "gg",
        faerie::mach::SymbolType::Defined { section: 1, absolute_offset: 9, segment_relative_offset: 5, global: false }
    ));
    assert!(table.insert("f", faerie::mach::SymbolType::Undefined));
    assert!(table.insert("", faerie::mach::SymbolType::Undefined));
    assert!(table.insert("imp", faerie::mach::SymbolType::Undefined));
    assert_eq!(table.len(), 3);
    assert_eq!(table.sizeof_strtable(), 1 + 3 + 4 + 5);
    assert_eq!(table.index("f"), Some(0));
    assert_eq!(table.index("gg"), Some(1));
    assert_eq!(table.index("imp"), Some(2));
    assert_eq!(table.index(""), None);
    assert_eq!(table.index("nope"), None);
    assert_eq!(table.offset("gg"), Some(5));
    assert_eq!(table.offset("nope"), None);
    assert_eq!(table.strtable_bytes(), b"\0_f\0_gg\0_imp\0".to_vec());
}

#[test]
fn byte_buffers() {
    let mut out = vec![1u8];
    append_bytes(&mut out, &[2, 3]);
    pad_to(&mut out, 6);
    pad_to(&mut out, 6);
    assert_eq!(out, vec![1, 2, 3, 0, 0, 0]);
}
