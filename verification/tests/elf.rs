use faerie::{
    Architecture, Artifact, ArtifactBuilder, BinaryFormat, Decl, Endianness, Link, PointerWidth,
    Reloc, SectionKind, Target,
};
use goblin::elf::reloc::{R_X86_64_64, R_X86_64_GOTPCREL, R_X86_64_PC32, R_X86_64_PLT32};
use goblin::elf::section_header::{self, SectionHeader};
use goblin::elf::sym::{self, Sym};

fn x86_64_elf() -> Target {
    Target {
        architecture: Architecture::X86_64,
        binary_format: BinaryFormat::Elf,
        pointer_width: Some(PointerWidth::U64),
        endianness: Some(Endianness::Little),
    }
}

#[test]
fn file_name_is_same_as_symbol_name_issue_31() {
    const NAME: &str = "a";
    let mut obj = Artifact::new(x86_64_elf(), "a".into());
    obj.declare(NAME, Decl::function().global().into())
        .expect("can declare");
    obj.define(NAME, vec![1, 2, 3, 4]).expect("can define");
    let bytes = obj.emit().expect("can emit elf file");
    let bytes = bytes.as_slice();

    let elf = goblin::Object::parse(&bytes).expect("can parse elf file");
    match elf {
        goblin::Object::Elf(elf) => {
            assert_eq!(elf.syms.len(), 4);
            let syms = elf.syms.iter().collect::<Vec<_>>();
            let sym = syms
                .iter()
                .find(|sym| sym.st_shndx == section_header::SHN_ABS as usize)
                .expect("There should be a SHN_ABS symbol");
            assert_eq!(&elf.strtab[sym.st_name], NAME);
            assert_eq!(sym.st_type(), sym::STT_FILE);

            let sym = syms
                .iter()
                .find(|sym| sym.st_type() == sym::STT_FUNC)
                .expect("There should be a STT_FUNC symbol");
            assert_eq!(&elf.strtab[sym.st_name], NAME);
        }
        _ => {
            println!("Elf file not parsed as elf file");
            assert!(false)
        }
    }
}

#[test]
fn link_symbol_pair_panic_issue_30() {
    let mut obj = Artifact::new(x86_64_elf(), "t.o".into());

    obj.declare("a", Decl::function().global().into())
        .expect("can declare a");
    obj.declare_with("b", Decl::function().global().into(), vec![1, 2, 3, 4])
        .expect("can declare and define b");

    obj.link(Link {
        to: "a",
        from: "b",
        at: 0,
    })
    .expect("can link from b to a");

    assert_eq!(obj.undefined_symbols(), vec![String::from("a")]);

    // The `emit` method will check that there are undefined symbols
    // and return an error describing them:
    assert!(obj.emit().is_err());
}

fn emit_with(cases: &[(&str, Decl)]) -> Vec<u8> {
    let mut obj = Artifact::new(x86_64_elf(), "a".into());
    for (name, decl) in cases {
        obj.declare(name, *decl).expect("declare");
        obj.define(name, vec![1, 2, 3, 4]).expect("define");
    }
    obj.emit().expect("can emit elf file")
}

fn find(elf: &goblin::elf::Elf, name: &str) -> (Sym, SectionHeader) {
    let sym = elf
        .syms
        .iter()
        .find(|sym| &elf.strtab[sym.st_name] == name)
        .expect("symbol should exist");
    let sectheader = elf
        .section_headers
        .get(sym.st_shndx)
        .expect("section header should exist");
    (sym, sectheader.clone())
}

#[test]
fn decl_attributes() {
    let cases: Vec<(&str, Decl)> = vec![
        ("weak_func", Decl::function().weak().into()),
        ("weak_data", Decl::data().weak().into()),
        ("weak_data_writable", Decl::data().weak().writable().into()),
        ("weak_cstring", Decl::cstring().weak().into()),
        ("hidden_func", Decl::function().hidden().into()),
        ("hidden_data", Decl::data().hidden().into()),
        ("hidden_cstring", Decl::cstring().hidden().into()),
        ("protected_func", Decl::function().protected().into()),
        ("protected_data", Decl::data().protected().into()),
        ("protected_cstring", Decl::cstring().protected().into()),
        ("ordinary_func", Decl::function().into()),
        ("custom_align_func", Decl::function().with_align(Some(64)).into()),
        ("custom_align_data", Decl::data().with_align(Some(128)).into()),
        ("executable_data", Decl::data().with_executable(true).into()),
        ("mutable_function", Decl::function().writable().into()),
    ];
    let bytes = emit_with(&cases);
    let elf = match goblin::Object::parse(&bytes).expect("can parse elf file") {
        goblin::Object::Elf(elf) => elf,
        _ => panic!("Elf file not parsed as elf file"),
    };

    let (sym, sect) = find(&elf, "weak_func");
    assert!(sym.is_function(), "symbol is function");
    assert!(sym.st_bind() == sym::STB_WEAK, "symbol is weak");
    assert!(sym.st_visibility() == sym::STV_DEFAULT, "symbol is default vis");
    assert!(sect.is_executable(), "executable");
    assert!(!sect.is_writable(), "immutable");

    let (sym, sect) = find(&elf, "weak_data");
    assert!(sym.st_type() == sym::STT_OBJECT, "symbol is object");
    assert!(sym.st_bind() == sym::STB_WEAK, "symbol is weak");
    assert!(sym.st_visibility() == sym::STV_DEFAULT, "symbol is default vis");
    assert!(!sect.is_executable(), "not executable");
    assert!(!sect.is_writable(), "immutable");

    let (sym, sect) = find(&elf, "weak_data_writable");
    assert!(sym.st_type() == sym::STT_OBJECT, "symbol is object");
    assert!(sym.st_bind() == sym::STB_WEAK, "symbol is weak");
    assert!(sym.st_visibility() == sym::STV_DEFAULT, "symbol is default vis");
    assert!(!sect.is_executable(), "not executable");
    assert!(sect.is_writable(), "mutable");

    let (sym, sect) = find(&elf, "weak_cstring");
    assert!(sym.st_type() == sym::STT_OBJECT, "symbol is object");
    assert!(sym.st_bind() == sym::STB_WEAK, "symbol is weak");
    assert!(sym.st_visibility() == sym::STV_DEFAULT, "symbol is default vis");
    assert!(!sect.is_executable(), "not executable");
    assert!(!sect.is_writable(), "immutable");

    let (sym, sect) = find(&elf, "hidden_func");
    assert!(sym.is_function(), "symbol is func");
    assert!(sym.st_bind() == sym::STB_LOCAL, "symbol is local");
    assert!(sym.st_visibility() == sym::STV_HIDDEN, "symbol is hidden");
    assert!(sect.is_executable(), "executable");
    assert!(!sect.is_writable(), "immutable");

    let (sym, sect) = find(&elf, "hidden_data");
    assert!(sym.st_type() == sym::STT_OBJECT, "symbol is object");
    assert!(sym.st_bind() == sym::STB_LOCAL, "symbol is local");
    assert!(sym.st_visibility() == sym::STV_HIDDEN, "symbol is hidden");
    assert!(!sect.is_executable(), "not executable");
    assert!(!sect.is_writable(), "immutable");

    let (sym, sect) = find(&elf, "hidden_cstring");
    assert!(sym.st_type() == sym::STT_OBJECT, "symbol is object");
    assert!(sym.st_bind() == sym::STB_LOCAL, "symbol is weak");
    assert!(sym.st_visibility() == sym::STV_HIDDEN, "symbol is hidden");
    assert!(!sect.is_executable(), "not executable");
    assert!(!sect.is_writable(), "immutable");

    let (sym, sect) = find(&elf, "protected_func");
    assert!(sym.is_function(), "symbol is func");
    assert!(sym.st_bind() == sym::STB_LOCAL, "symbol is local");
    assert!(sym.st_visibility() == sym::STV_PROTECTED, "symbol is protected");
    assert!(sect.is_executable(), "executable");
    assert!(!sect.is_writable(), "immutable");

    let (sym, sect) = find(&elf, "protected_data");
    assert!(sym.st_type() == sym::STT_OBJECT, "symbol is object");
    assert!(sym.st_bind() == sym::STB_LOCAL, "symbol is local");
    assert!(sym.st_visibility() == sym::STV_PROTECTED, "symbol is protected");
    assert!(!sect.is_executable(), "not executable");
    assert!(!sect.is_writable(), "immutable");

    let (sym, sect) = find(&elf, "protected_cstring");
    assert!(sym.st_type() == sym::STT_OBJECT, "symbol is object");
    assert!(sym.st_bind() == sym::STB_LOCAL, "symbol is weak");
    assert!(sym.st_visibility() == sym::STV_PROTECTED, "symbol is protected");
    assert!(!sect.is_executable(), "not executable");
    assert!(!sect.is_writable(), "immutable");

    let (sym, sect) = find(&elf, "ordinary_func");
    assert!(sym.is_function(), "symbol is function");
    assert!(sym.st_bind() == sym::STB_LOCAL, "symbol is local");
    assert!(sym.st_visibility() == sym::STV_DEFAULT, "symbol is default vis");
    assert!(sect.is_executable(), "executable");
    assert!(!sect.is_writable(), "immutable");
    assert!(sect.sh_addralign == 16, "aligned to 16");

    let (_sym, sect) = find(&elf, "custom_align_func");
    assert!(sect.sh_addralign == 64, "expected aligned to 64, got {}", sect.sh_addralign);

    let (_sym, sect) = find(&elf, "custom_align_data");
    assert!(sect.sh_addralign == 128, "expected aligned to 128, got {}", sect.sh_addralign);

    let (_sym, sect) = find(&elf, "executable_data");
    assert!(sect.is_executable(), "executable");

    let (_sym, sect) = find(&elf, "mutable_function");
    assert!(sect.is_writable(), "writable");
}

#[test]
fn section_permissions() {
    let mut obj = Artifact::new(x86_64_elf(), "a".into());
    obj.declare(
        "test",
        Decl::section(SectionKind::Text)
            .with_loaded(true)
            .with_writable(true)
            .with_executable(true)
            .into(),
    )
    .expect("Can declare section with permissions");
    obj.define("test", vec![1, 2, 3, 4])
        .expect("Can define section");

    let bytes = obj.emit().expect("can emit elf file");
    if let goblin::Object::Elf(elf) = goblin::Object::parse(&bytes).expect("can parse elf file") {
        let sect = elf
            .section_headers
            .iter()
            .find(|section| &elf.shdr_strtab[section.sh_name] == "test");

        if let Some(section) = sect {
            assert!(section.is_alloc());
            assert!(section.is_writable());
            assert!(section.is_executable());
        } else {
            panic!("Could not find test section")
        }
    } else {
        panic!("Elf file not parsed as elf file");
    }
}

#[test]
fn extended_symtab_issue_76() {
    let name = "extended_symtab.o";
    let mut obj = ArtifactBuilder::new(x86_64_elf())
        .name(name.to_string())
        .finish();
    for i in 0..0x10000 {
        let n = format!("func{}", i);
        let decl: Decl = Decl::function().global().into();
        obj.declare_with(&n, decl, vec![0xcc])
            .expect("can declare a function");
    }
    let bytes = obj
        .emit()
        .expect("can emit elf object file with 0x10000 functions");
    let elf = goblin::Object::parse(&bytes).expect("can parse elf file");
    match elf {
        goblin::Object::Elf(elf) => {
            assert_eq!(elf.header.e_shnum, 0);
            assert_eq!(elf.section_headers.len(), 65541);
            assert_eq!(elf.shdr_relocs.len(), 0);
            assert_eq!(elf.syms.len(), 131074);
            assert_eq!(elf.section_headers[0].sh_size, 65541);
            let table = elf
                .section_headers
                .iter()
                .find(|s| s.sh_type == section_header::SHT_SYMTAB_SHNDX)
                .expect("there is a table of extended section indices");
            assert_eq!(table.sh_size, 4 * 131074);
            assert_eq!(table.sh_link, 2);
            let at = |ordinal: usize| {
                let o = table.sh_offset as usize + 4 * ordinal;
                u32::from_le_bytes([bytes[o], bytes[o + 1], bytes[o + 2], bytes[o + 3]])
            };
            // the file symbol, the first section symbol, one below and one above the limit
            assert_eq!(at(1), 0xfff1);
            assert_eq!(at(2), 3);
            assert_eq!(at(2 + 0xfefc), 0xfeff);
            assert_eq!(at(2 + 0xfefd), 0xff00);
            let syms = elf.syms.iter().collect::<Vec<_>>();
            assert_eq!(syms[2 + 0xfefc].st_shndx, 0xfeff);
            assert_eq!(syms[2 + 0xfefd].st_shndx, 0xffff);
            // the symbol of the last function is in the last of their sections
            assert_eq!(at(131073), 3 + 0xffff);
            assert_eq!(syms[131073].st_shndx, 0xffff);
        }
        _ => {
            panic!("Elf file not parsed as elf file");
        }
    }
}

#[test]
fn symbol_table_order_and_strings() {
    let mut obj = Artifact::new(x86_64_elf(), "order.o".into());
    obj.declare("g", Decl::function().global().into()).unwrap();
    obj.declare("l", Decl::function().local().into()).unwrap();
    obj.declare("w", Decl::data().weak().into()).unwrap();
    obj.declare("ext", Decl::function_import().into()).unwrap();
    obj.define("g", vec![0xc3]).unwrap();
    obj.define("l", vec![0x90, 0xc3]).unwrap();
    obj.define("w", vec![1, 2, 3]).unwrap();
    let bytes = obj.emit().unwrap();
    let elf = match goblin::Object::parse(&bytes).unwrap() {
        goblin::Object::Elf(elf) => elf,
        _ => panic!("not elf"),
    };
    assert_eq!(elf.header.e_type, goblin::elf::header::ET_REL);
    assert_eq!(elf.header.e_machine, goblin::elf::header::EM_X86_64);
    let syms = elf.syms.iter().collect::<Vec<_>>();
    // null, file, 3 section symbols, l, w, g, ext
    assert_eq!(syms.len(), 9);
    assert_eq!(syms[0].st_name, 0);
    assert_eq!(syms[0].st_info, 0);
    assert_eq!(syms[1].st_type(), sym::STT_FILE);
    assert_eq!(&elf.strtab[syms[1].st_name], "order.o");
    let names: Vec<&str> = syms[5..].iter().map(|s| &elf.strtab[s.st_name]).collect();
    assert_eq!(names, vec!["l", "w", "g", "ext"]);
    assert_eq!(syms[5].st_info, 0x02);
    assert_eq!(syms[6].st_info, 0x21);
    assert_eq!(syms[7].st_info, 0x12);
    assert_eq!(syms[8].st_info, 0x10);
    assert_eq!(syms[5].st_size, 2);
    let symtab = elf
        .section_headers
        .iter()
        .find(|s| s.sh_type == section_header::SHT_SYMTAB)
        .unwrap();
    assert_eq!(symtab.sh_info, 7);
    assert_eq!(symtab.sh_link, 1);
    for (i, s) in syms.iter().enumerate() {
        assert_eq!(s.st_bind() != sym::STB_GLOBAL, i < symtab.sh_info as usize);
    }
    let strtab_header = &elf.section_headers[1];
    let off = strtab_header.sh_offset as usize;
    let table = &bytes[off..off + strtab_header.sh_size as usize];
    assert_eq!(table[0], 0);
    assert_eq!(*table.last().unwrap(), 0);
    for s in &syms {
        assert!(s.st_name < table.len());
    }
    let names: Vec<&str> = elf
        .section_headers
        .iter()
        .map(|s| &elf.shdr_strtab[s.sh_name])
        .collect();
    assert_eq!(
        names,
        vec!["", ".strtab", ".symtab", ".text.l", ".rodata.w", ".text.g", ".note.GNU-stack"]
    );
    let note = elf.section_headers.last().unwrap();
    assert_eq!(note.sh_size, 0);
    assert_eq!(elf.header.e_shnum, 7);
    assert_eq!(elf.section_headers[3].sh_offset, 64);
    assert_eq!(&bytes[64..66], &[0x90, 0xc3]);
}

#[test]
fn relocations_by_kind() {
    let mut obj = Artifact::new(x86_64_elf(), "r.o".into());
    obj.declare("f", Decl::function().global().into()).unwrap();
    obj.declare("h", Decl::function().into()).unwrap();
    obj.declare("d", Decl::data().global().writable().into()).unwrap();
    obj.declare("ef", Decl::function_import().into()).unwrap();
    obj.declare("ed", Decl::data_import().into()).unwrap();
    obj.define("f", vec![0; 32]).unwrap();
    obj.define("h", vec![0; 8]).unwrap();
    obj.define("d", vec![0; 16]).unwrap();
    obj.link(Link { from: "f", to: "h", at: 1 }).unwrap();
    obj.link(Link { from: "f", to: "ef", at: 6 }).unwrap();
    obj.link(Link { from: "f", to: "d", at: 11 }).unwrap();
    obj.link(Link { from: "f", to: "ed", at: 16 }).unwrap();
    obj.link(Link { from: "d", to: "f", at: 0 }).unwrap();
    obj.link_with(Link { from: "d", to: "h", at: 8 }, Reloc::Raw { reloc: 42, addend: 7 })
        .unwrap();
    let bytes = obj.emit().unwrap();
    let elf = match goblin::Object::parse(&bytes).unwrap() {
        goblin::Object::Elf(elf) => elf,
        _ => panic!("not elf"),
    };
    assert_eq!(elf.shdr_relocs.len(), 2);
    let mut seen = Vec::new();
    for (shndx, relocs) in &elf.shdr_relocs {
        let header = &elf.section_headers[*shndx];
        assert_eq!(header.sh_link, 2);
        assert!(header.sh_flags & section_header::SHF_INFO_LINK as u64 != 0);
        let target = &elf.shdr_strtab[elf.section_headers[header.sh_info as usize].sh_name];
        assert_eq!(&elf.shdr_strtab[header.sh_name], format!(".rela{}", target));
        for r in relocs.iter() {
            seen.push((target.to_string(), r.r_offset, r.r_type, r.r_addend, r.r_sym));
        }
    }
    // sections: 3 .text.h, 4 .text.f, 5 .data.d; symbols: 0 null, 1 file, 2..4 sections, 5 h, 6 f, 7 d, 8 ef, 9 ed
    assert_eq!(
        seen,
        vec![
            (".text.f".to_string(), 1, R_X86_64_PLT32, Some(-4), 2),
            (".text.f".to_string(), 6, R_X86_64_PLT32, Some(-4), 8),
            (".text.f".to_string(), 11, R_X86_64_PC32, Some(-4), 4),
            (".text.f".to_string(), 16, R_X86_64_GOTPCREL, Some(-4), 9),
            (".data.d".to_string(), 0, R_X86_64_64, Some(0), 3),
            (".data.d".to_string(), 8, 42, Some(7), 2),
        ]
    );
}

#[test]
fn debug_sections_and_relocations() {
    let mut obj = Artifact::new(x86_64_elf(), "dbg.o".into());
    obj.declare(".debug_str", Decl::section(SectionKind::Debug).into()).unwrap();
    obj.declare(".debug_info", Decl::section(SectionKind::Debug).into()).unwrap();
    obj.define(".debug_str", b"abc\0".to_vec()).unwrap();
    obj.define(".debug_info", vec![0; 16]).unwrap();
    obj.link_with(
        Link { from: ".debug_info", to: ".debug_str", at: 4 },
        Reloc::Debug { size: 4, addend: 0 },
    )
    .unwrap();
    obj.link_with(
        Link { from: ".debug_info", to: ".debug_str", at: 8 },
        Reloc::Debug { size: 8, addend: 3 },
    )
    .unwrap();
    let bytes = obj.emit().unwrap();
    let elf = match goblin::Object::parse(&bytes).unwrap() {
        goblin::Object::Elf(elf) => elf,
        _ => panic!("not elf"),
    };
    let strs = elf
        .section_headers
        .iter()
        .find(|s| &elf.shdr_strtab[s.sh_name] == ".debug_str")
        .unwrap();
    assert_eq!(strs.sh_type, section_header::SHT_PROGBITS);
    assert_eq!(
        strs.sh_flags,
        (section_header::SHF_MERGE | section_header::SHF_STRINGS) as u64
    );
    let info = elf
        .section_headers
        .iter()
        .find(|s| &elf.shdr_strtab[s.sh_name] == ".debug_info")
        .unwrap();
    assert_eq!(info.sh_flags, 0);
    let relocs: Vec<_> = elf.shdr_relocs[0].1.iter().collect();
    assert_eq!(relocs.len(), 2);
    assert_eq!(relocs[0].r_type, goblin::elf::reloc::R_X86_64_32);
    assert_eq!(relocs[1].r_type, goblin::elf::reloc::R_X86_64_64);
    assert_eq!(relocs[1].r_addend, Some(3));
    assert_eq!(relocs[0].r_sym, 2);

    // a size that is neither four nor eight has no relocation
    obj.link_with(
        Link { from: ".debug_info", to: ".debug_str", at: 12 },
        Reloc::Debug { size: 2, addend: 0 },
    )
    .unwrap();
    assert!(matches!(obj.emit(), Err(faerie::EmitError::UnsupportedRelocation)));
}

#[test]
fn elf_refuses_architectures_it_does_not_have() {
    let mut target = x86_64_elf();
    target.architecture = Architecture::Wasm32;
    let obj = Artifact::new(target, "w.o".into());
    assert!(matches!(
        obj.emit(),
        Err(faerie::EmitError::UnsupportedArchitecture(Architecture::Wasm32))
    ));
}

#[test]
fn thirty_two_bit_big_endian_elf() {
    let target = Target {
        architecture: Architecture::Powerpc,
        binary_format: BinaryFormat::Elf,
        pointer_width: Some(PointerWidth::U32),
        endianness: Some(Endianness::Big),
    };
    let mut obj = Artifact::new(target, "p.o".into());
    obj.declare("d", Decl::data().global().into()).unwrap();
    obj.declare("e", Decl::data().global().into()).unwrap();
    obj.define("d", vec![1, 2, 3, 4]).unwrap();
    obj.define("e", vec![5]).unwrap();
    obj.link(Link { from: "d", to: "e", at: 0 }).unwrap();
    let bytes = obj.emit().unwrap();
    assert_eq!(&bytes[0..6], &[0x7f, b'E', b'L', b'F', 1, 2]);
    let elf = match goblin::Object::parse(&bytes).unwrap() {
        goblin::Object::Elf(elf) => elf,
        _ => panic!("not elf"),
    };
    assert!(!elf.is_64);
    assert!(!elf.little_endian);
    assert_eq!(elf.header.e_machine, goblin::elf::header::EM_PPC);
    let relocs: Vec<_> = elf.shdr_relocs[0].1.iter().collect();
    assert_eq!(relocs[0].r_type, goblin::elf::reloc::R_X86_64_32);
    assert_eq!(elf.section_headers[3].sh_offset, 52);
}
