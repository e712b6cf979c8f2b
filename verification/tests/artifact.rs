use faerie::artifact::ArtifactError;
use faerie::target::make_ctx;
use goblin::mach::Mach;
use goblin::Object;
use faerie::{
    Architecture, Artifact, BinaryFormat, Decl, EmitError, Endianness, ImportKind, PointerWidth,
    SectionKind, Target,
};

fn x86_64() -> Target {
    Target {
        architecture: Architecture::X86_64,
        binary_format: BinaryFormat::Unknown,
        pointer_width: Some(PointerWidth::U64),
        endianness: Some(Endianness::Little),
    }
}

#[test]
fn duplicate_declarations_are_ok() {
    let mut obj = Artifact::new(x86_64(), "t.o".into());

    obj.declare("str.0", Decl::data_import().into())
        .expect("initial declaration");

    obj.declare("str.0", Decl::data().local().read_only().into())
        .expect("declare should be compatible");

    obj.define("str.0", b"hello world\0".to_vec())
        .expect("define");

    let mut obj = Artifact::new(x86_64(), "t.o".into());
    let decls: Vec<(&str, Decl)> = vec![
        ("str.0", Decl::data_import().into()),
        ("str.0", Decl::data().global().read_only().into()),
        ("str.0", Decl::data_import().into()),
        ("str.0", Decl::data_import().into()),
        ("str.0", Decl::data().global().read_only().into()),
        ("f", Decl::function_import().into()),
        ("f", Decl::function().global().into()),
        ("f", Decl::function_import().into()),
        ("f", Decl::function_import().into()),
        ("f", Decl::function().global().into()),
    ];
    obj.declarations(decls)
        .expect("multiple declarations are ok");
    assert_eq!(obj.imports().len(), 0);
}

#[test]
fn multiple_different_declarations_are_not_ok() {
    let mut obj = Artifact::new(x86_64(), "t.o".into());

    obj.declare("f", Decl::function_import().into())
        .expect("initial declaration");

    assert!(obj.declare("f", Decl::data().into()).is_err());
}

#[test]
fn multiple_different_conflicting_declarations_are_not_ok_and_do_not_overwrite() {
    let mut obj = Artifact::new(x86_64(), "t.o".into());
    assert!(obj
        .declarations(vec![
            ("f", Decl::function_import().into()),
            ("f", Decl::function().global().into()),
            ("f", Decl::function_import().into()),
            ("f", Decl::function_import().into()),
            ("f", Decl::function().into()),
        ])
        .is_err()); // multiple conflicting declarations are not ok
}

#[test]
fn import_declarations_fill_imports_correctly() {
    let mut obj = Artifact::new(x86_64(), "t.o".into());
    obj.declarations(vec![
        ("f", Decl::function_import().into()),
        ("f", Decl::function_import().into()),
        ("d", Decl::data_import().into()),
    ])
    .expect("can declare");
    let imports = obj.imports();
    assert_eq!(imports.len(), 2);
}

#[test]
fn import_declarations_work_with_redeclarations() {
    let mut obj = Artifact::new(x86_64(), "t.o".into());
    obj.declarations(vec![
        ("f", Decl::function_import().into()),
        ("d", Decl::data_import().into()),
        ("d", Decl::data_import().into()),
        ("f", Decl::function().global().into()),
        ("f", Decl::function_import().into()),
    ])
    .expect("can declare");
    let imports = obj.imports();
    assert_eq!(imports.len(), 1);
}

#[test]
fn import_helper_adds_declaration_only_once() {
    let mut obj = Artifact::new(x86_64(), "t.o".into());
    obj.import("f", ImportKind::Function).expect("can import");
    let imports = obj.imports();
    assert_eq!(imports.len(), 1);
}

#[test]
fn reject_duplicate_definitions() {
    let mut obj = Artifact::new(x86_64(), "t.o".into());
    obj.declarations(vec![
        ("f", Decl::function().global().into()),
        ("g", Decl::function().into()),
    ])
    .expect("can declare");

    obj.define("g", vec![1, 2, 3, 4]).expect("can define");
    // Reject duplicate definition:
    assert!(obj.define("g", vec![1, 2, 3, 4]).is_err());

    obj.define("f", vec![4, 3, 2, 1]).expect("can define");
    // Reject duplicate definitions:
    assert!(obj.define("g", vec![1, 2, 3, 4]).is_err());
    assert!(obj.define("f", vec![1, 2, 3, 4]).is_err());
}

#[test]
fn undefined_symbols() {
    let mut obj = Artifact::new(x86_64(), "t.o".into());
    obj.declarations(vec![
        ("f", Decl::function().global().into()),
        ("g", Decl::function().into()),
    ])
    .expect("can declare");
    assert_eq!(
        obj.undefined_symbols(),
        vec![String::from("f"), String::from("g")]
    );

    obj.define("g", vec![1, 2, 3, 4]).expect("can define");
    assert_eq!(obj.undefined_symbols(), vec![String::from("f")]);

    obj.define("f", vec![4, 3, 2, 1]).expect("can define");
    assert!(obj.undefined_symbols().is_empty());
}

#[test]
fn vary_output_formats() {
    let obj = Artifact::new(x86_64(), "t.o".into());
    assert!(obj.emit().is_err());

    let elf = obj.emit_as(BinaryFormat::Elf).unwrap();
    match Object::parse(&elf).unwrap() {
        Object::Elf(_) => {}
        _ => panic!("emitted as ELF but didn't parse as ELF"),
    }

    let mach = obj.emit_as(BinaryFormat::Macho).unwrap();
    match Object::parse(&mach).unwrap() {
        Object::Mach(_) => {}
        _ => panic!("emitted as MachO but didn't parse as MachO"),
    }

    assert!(matches!(
        obj.emit_as(BinaryFormat::Coff),
        Err(EmitError::UnsupportedFormat(BinaryFormat::Unknown))
    ));
}

#[test]
fn bss() {
    const SIZE: usize = 100_000_000_000_000;

    let mut artifact = Artifact::new(x86_64(), "bss".into());
    artifact
        .declare("my_data", Decl::data().global().into())
        .unwrap();
    artifact.define_zero_init("my_data", SIZE).unwrap();

    let elf = artifact.emit_as(BinaryFormat::Elf).unwrap();
    assert!(elf.len() < SIZE);
    match Object::parse(&elf).unwrap() {
        Object::Elf(elf) => {
            assert!(!elf.syms.is_empty());
            assert!(elf.syms.iter().any(|sym| sym.st_size == SIZE as u64));
        }
        _ => panic!("emitted as ELF but did not parse as ELF"),
    }

    let mach = artifact.emit_as(BinaryFormat::Macho).unwrap();
    assert!(mach.len() < SIZE);
    match Object::parse(&mach).unwrap() {
        Object::Mach(Mach::Binary(mach)) => {
            assert!(mach
                .segments
                .iter()
                .any(|segment| segment.vmsize == SIZE as u64));
        }
        _ => panic!("emitted as MACHO but did not parse as MACHO"),
    }
}

#[test]
fn invalid_bss() {
    let mut artifact = Artifact::new(x86_64(), "bss".into());
    artifact
        .declare("my_func", Decl::function().into())
        .unwrap();
    assert!(artifact.define_zero_init("my_func", 100).is_err());
    artifact
        .declare("my_section", Decl::section(SectionKind::Data).into())
        .unwrap();
    assert!(artifact.define_zero_init("my_section", 100).is_err());
}

#[test]
fn incompatible_declaration_names_both() {
    let mut obj = Artifact::new(x86_64(), "t.o".into());
    obj.declare("f", Decl::function_import().into()).unwrap();
    let new: Decl = Decl::data().into();
    match obj.declare("f", new) {
        Err(ArtifactError::IncompatibleDeclaration { old, new: got }) => {
            assert_eq!(old, Decl::Import(ImportKind::Function));
            assert_eq!(got, new);
        }
        other => panic!("unexpected {:?}", other),
    }
    // the earlier declaration stands
    assert_eq!(obj.imports().len(), 1);
    assert_eq!(obj.imports()[0], ("f", ImportKind::Function));
}

#[test]
fn each_definition_error() {
    let mut obj = Artifact::new(x86_64(), "t.o".into());
    assert!(matches!(
        obj.define("nobody", vec![1]),
        Err(ArtifactError::Undeclared(ref n)) if n == "nobody"
    ));
    obj.declare("imp", Decl::data_import().into()).unwrap();
    assert!(matches!(
        obj.define("imp", vec![1]),
        Err(ArtifactError::ImportDefined(ref n)) if n == "imp"
    ));
    obj.declare("f", Decl::function().into()).unwrap();
    assert!(matches!(
        obj.define_with_symbols(
            "f",
            faerie::Data::Blob(vec![1]),
            vec![("s".to_string(), 0)]
        ),
        Err(ArtifactError::NonSectionCustomSymbols(_, ref syms)) if syms.len() == 1
    ));
    assert!(matches!(
        obj.define_zero_init("f", 4),
        Err(ArtifactError::InvalidZeroInit(_))
    ));
    obj.define("f", vec![1]).unwrap();
    assert!(matches!(
        obj.define("f", vec![1]),
        Err(ArtifactError::DuplicateDefinition(ref n)) if n == "f"
    ));
    // a failed definition leaves nothing behind
    assert_eq!(obj.undefined_symbols().len(), 0);
}

#[test]
fn each_link_error() {
    let mut obj = Artifact::new(x86_64(), "t.o".into());
    obj.declare("imp", Decl::function_import().into()).unwrap();
    obj.declare("f", Decl::function().into()).unwrap();
    assert!(matches!(
        obj.link(faerie::Link { from: "ghost", to: "f", at: 0 }),
        Err(ArtifactError::Undeclared(ref n)) if n == "ghost"
    ));
    assert!(matches!(
        obj.link(faerie::Link { from: "f", to: "ghost2", at: 0 }),
        Err(ArtifactError::Undeclared(ref n)) if n == "ghost2"
    ));
    assert!(matches!(
        obj.link(faerie::Link { from: "imp", to: "f", at: 0 }),
        Err(ArtifactError::RelocateImport(ref n)) if n == "imp"
    ));
    obj.link(faerie::Link { from: "f", to: "imp", at: 1 }).unwrap();
}

#[test]
fn emit_lists_every_undefined_name() {
    let mut obj = Artifact::new(x86_64(), "t.o".into());
    obj.declare("a", Decl::function().global().into()).unwrap();
    obj.declare("b", Decl::data().into()).unwrap();
    obj.declare("i", Decl::data_import().into()).unwrap();
    match obj.emit_as(BinaryFormat::Elf) {
        Err(EmitError::Undefined(names)) => {
            assert_eq!(names, vec!["a".to_string(), "b".to_string()])
        }
        other => panic!("unexpected {:?}", other),
    }
    obj.define("a", vec![0xc3]).unwrap();
    obj.define("b", vec![1, 2]).unwrap();
    assert!(obj.undefined_symbols().is_empty());
    assert!(obj.emit_as(BinaryFormat::Elf).is_ok());
    assert!(obj.emit_as(BinaryFormat::Macho).is_ok());
}

#[test]
fn builder_defaults() {
    let a = faerie::ArtifactBuilder::new(x86_64()).finish();
    assert_eq!(a.name, "faerie.o");
    assert!(!a.is_library);
    let b = faerie::ArtifactBuilder::new(x86_64())
        .name("x.o".to_string())
        .library(true)
        .finish();
    assert_eq!(b.name, "x.o");
    assert!(b.is_library);
    assert_eq!(b.target, x86_64());
}

#[test]
fn data_lengths() {
    assert_eq!(faerie::Data::Blob(vec![1, 2, 3]).len(), 3);
    assert_eq!(faerie::Data::ZeroInit(7).len(), 7);
    assert!(faerie::Data::ZeroInit(0).is_empty());
    assert!(!faerie::Data::ZeroInit(1).is_empty());
    assert!(faerie::Data::ZeroInit(1).is_zero_init());
    assert!(!faerie::Data::Blob(vec![]).is_zero_init());
}

#[test]
fn context_of_targets() {
    let mut t = x86_64();
    assert_eq!(make_ctx(&t), faerie::Ctx { big: true, le: true });
    t.pointer_width = Some(PointerWidth::U32);
    t.endianness = Some(Endianness::Big);
    assert_eq!(make_ctx(&t), faerie::Ctx { big: false, le: false });
    t.pointer_width = Some(PointerWidth::U16);
    assert_eq!(make_ctx(&t), faerie::Ctx { big: true, le: true });
    t.pointer_width = None;
    assert_eq!(make_ctx(&t), faerie::Ctx { big: true, le: true });
    assert_eq!(faerie::Ctx { big: false, le: true }.size(), 4);
    assert_eq!(faerie::Ctx { big: true, le: true }.size(), 8);
}

#[test]
fn absorption_table() {
    let fi: Decl = Decl::function_import().into();
    let di: Decl = Decl::data_import().into();
    let f: Decl = Decl::function().global().into();
    let f2: Decl = Decl::function().into();
    let d: Decl = Decl::data().into();
    let s: Decl = Decl::section(SectionKind::Debug).into();
    // (old, new, result or None for an error)
    let cases = vec![
        (fi, fi, Some(fi)),
        (fi, f, Some(f)),
        (fi, di, None),
        (fi, d, None),
        (fi, s, None),
        (di, di, Some(di)),
        (di, d, Some(d)),
        (di, f, None),
        (f, fi, Some(f)),
        (f, f, Some(f)),
        (f, f2, None),
        (f, di, None),
        (d, di, Some(d)),
        (d, d, Some(d)),
        (d, fi, None),
        (s, s, Some(s)),
        (s, fi, None),
        (s, d, None),
    ];
    for (old, new, expected) in cases {
        let mut current = old;
        let r = current.absorb(new);
        match expected {
            Some(e) => {
                assert!(r.is_ok());
                assert_eq!(current, e);
            }
            None => {
                assert!(r.is_err());
                assert_eq!(current, old);
            }
        }
    }
}
