use faerie::{
    Architecture, Artifact, BinaryFormat, Decl, Endianness, Link, PointerWidth, Target,
};
use goblin::mach::{Mach, MachO};

fn x86_64_macho() -> Target {
    Target {
        architecture: Architecture::X86_64,
        binary_format: BinaryFormat::Macho,
        pointer_width: Some(PointerWidth::U64),
        endianness: Some(Endianness::Little),
    }
}

fn parse(bytes: &[u8]) -> MachO<'_> {
    match Mach::parse(bytes).expect("can parse mach-o file") {
        Mach::Binary(m) => m,
        _ => panic!("not a single mach-o file"),
    }
}

#[test]
fn mach_layout_and_symbols() {
    let mut obj = Artifact::new(x86_64_macho(), "m.o".into());
    obj.declare("main", Decl::function().global().into()).unwrap();
    obj.declare("helper", Decl::function().into()).unwrap();
    obj.declare("table", Decl::data().global().into()).unwrap();
    obj.declare("msg", Decl::cstring().into()).unwrap();
    obj.declare("printf", Decl::function_import().into()).unwrap();
    obj.define("main", vec![0x90; 10]).unwrap();
    obj.define("helper", vec![0xc3]).unwrap();
    obj.define("table", vec![0; 8]).unwrap();
    obj.define("msg", b"hi\0".to_vec()).unwrap();
    let bytes = obj.emit().unwrap();
    let mach = parse(&bytes);
    assert_eq!(mach.header.filetype, goblin::mach::header::MH_OBJECT);
    assert_eq!(mach.header.flags, goblin::mach::header::MH_SUBSECTIONS_VIA_SYMBOLS);
    assert_eq!(mach.header.ncmds, 2);
    assert_eq!(mach.header.cputype, goblin::mach::cputype::CPU_TYPE_X86_64);
    assert_eq!(mach.load_commands.len(), 2);
    assert_eq!(mach.segments.len(), 1);
    let segment = &mach.segments[0];
    assert_eq!(segment.nsects, 3);
    assert_eq!(segment.filesize, 22);
    assert_eq!(segment.vmsize, 22);
    assert_eq!(segment.fileoff, 32 + 72 + 3 * 80 + 24);
    let sections = segment.sections().unwrap();
    let names: Vec<(String, String)> = sections
        .iter()
        .map(|(s, _)| (s.name().unwrap().to_string(), s.segname().unwrap().to_string()))
        .collect();
    assert_eq!(
        names,
        vec![
            ("__text".to_string(), "__TEXT".to_string()),
            ("__data".to_string(), "__DATA".to_string()),
            ("__cstring".to_string(), "__TEXT".to_string()),
        ]
    );
    // locals come first: helper, then main; then table; then msg; then the import
    assert_eq!(sections[0].0.size, 11);
    assert_eq!(sections[0].0.align, 4);
    assert_eq!(sections[0].0.flags, 0x8000_0400);
    assert_eq!(sections[1].0.size, 8);
    assert_eq!(sections[1].0.addr, 11);
    assert_eq!(sections[1].0.align, 3);
    assert_eq!(sections[2].0.size, 3);
    assert_eq!(sections[2].0.flags, 2);
    assert_eq!(sections[2].0.align, 0);
    assert_eq!(sections[0].1, &[0xc3, 0x90, 0x90, 0x90, 0x90, 0x90, 0x90, 0x90, 0x90, 0x90, 0x90][..]);
    assert_eq!(sections[2].1, b"hi\0");
    let symbols: Vec<(String, u8, usize, u64)> = mach
        .symbols()
        .map(|s| s.unwrap())
        .map(|(name, n)| (name.to_string(), n.n_type, n.n_sect, n.n_value))
        .collect();
    assert_eq!(
        symbols,
        vec![
            ("_helper".to_string(), 0x0e, 1, 0),
            ("_main".to_string(), 0x0f, 1, 1),
            ("_table".to_string(), 0x0f, 2, 11),
            ("_msg".to_string(), 0x0e, 3, 19),
            ("_printf".to_string(), 0x01, 0, 0),
        ]
    );
    let symtab = mach
        .load_commands
        .iter()
        .find_map(|c| match c.command {
            goblin::mach::load_command::CommandVariant::Symtab(s) => Some(s),
            _ => None,
        })
        .unwrap();
    assert_eq!(bytes[symtab.stroff as usize], 0);
    assert_eq!(bytes[symtab.stroff as usize + 1], b'_');
    assert_eq!(symtab.strsize as usize, 1 + 8 + 6 + 7 + 5 + 8);
    assert_eq!(*bytes.last().unwrap(), 0);
}

#[test]
fn mach_relocations() {
    let mut obj = Artifact::new(x86_64_macho(), "m.o".into());
    obj.declare("f", Decl::function().global().into()).unwrap();
    obj.declare("g", Decl::function().global().into()).unwrap();
    obj.declare("d", Decl::data().global().into()).unwrap();
    obj.declare("s", Decl::cstring().global().into()).unwrap();
    obj.declare("ef", Decl::function_import().into()).unwrap();
    obj.declare("ed", Decl::data_import().into()).unwrap();
    obj.define("f", vec![0; 40]).unwrap();
    obj.define("g", vec![0; 4]).unwrap();
    obj.define("d", vec![0; 16]).unwrap();
    obj.define("s", b"x\0".to_vec()).unwrap();
    obj.link(Link { from: "g", to: "f", at: 1 }).unwrap();
    obj.link(Link { from: "g", to: "d", at: 2 }).unwrap();
    obj.link(Link { from: "f", to: "s", at: 3 }).unwrap();
    obj.link(Link { from: "f", to: "ef", at: 4 }).unwrap();
    obj.link(Link { from: "f", to: "ed", at: 5 }).unwrap();
    obj.link(Link { from: "d", to: "f", at: 0 }).unwrap();
    obj.link(Link { from: "d", to: "ef", at: 8 }).unwrap();
    obj.link(Link { from: "d", to: "d", at: 4 }).unwrap();
    let bytes = obj.emit().unwrap();
    let mach = parse(&bytes);
    let sections = mach.segments[0].sections().unwrap();
    assert_eq!(sections[0].0.nreloc, 5);
    assert_eq!(sections[1].0.nreloc, 3);
    assert_eq!(sections[2].0.nreloc, 0);
    assert_eq!(sections[1].0.reloff, sections[0].0.reloff + 5 * 8);
    let mut seen = Vec::new();
    for (_, iter, _) in mach.relocations().unwrap() {
        for r in iter.map(|r| r.unwrap()) {
            seen.push((
                r.r_address,
                r.r_symbolnum(),
                r.r_pcrel(),
                r.r_length(),
                r.r_extern(),
                r.r_type(),
            ));
        }
    }
    // symbols: 0 f, 1 g, 2 d, 3 s, 4 ef, 5 ed; g stands 40 bytes into the code
    assert_eq!(
        seen,
        vec![
            (41, 0, 1, 2, 1, 2),
            (42, 2, 1, 2, 1, 1),
            (3, 3, 1, 2, 1, 1),
            (4, 4, 1, 2, 1, 2),
            (5, 5, 1, 2, 1, 3),
            (0, 0, 0, 3, 1, 0),
            (8, 4, 0, 3, 1, 0),
            (4, 2, 0, 3, 1, 0),
        ]
    );
}

#[test]
fn mach_refuses_architectures_it_does_not_have() {
    let mut target = x86_64_macho();
    target.architecture = Architecture::Riscv64;
    let obj = Artifact::new(target, "r.o".into());
    assert!(matches!(
        obj.emit(),
        Err(faerie::EmitError::UnsupportedArchitecture(Architecture::Riscv64))
    ));
}

#[test]
fn mach_has_no_relocation_to_a_raw_section() {
    let mut obj = Artifact::new(x86_64_macho(), "m.o".into());
    obj.declare("f", Decl::function().into()).unwrap();
    obj.declare(".sec", Decl::section(faerie::SectionKind::Data).into()).unwrap();
    obj.define("f", vec![0; 8]).unwrap();
    obj.define(".sec", vec![0; 8]).unwrap();
    obj.link(Link { from: "f", to: ".sec", at: 0 }).unwrap();
    assert!(matches!(obj.emit(), Err(faerie::EmitError::UnsupportedRelocation)));
}
