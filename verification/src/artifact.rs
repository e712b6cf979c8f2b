//! An artifact is a platform-independent description of an object file under
//! construction: declarations, definitions, imports and links between names.

use vstd::prelude::*;
use indexmap::IndexMap;
use crate::decl::{absorbed, compatible, Decl, DefinedDecl, ImportKind};
use crate::interner::{
    has_key, index_entries, index_get, index_get_index, index_insert, index_new,
    interned,
    interner_get_or_intern, interner_new, interner_resolve, Interner,
};
use crate::target::{Architecture, BinaryFormat, Target};

verus! {

/// The data to be stored in an artifact: a function body or a data object
#[derive(Debug)]
pub enum Data {
    /// A blob of bytes
    Blob(Vec<u8>),
    /// Zero-initialised data of a given size, which takes no room in the file
    ZeroInit(usize),
}

/// The kind of relocation for a link
#[derive(Debug, Copy, Clone, PartialEq, Eq, Structural)]
pub enum Reloc {
    /// The backend chooses by the declarations of the two ends of the link
    Auto,
    /// A raw relocation and its addend, handed to the backend as they are
    Raw {
        /// Raw relocation, as an integer value to be encoded by the backend
        reloc: u32,
        /// Raw addend
        addend: i32,
    },
    /// An absolute relocation in a debug section
    Debug {
        /// Size in bytes of the pointer to be relocated
        size: u8,
        /// Addend for the relocation
        addend: i32,
    },
}

/// The ways in which emitting an artifact can fail
#[derive(Debug)]
pub enum EmitError {
    /// These names are declared and no imports, but have no definition
    Undefined(Vec<String>),
    /// The format is neither ELF nor Mach-O
    UnsupportedFormat(BinaryFormat),
    /// The architecture does not exist in the format
    UnsupportedArchitecture(Architecture),
    /// No relocation is known for the two ends of a link
    UnsupportedRelocation,
    /// A definition that the format has no place for
    UnsupportedDefinition,
    /// A link refers to a name for which the file has no symbol
    MissingSymbol,
    /// Two sections or two symbols of the file would have one name
    Duplicate,
    /// A definition that is not global came after a global one or an import
    Misordered,
    /// A size or an offset of the file is beyond what can be counted
    TooLarge,
}

/// The kinds of errors that can befall someone creating an artifact
#[derive(Debug)]
pub enum ArtifactError {
    /// A name was used before it was declared
    Undeclared(String),
    /// Attempt to define an import
    ImportDefined(String),
    /// Attempt to put a relocation inside an import
    RelocateImport(String),
    /// A declaration that the earlier declaration of the name cannot absorb
    IncompatibleDeclaration {
        /// Previously provided declaration
        old: Decl,
        /// Declaration that caused this error
        new: Decl,
    },
    /// A second definition of a name
    DuplicateDefinition(String),
    /// Zero-initialised contents for something that is not a data object
    InvalidZeroInit(DefinedDecl),
    /// Custom symbols for something that is not a section
    NonSectionCustomSymbols(DefinedDecl, Vec<(String, u64)>),
}

/// A recorded link: the relocation at offset `at` of `from` refers to `to`.
/// Both ends are positions of interned names.
#[derive(Debug, Copy, Clone, PartialEq, Eq, Structural)]
pub struct Relocation {
    /// The name the relocation is in
    pub from: usize,
    /// The name the relocation refers to
    pub to: usize,
    /// Byte offset within `from`
    pub at: u64,
    /// The kind of relocation
    pub reloc: Reloc,
}

/// A definition as the artifact stores it
#[derive(Debug)]
pub struct InternalDefinition {
    /// The declaration the definition was made under
    pub decl: DefinedDecl,
    /// Position of the interned name
    pub name: usize,
    /// Custom symbols of a section: name and offset within the section
    pub symbols: Vec<(String, u64)>,
    /// The contents
    pub data: Data,
}

/// A declaration, plus a flag to track whether there is a definition for it yet
#[derive(Debug, Copy, Clone, PartialEq, Eq, Structural)]
pub struct InternalDecl {
    /// The declaration
    pub decl: Decl,
    /// Whether the name has been defined
    pub defined: bool,
}

/// A binding of a raw name to its declaration
#[derive(Debug)]
pub struct Binding<'a> {
    /// Name of symbol
    pub name: &'a str,
    /// Declaration of symbol
    pub decl: &'a Decl,
}

/// A relocation binding one declaration to another
#[derive(Debug)]
pub struct LinkAndDecl<'a> {
    /// Relocation is inside this symbol
    pub from: Binding<'a>,
    /// Targeting this symbol
    pub to: Binding<'a>,
    /// Offset into `from`
    pub at: u64,
    /// Type of relocation to use
    pub reloc: Reloc,
}

/// An abstract relocation linking one symbol to another, at an offset
pub struct Link<'a> {
    /// The relocation is relative `from` this symbol
    pub from: &'a str,
    /// The relocation is `to` this symbol
    pub to: &'a str,
    /// The byte offset relative to `from` where the relocation should be performed
    pub at: u64,
}

/// The content of a `Data`.
pub enum DataView {
    /// A blob of bytes
    Blob(Seq<u8>),
    /// Zero-initialised data of a given size
    ZeroInit(usize),
}

impl DataView {
    /// The length of the data: for zero-initialised data, the room it takes
    /// once loaded.
    pub open spec fn len(self) -> nat {
        match self {
            DataView::Blob(blob) => blob.len(),
            DataView::ZeroInit(size) => size as nat,
        }
    }

    /// The bytes the data takes in a file: none for zero-initialised data.
    pub open spec fn file_bytes(self) -> Seq<u8> {
        match self {
            DataView::Blob(blob) => blob,
            DataView::ZeroInit(_) => Seq::<u8>::empty(),
        }
    }
}

impl View for Data {
    type V = DataView;

    open spec fn view(&self) -> DataView {
        match *self {
            Data::Blob(blob) => DataView::Blob(blob@),
            Data::ZeroInit(size) => DataView::ZeroInit(size),
        }
    }
}

/// The custom symbols of a list, each name by its characters.
pub open spec fn symbol_texts(s: Seq<(String, u64)>) -> Seq<(Seq<char>, u64)> {
    Seq::new(s.len(), |i: int| (s[i].0@, s[i].1))
}

/// The content of a stored definition.
pub struct DefinitionView {
    /// The declaration the definition was made under
    pub decl: DefinedDecl,
    /// Position of the interned name
    pub name: usize,
    /// Custom symbols of a section: name and offset within the section
    pub symbols: Seq<(Seq<char>, u64)>,
    /// The contents
    pub data: DataView,
}

impl View for InternalDefinition {
    type V = DefinitionView;

    open spec fn view(&self) -> DefinitionView {
        DefinitionView {
            decl: self.decl,
            name: self.name,
            symbols: symbol_texts(self.symbols@),
            data: self.data@,
        }
    }
}

impl Data {
    /// The length of the data: for zero-initialised data, the room it takes
    /// once loaded.
    pub open spec fn spec_len(&self) -> usize {
        self@.len() as usize
    }

    /// Return the length of the data stored in this object: for zero-initialised
    /// data, the amount of space taken up once the program is loaded.
    #[verifier::when_used_as_spec(spec_len)]
    pub fn len(&self) -> (r: usize)
        ensures
            r == self.spec_len(),
            r == self@.len(),
    {
        match self {
            Data::Blob(blob) => blob.len(),
            Data::ZeroInit(size) => *size,
        }
    }

    /// Return whether the data has no byte
    pub fn is_empty(&self) -> (r: bool)
        ensures
            r == (self.spec_len() == 0),
    {
        match self {
            Data::Blob(blob) => blob.len() == 0,
            Data::ZeroInit(size) => *size == 0,
        }
    }

    /// Return whether this data is zero-initialised
    pub fn is_zero_init(&self) -> (r: bool)
        ensures
            r == (*self is ZeroInit),
    {
        match self {
            Data::ZeroInit(_) => true,
            Data::Blob(_) => false,
        }
    }
}

impl InternalDecl {
    /// Wrap up a declaration. Initially marked as not defined.
    pub fn new(decl: Decl) -> (r: Self)
        ensures
            r == (InternalDecl { decl, defined: false }),
    {
        Self { decl, defined: false }
    }

    /// Mark a declaration as defined.
    pub fn define(&mut self)
        ensures
            *final(self) == (InternalDecl { decl: old(self).decl, defined: true }),
    {
        self.defined = true;
    }
}

/// Whether no string occurs twice in `names`.
pub open spec fn distinct_names(names: Seq<Seq<char>>) -> bool {
    forall|i: int, j: int|
        0 <= i < names.len() && 0 <= j < names.len() && i != j ==> #[trigger] names[i]
            != #[trigger] names[j]
}

/// In a list without repetition, the position of a string is the one place
/// where it stands.
pub proof fn lemma_position(names: Seq<Seq<char>>, name: Seq<char>, i: int)
    requires
        distinct_names(names),
        0 <= i < names.len(),
        names[i] == name,
    ensures
        names.contains(name),
        names.index_of(name) == i,
{
    let j = names.index_of(name);
    assert(0 <= j < names.len() && names[j] == name);
}

/// The imports with `(id, kind)` added last, unless `id` is among them.
pub open spec fn add_import(imports: Seq<(usize, ImportKind)>, id: usize, kind: ImportKind) -> Seq<
    (usize, ImportKind),
> {
    if exists|i: int| 0 <= i < imports.len() && (#[trigger] imports[i]).0 == id {
        imports
    } else {
        imports.push((id, kind))
    }
}

/// The imports without the entry of `id`: the last entry takes its place.
pub open spec fn remove_import(imports: Seq<(usize, ImportKind)>, id: usize) -> Seq<
    (usize, ImportKind),
> {
    if exists|i: int| 0 <= i < imports.len() && (#[trigger] imports[i]).0 == id {
        let i = choose|i: int| 0 <= i < imports.len() && (#[trigger] imports[i]).0 == id;
        imports.update(i, imports.last()).drop_last()
    } else {
        imports
    }
}

/// What becomes of an attempt to define a name.
pub enum DefineOutcome {
    /// The name was never declared
    Undeclared,
    /// The name has a definition already
    Duplicate,
    /// The name is an import
    Import,
    /// Custom symbols were given for something that is not a section
    CustomSymbols(DefinedDecl),
    /// Zero-initialised contents were given for something that is not data
    ZeroInit(DefinedDecl),
    /// The definition is accepted under this declaration
    Accepted(DefinedDecl),
}

/// What becomes of an attempt to link two names.
pub enum LinkOutcome {
    /// The source was never declared
    UndeclaredFrom,
    /// The destination was never declared
    UndeclaredTo,
    /// The source is an import
    FromImport,
    /// The link is recorded
    Accepted,
}

/// The mathematical content of an artifact.
///
/// Names are interned: a name is known by its position in `names`, and every
/// other component refers to names by position.
pub struct ArtifactView {
    /// The name of the artifact
    pub name: Seq<char>,
    /// The target of the artifact
    pub target: Target,
    /// Whether the artifact is marked as a library
    pub is_library: bool,
    /// The interned names, without repetition
    pub names: Seq<Seq<char>>,
    /// The declarations in the order in which their names were first declared
    pub decls: Seq<(usize, InternalDecl)>,
    /// The names that are imports, with their kinds
    pub imports: Seq<(usize, ImportKind)>,
    /// The recorded links
    pub links: Seq<Relocation>,
    /// The definitions whose declaration is not global, oldest first
    pub locals: Seq<DefinitionView>,
    /// The definitions whose declaration is global, oldest first
    pub nonlocals: Seq<DefinitionView>,
}

impl ArtifactView {
    /// What an empty artifact holds.
    pub open spec fn empty(name: Seq<char>, target: Target, is_library: bool) -> ArtifactView {
        ArtifactView {
            name,
            target,
            is_library,
            names: Seq::empty(),
            decls: Seq::empty(),
            imports: Seq::empty(),
            links: Seq::empty(),
            locals: Seq::empty(),
            nonlocals: Seq::empty(),
        }
    }

    /// Names are not repeated, no name has two declarations or two import
    /// entries, every position used refers to an interned name, both ends
    /// of a link are declared and its source is no import, and every
    /// entry of the imports names a declared import, and every definition
    /// stands under the declaration of its name, which is marked defined
    /// and has no other definition of its kind of scope.
    pub open spec fn wf(self) -> bool {
        &&& distinct_names(self.names)
        &&& self.names.len() <= usize::MAX
        &&& forall|i: int, j: int|
            0 <= i < self.decls.len() && 0 <= j < self.decls.len() && i != j ==> (
            #[trigger] self.decls[i]).0 != (#[trigger] self.decls[j]).0
        &&& forall|i: int| 0 <= i < self.decls.len() ==> (#[trigger] self.decls[i]).0 < self.names.len()
        &&& forall|i: int, j: int|
            0 <= i < self.imports.len() && 0 <= j < self.imports.len() && i != j ==> (
            #[trigger] self.imports[i]).0 != (#[trigger] self.imports[j]).0
        &&& forall|i: int|
            0 <= i < self.imports.len() ==> (#[trigger] self.imports[i]).0 < self.names.len()
        &&& forall|i: int|
            0 <= i < self.links.len() ==> (#[trigger] self.links[i]).from < self.names.len()
                && self.links[i].to < self.names.len()
        &&& forall|i: int| 0 <= i < self.links.len() ==> self.link_ok(#[trigger] self.links[i])
        &&& forall|i: int|
            0 <= i < self.locals.len() ==> (#[trigger] self.locals[i]).name < self.names.len()
                && !self.locals[i].decl.spec_is_global()
        &&& forall|i: int|
            0 <= i < self.nonlocals.len() ==> (#[trigger] self.nonlocals[i]).name
                < self.names.len() && self.nonlocals[i].decl.spec_is_global()
        &&& forall|i: int|
            0 <= i < self.imports.len() ==> self.import_ok(#[trigger] self.imports[i])
        &&& forall|i: int|
            0 <= i < self.locals.len() ==> self.definition_ok(#[trigger] self.locals[i])
        &&& forall|i: int|
            0 <= i < self.nonlocals.len() ==> self.definition_ok(#[trigger] self.nonlocals[i])
        &&& forall|i: int, j: int|
            0 <= i < self.locals.len() && 0 <= j < self.locals.len() && i != j ==> (
            #[trigger] self.locals[i]).name != (#[trigger] self.locals[j]).name
        &&& forall|i: int, j: int|
            0 <= i < self.nonlocals.len() && 0 <= j < self.nonlocals.len() && i != j ==> (
            #[trigger] self.nonlocals[i]).name != (#[trigger] self.nonlocals[j]).name
    }

    /// The content after `name` was interned.
    pub open spec fn intern(self, name: Seq<char>) -> ArtifactView {
        ArtifactView {
            names: if self.names.contains(name) {
                self.names
            } else {
                self.names.push(name)
            },
            ..self
        }
    }

    /// The position of an interned name.
    pub open spec fn id_of(self, name: Seq<char>) -> usize {
        self.names.index_of(name) as usize
    }

    /// Whether the name at position `id` has a declaration.
    pub open spec fn has_decl(self, id: usize) -> bool {
        exists|i: int| 0 <= i < self.decls.len() && (#[trigger] self.decls[i]).0 == id
    }

    /// Where the declaration of the name at position `id` stands.
    pub open spec fn slot_of(self, id: usize) -> int {
        choose|i: int| 0 <= i < self.decls.len() && (#[trigger] self.decls[i]).0 == id
    }

    /// The declaration of the name at position `id`.
    pub open spec fn decl_at(self, id: usize) -> Decl {
        self.decls[self.slot_of(id)].1.decl
    }

    /// Both ends of a link are declared, and the source is no import.
    pub open spec fn link_ok(self, l: Relocation) -> bool {
        self.has_decl(l.from) && self.has_decl(l.to) && self.decl_at(l.from) is Defined
    }

    /// An entry of the imports names a declared import of its kind.
    pub open spec fn import_ok(self, e: (usize, ImportKind)) -> bool {
        self.has_decl(e.0) && self.decls[self.slot_of(e.0)].1.decl == Decl::Import(e.1)
    }

    /// A definition stands under the declaration of its name, and that
    /// declaration is marked defined.
    pub open spec fn definition_ok(self, d: DefinitionView) -> bool {
        self.has_decl(d.name) && self.decls[self.slot_of(d.name)].1 == (InternalDecl {
            decl: Decl::Defined(d.decl),
            defined: true,
        })
    }

    /// Whether `name` has been declared.
    pub open spec fn declared(self, name: Seq<char>) -> bool {
        self.names.contains(name) && self.has_decl(self.id_of(name))
    }

    /// The declaration of a declared name.
    pub open spec fn decl_of(self, name: Seq<char>) -> InternalDecl {
        self.decls[self.slot_of(self.id_of(name))].1
    }

    /// Whether a declaration of `name` as `decl` is accepted: the name is
    /// new, or its declaration is compatible with `decl`.
    pub open spec fn accepts(self, name: Seq<char>, decl: Decl) -> bool {
        !self.declared(name) || compatible(self.decl_of(name).decl, decl)
    }

    /// The content after `name` was declared as `decl`.
    ///
    /// The name is interned in any case. A new name gets the declaration; a
    /// declared name keeps what its declaration becomes by absorbing `decl`,
    /// and nothing else changes where the two are incompatible. The name
    /// joins the imports when it is an import afterwards, and leaves them when
    /// a definition replaced its import.
    pub open spec fn declare(self, name: Seq<char>, decl: Decl) -> ArtifactView {
        let v = self.intern(name);
        let id = v.id_of(name);
        if !v.has_decl(id) {
            ArtifactView {
                decls: v.decls.push((id, InternalDecl { decl, defined: false })),
                imports: match decl {
                    Decl::Import(kind) => add_import(v.imports, id, kind),
                    Decl::Defined(_) => v.imports,
                },
                ..v
            }
        } else {
            let k = v.slot_of(id);
            let prior = v.decls[k].1;
            if compatible(prior.decl, decl) {
                let merged = absorbed(prior.decl, decl);
                ArtifactView {
                    decls: v.decls.update(k, (id, InternalDecl { decl: merged, defined: prior.defined })),
                    imports: match merged {
                        Decl::Import(kind) => add_import(v.imports, id, kind),
                        Decl::Defined(_) => if prior.decl is Import {
                            remove_import(v.imports, id)
                        } else {
                            v.imports
                        },
                    },
                    ..v
                }
            } else {
                v
            }
        }
    }

    /// What becomes of an attempt to define `name`, with zero-initialised
    /// contents or not, with custom symbols or not. The checks are made in
    /// this order: declared, not yet defined, not an import, custom symbols
    /// only for a section, zero-initialised contents only for data.
    pub open spec fn define_outcome(
        self,
        name: Seq<char>,
        zero_init: bool,
        custom_symbols: bool,
    ) -> DefineOutcome {
        if !self.declared(name) {
            DefineOutcome::Undeclared
        } else if self.decl_of(name).defined {
            DefineOutcome::Duplicate
        } else {
            match self.decl_of(name).decl {
                Decl::Import(_) => DefineOutcome::Import,
                Decl::Defined(d) => if !(d is Section) && custom_symbols {
                    DefineOutcome::CustomSymbols(d)
                } else if !(d is Data) && zero_init {
                    DefineOutcome::ZeroInit(d)
                } else {
                    DefineOutcome::Accepted(d)
                },
            }
        }
    }

    /// The content after the accepted definition `def` of `name` was stored:
    /// the declaration is marked defined, and the definition is added last to
    /// the global definitions if its declaration is global, else to the others.
    pub open spec fn define(self, name: Seq<char>, def: DefinitionView) -> ArtifactView {
        let v = self.intern(name);
        let k = v.slot_of(v.id_of(name));
        let marked = v.decls.update(
            k,
            (v.decls[k].0, InternalDecl { decl: v.decls[k].1.decl, defined: true }),
        );
        if def.decl.spec_is_global() {
            ArtifactView { decls: marked, nonlocals: v.nonlocals.push(def), ..v }
        } else {
            ArtifactView { decls: marked, locals: v.locals.push(def), ..v }
        }
    }

    /// What becomes of an attempt to link `from` to `to`.
    pub open spec fn link_outcome(self, from: Seq<char>, to: Seq<char>) -> LinkOutcome {
        if !self.declared(from) {
            LinkOutcome::UndeclaredFrom
        } else if !self.declared(to) {
            LinkOutcome::UndeclaredTo
        } else if self.decl_of(from).decl is Import {
            LinkOutcome::FromImport
        } else {
            LinkOutcome::Accepted
        }
    }

    /// The content after the first `n` of `items` were declared in turn.
    pub open spec fn declare_first(self, items: Seq<(Seq<char>, Decl)>, n: nat) -> ArtifactView
        decreases n,
    {
        if n == 0 {
            self
        } else {
            self.declare_first(items, (n - 1) as nat).declare(items[n - 1].0, items[n - 1].1)
        }
    }

    /// Whether each of the first `n` of `items` is accepted when they are
    /// declared in turn.
    pub open spec fn accepts_first(self, items: Seq<(Seq<char>, Decl)>, n: nat) -> bool {
        forall|k: nat|
            k < n ==> (#[trigger] self.declare_first(items, k)).accepts(items[k as int].0, items[k as int].1)
    }

    /// Whether declaring `items` in turn stops at item `k`: the items before
    /// it are accepted, item `k` is rejected with the error `r`, and `after`
    /// is the content then.
    pub open spec fn stops_at(
        self,
        items: Seq<(Seq<char>, Decl)>,
        k: nat,
        after: ArtifactView,
        r: Result<(), ArtifactError>,
    ) -> bool {
        let at = self.declare_first(items, k);
        let name = items[k as int].0;
        let decl = items[k as int].1;
        &&& self.accepts_first(items, k)
        &&& !at.accepts(name, decl)
        &&& after == at.declare(name, decl)
        &&& r == Err::<(), ArtifactError>(
            ArtifactError::IncompatibleDeclaration { old: at.decl_of(name).decl, new: decl },
        )
    }

    /// The names that are declared, are no imports and have no definition, in
    /// the order of their declarations, among the first `n` declarations.
    pub open spec fn undefined_among(self, n: nat) -> Seq<Seq<char>>
        decreases n,
    {
        if n == 0 {
            Seq::empty()
        } else {
            let rest = self.undefined_among((n - 1) as nat);
            let e = self.decls[n - 1];
            if !e.1.defined && !(e.1.decl is Import) {
                rest.push(self.names[e.0 as int])
            } else {
                rest
            }
        }
    }

    /// The definitions in the order in which the backends receive them:
    /// those whose declaration is not global first.
    pub open spec fn definitions(self) -> Seq<DefinitionView> {
        self.locals + self.nonlocals
    }

    /// The definitions in the order in which the backends receive them,
    /// each with its name spelled out.
    pub open spec fn named_definitions(self) -> Seq<NamedDefinition> {
        Seq::new(
            self.definitions().len(),
            |i: int|
                NamedDefinition {
                    name: self.names[self.definitions()[i].name as int],
                    decl: self.definitions()[i].decl,
                    data: self.definitions()[i].data,
                    symbols: self.definitions()[i].symbols,
                },
        )
    }

    /// The names of the imports, oldest first.
    pub open spec fn import_names(self) -> Seq<Seq<char>> {
        Seq::new(self.imports.len(), |i: int| self.names[self.imports[i].0 as int])
    }

    /// The links, oldest first, each with the names and the declarations of
    /// its two ends spelled out.
    pub open spec fn named_links(self) -> Seq<NamedLink> {
        Seq::new(
            self.links.len(),
            |i: int|
                NamedLink {
                    from: (self.names[self.links[i].from as int], self.decl_at(self.links[i].from)),
                    to: (self.names[self.links[i].to as int], self.decl_at(self.links[i].to)),
                    at: self.links[i].at,
                    reloc: self.links[i].reloc,
                },
        )
    }

    /// The names that are declared, are no imports and have no definition.
    pub open spec fn undefined(self) -> Seq<Seq<char>> {
        self.undefined_among(self.decls.len())
    }
}

/// The strings of a list, each by its characters.
pub open spec fn texts(v: Seq<String>) -> Seq<Seq<char>> {
    Seq::new(v.len(), |i: int| v[i]@)
}

/// Names and declarations of a list, each name by its characters.
pub open spec fn decl_items(v: Seq<(&str, Decl)>) -> Seq<(Seq<char>, Decl)> {
    Seq::new(v.len(), |i: int| (v[i].0@, v[i].1))
}

/// A definition of a symbol as the backends receive it
#[derive(Debug)]
pub struct Definition<'a> {
    /// Name of symbol
    pub name: &'a str,
    /// Contents of definition
    pub data: &'a Data,
    /// Custom symbols referencing this section, or none for other definition types
    pub symbols: &'a Vec<(String, u64)>,
    /// Declaration of symbol
    pub decl: &'a DefinedDecl,
}

/// A definition with its name spelled out.
pub struct NamedDefinition {
    /// Name of symbol
    pub name: Seq<char>,
    /// Declaration of symbol
    pub decl: DefinedDecl,
    /// Contents of definition
    pub data: DataView,
    /// Custom symbols referencing this section
    pub symbols: Seq<(Seq<char>, u64)>,
}

/// A link with the names and the declarations of its two ends spelled out.
pub struct NamedLink {
    /// The name and the declaration of the source
    pub from: (Seq<char>, Decl),
    /// The name and the declaration of the destination
    pub to: (Seq<char>, Decl),
    /// Offset into the source
    pub at: u64,
    /// Type of relocation to use
    pub reloc: Reloc,
}

impl<'a> View for Definition<'a> {
    type V = NamedDefinition;

    open spec fn view(&self) -> NamedDefinition {
        NamedDefinition {
            name: self.name@,
            decl: *self.decl,
            data: self.data@,
            symbols: symbol_texts(self.symbols@),
        }
    }
}

impl<'a> View for LinkAndDecl<'a> {
    type V = NamedLink;

    open spec fn view(&self) -> NamedLink {
        NamedLink {
            from: (self.from.name@, *self.from.decl),
            to: (self.to.name@, *self.to.decl),
            at: self.at,
            reloc: self.reloc,
        }
    }
}

/// Builder for creating an artifact
pub struct ArtifactBuilder {
    target: Target,
    name: Option<String>,
    library: bool,
}

/// An abstract binary artifact, which contains code, data, imports, and relocations
pub struct Artifact {
    /// The name of this artifact
    pub name: String,
    /// The machine target this is intended for
    pub target: Target,
    /// Whether this is a static library or not
    pub is_library: bool,
    imports: Vec<(usize, ImportKind)>,
    links: Vec<Relocation>,
    declarations: IndexMap<usize, usize>,
    decls: Vec<InternalDecl>,
    local_definitions: Vec<InternalDefinition>,
    nonlocal_definitions: Vec<InternalDefinition>,
    strings: Interner,
}

impl View for Artifact {
    type V = ArtifactView;

    closed spec fn view(&self) -> ArtifactView {
        ArtifactView {
            name: self.name@,
            target: self.target,
            is_library: self.is_library,
            names: interned(self.strings),
            decls: Seq::new(
                self.decls@.len(),
                |i: int| (index_entries(self.declarations)[i].0, self.decls@[i]),
            ),
            imports: self.imports@,
            links: self.links@,
            locals: self.local_definitions@.map_values(|d: InternalDefinition| d@),
            nonlocals: self.nonlocal_definitions@.map_values(|d: InternalDefinition| d@),
        }
    }
}

/// Whether no position occurs twice among the imports.
pub open spec fn distinct_imports(imports: Seq<(usize, ImportKind)>) -> bool {
    forall|i: int, j: int|
        0 <= i < imports.len() && 0 <= j < imports.len() && i != j ==> (#[trigger] imports[i]).0
            != (#[trigger] imports[j]).0
}

/// Where `id` stands among the imports, if it does: the last such place.
fn find_import(imports: &Vec<(usize, ImportKind)>, id: usize) -> (r: Option<usize>)
    ensures
        r is None ==> forall|i: int| 0 <= i < imports@.len() ==> (#[trigger] imports@[i]).0 != id,
        r matches Some(k) ==> k < imports@.len() && imports@[k as int].0 == id,
{
    let mut index: Option<usize> = None;
    let mut i: usize = 0;
    while i < imports.len()
        invariant
            i <= imports@.len(),
            index is None ==> forall|j: int| 0 <= j < i ==> (#[trigger] imports@[j]).0 != id,
            index matches Some(k) ==> k < imports@.len() && imports@[k as int].0 == id,
        decreases imports@.len() - i,
    {
        if imports[i].0 == id {
            index = Some(i);
        }
        i += 1;
    }
    index
}

/// Add `(id, kind)` to the imports unless `id` is among them.
fn push_import(imports: &mut Vec<(usize, ImportKind)>, id: usize, kind: ImportKind)
    requires
        distinct_imports(old(imports)@),
    ensures
        final(imports)@ == add_import(old(imports)@, id, kind),
        distinct_imports(final(imports)@),
        forall|i: int|
            0 <= i < final(imports)@.len() ==> (#[trigger] final(imports)@[i]).0 == id || old(
                imports,
            )@.contains(final(imports)@[i]),
        forall|i: int|
            0 <= i < final(imports)@.len() && (#[trigger] final(imports)@[i]).0 == id ==> old(
                imports,
            )@.contains(final(imports)@[i]) || final(imports)@[i] == (id, kind),
{
    let found = find_import(imports, id);
    if found.is_none() {
        imports.push((id, kind));
    }
}

/// Take the entry of `id` out of the imports: the last entry takes its place.
fn drop_import(imports: &mut Vec<(usize, ImportKind)>, id: usize)
    requires
        distinct_imports(old(imports)@),
    ensures
        final(imports)@ == remove_import(old(imports)@, id),
        distinct_imports(final(imports)@),
        forall|i: int|
            0 <= i < final(imports)@.len() ==> old(imports)@.contains(#[trigger] final(imports)@[i]),
        forall|i: int| 0 <= i < final(imports)@.len() ==> (#[trigger] final(imports)@[i]).0 != id,
{
    let found = find_import(imports, id);
    let ghost before = imports@;
    if let Some(k) = found {
        proof {
            let c = choose|i: int| 0 <= i < before.len() && (#[trigger] before[i]).0 == id;
            assert(c == k);
        }
        imports.swap_remove(k);
        proof {
            let after = imports@;
            assert forall|i: int| 0 <= i < after.len() implies before.contains(
                #[trigger] after[i],
            ) by {
                if i == k {
                    assert(before[before.len() - 1] == after[i]);
                } else {
                    assert(before[i] == after[i]);
                }
            }
            assert forall|i: int, j: int|
                0 <= i < after.len() && 0 <= j < after.len() && i != j implies (#[trigger] after[i]).0
                != (#[trigger] after[j]).0 by {
                let pi = if i == k { before.len() - 1 } else { i };
                let pj = if j == k { before.len() - 1 } else { j };
                assert(after[i] == before[pi]);
                assert(after[j] == before[pj]);
            }
            assert forall|i: int| 0 <= i < after.len() implies (#[trigger] after[i]).0 != id by {
                let pi = if i == k { before.len() - 1 } else { i };
                assert(after[i] == before[pi]);
                assert(before[k as int].0 == id);
            }
        }
    } else {
        assert forall|i: int| 0 <= i < before.len() implies before.contains(
            #[trigger] before[i],
        ) by {}
    }
}

impl ArtifactBuilder {
    /// The name the artifact will have: `faerie.o` where none was given.
    pub closed spec fn artifact_name(&self) -> Seq<char> {
        match self.name {
            Some(n) => n@,
            None => "faerie.o"@,
        }
    }

    /// The target the artifact will have.
    pub closed spec fn artifact_target(&self) -> Target {
        self.target
    }

    /// Whether the artifact will be marked as a library.
    pub closed spec fn artifact_library(&self) -> bool {
        self.library
    }

    /// Start building an artifact for `target`
    pub fn new(target: Target) -> (r: Self)
        ensures
            r.artifact_name() == "faerie.o"@,
            r.artifact_target() == target,
            !r.artifact_library(),
    {
        ArtifactBuilder { target, name: None, library: false }
    }

    /// Set this artifact's name
    pub fn name(self, name: String) -> (r: Self)
        ensures
            r.artifact_name() == name@,
            r.artifact_target() == self.artifact_target(),
            r.artifact_library() == self.artifact_library(),
    {
        let mut s = self;
        s.name = Some(name);
        s
    }

    /// Set whether this will be a static library or not
    pub fn library(self, is_library: bool) -> (r: Self)
        ensures
            r.artifact_name() == self.artifact_name(),
            r.artifact_target() == self.artifact_target(),
            r.artifact_library() == is_library,
    {
        let mut s = self;
        s.library = is_library;
        s
    }

    /// Build into an artifact
    pub fn finish(self) -> (r: Artifact)
        ensures
            r.wf(),
            r@ == ArtifactView::empty(
                self.artifact_name(),
                self.artifact_target(),
                self.artifact_library(),
            ),
    {
        let name = match self.name {
            Some(n) => n,
            None => "faerie.o".to_owned(),
        };
        let mut artifact = Artifact::new(self.target, name);
        artifact.is_library = self.library;
        artifact
    }
}

impl Artifact {
    /// The stored declarations stand where the index says, and the content
    /// is well formed.
    pub closed spec fn wf(&self) -> bool {
        &&& index_entries(self.declarations).len() == self.decls@.len()
        &&& forall|i: int|
            0 <= i < self.decls@.len() ==> (#[trigger] index_entries(self.declarations)[i]).1 == i
        &&& self@.wf()
    }

    /// A well-formed artifact has well-formed content.
    pub proof fn lemma_wf(&self)
        requires
            self.wf(),
        ensures
            self@.wf(),
    {
    }

    /// The name of this artifact
    pub fn name(&self) -> (r: &str)
        ensures
            r@ == self@.name,
    {
        self.name.as_str()
    }

    /// The machine target this is intended for
    pub fn target(&self) -> (r: &Target)
        ensures
            *r == self@.target,
    {
        &self.target
    }

    /// Create a new artifact, for `target` and with `name`
    pub fn new(target: Target, name: String) -> (r: Self)
        ensures
            r.wf(),
            r@ == ArtifactView::empty(name@, target, false),
    {
        let r = Artifact {
            imports: Vec::new(),
            links: Vec::new(),
            name,
            target,
            is_library: false,
            declarations: index_new(),
            decls: Vec::new(),
            local_definitions: Vec::new(),
            nonlocal_definitions: Vec::new(),
            strings: interner_new(),
        };
        assert(r@.decls =~= Seq::empty());
        assert(r@.locals =~= Seq::empty());
        assert(r@.nonlocals =~= Seq::empty());
        r
    }

    /// Intern `name` and return its position.
    fn intern(&mut self, name: &str) -> (id: usize)
        requires
            old(self).wf(),
        ensures
            final(self).wf(),
            final(self)@ == old(self)@.intern(name@),
            id == final(self)@.id_of(name@),
            id < final(self)@.names.len(),
            final(self)@.names[id as int] == name@,
            final(self)@.names.contains(name@),
            old(self)@.declared(name@) == final(self)@.has_decl(id),
            final(self).declarations == old(self).declarations,
            final(self).decls == old(self).decls,
    {
        let ghost before = self@;
        let id = interner_get_or_intern(&mut self.strings, name);
        proof {
            let after = self@;
            assert(after.decls =~= before.decls);
            assert(after == before.intern(name@));
            lemma_position(after.names, name@, id as int);
            if !before.names.contains(name@) {
                assert forall|i: int| 0 <= i < before.decls.len() implies (
                #[trigger] before.decls[i]).0 != id by {}
            }
        }
        id
    }

    /// Where the declaration of the name at position `id` stands, if it has one.
    fn slot(&self, id: usize) -> (r: Option<usize>)
        requires
            self.wf(),
        ensures
            r is Some <==> self@.has_decl(id),
            r matches Some(k) ==> k == self@.slot_of(id) && k < self@.decls.len() && self@.decls[k as int].0
                == id && k < self.decls@.len(),
    {
        let r = index_get(&self.declarations, id);
        proof {
            let entries = index_entries(self.declarations);
            if has_key(entries, id) {
                let i = choose|i: int| 0 <= i < entries.len() && (#[trigger] entries[i]).0 == id;
                assert(self@.decls[i].0 == id);
                assert(r == Some(i as usize));
                let c = self@.slot_of(id);
                assert(self@.decls[c].0 == id);
                assert(c == i);
            }
            if self@.has_decl(id) {
                let c = self@.slot_of(id);
                assert(entries[c].0 == id);
            }
        }
        r
    }

    /// Declare a new symbolic reference, with the given `decl`.
    ///
    /// A name may be declared again: an import may be declared again as an
    /// import or be strengthened to a definition, a definition accepts a later
    /// import of its kind or an identical declaration. Anything else is an
    /// error that names both declarations and leaves the earlier one in place.
    /// All declarations must precede their definitions.
    pub fn declare(&mut self, name: &str, decl: Decl) -> (r: Result<(), ArtifactError>)
        requires
            old(self).wf(),
        ensures
            final(self).wf(),
            final(self)@ == old(self)@.declare(name@, decl),
            r is Ok <==> old(self)@.accepts(name@, decl),
            r is Err ==> r == Err::<(), ArtifactError>(
                ArtifactError::IncompatibleDeclaration {
                    old: old(self)@.decl_of(name@).decl,
                    new: decl,
                },
            ),
    {
        let ghost start = self@;
        let id = self.intern(name);
        let ghost v = self@;
        proof {
            if start.declared(name@) {
                assert(start.names == v.names);
            }
        }
        match self.slot(id) {
            None => {
                let slot = self.decls.len();
                let ghost entries = index_entries(self.declarations);
                assert(!has_key(entries, id)) by {
                    if has_key(entries, id) {
                        let i = choose|i: int| 0 <= i < entries.len() && (#[trigger] entries[i]).0 == id;
                        assert(v.decls[i].0 == id);
                    }
                }
                index_insert(&mut self.declarations, id, slot);
                self.decls.push(InternalDecl::new(decl));
                assert(self@.decls =~= v.decls.push((id, InternalDecl { decl, defined: false })));
                match decl {
                    Decl::Import(kind) => {
                        push_import(&mut self.imports, id, kind);
                    },
                    Decl::Defined(_) => {},
                }
                assert(self@.decls =~= v.decls.push((id, InternalDecl { decl, defined: false })));
                proof {
                    assert forall|i: int| 0 <= i < self@.links.len() implies self@.link_ok(
                        #[trigger] self@.links[i],
                    ) by {
                        lemma_push_keeps_links(v, self@, self@.links[i]);
                    }
                    let last = v.decls.len() as int;
                    assert(self@.decls[last].0 == id);
                    assert(self@.slot_of(id) == last) by {
                        let c = self@.slot_of(id);
                        assert(self@.decls[c].0 == id);
                        if c < last {
                            assert(v.decls[c].0 == id);
                        }
                    }
                    assert forall|i: int| 0 <= i < self@.imports.len() implies self@.import_ok(
                        #[trigger] self@.imports[i],
                    ) by {
                        let e = self@.imports[i];
                        if v.imports.contains(e) {
                            let j = choose|j: int| 0 <= j < v.imports.len() && v.imports[j] == e;
                            assert(v.import_ok(v.imports[j]));
                            lemma_push_keeps_import(v, self@, e);
                        }
                    }
                    assert forall|i: int| 0 <= i < self@.locals.len() implies self@.definition_ok(
                        #[trigger] self@.locals[i],
                    ) by {
                        lemma_push_keeps_definition(v, self@, self@.locals[i]);
                    }
                    assert forall|i: int|
                        0 <= i < self@.nonlocals.len() implies self@.definition_ok(
                        #[trigger] self@.nonlocals[i],
                    ) by {
                        lemma_push_keeps_definition(v, self@, self@.nonlocals[i]);
                    }
                }
                Ok(())
            },
            Some(k) => {
                let prior = self.decls[k];
                let mut merged = prior.decl;
                match merged.absorb(decl) {
                    Err(e) => Err(e),
                    Ok(()) => {
                        self.decls.set(k, InternalDecl { decl: merged, defined: prior.defined });
                        assert(self@.decls =~= v.decls.update(
                            k as int,
                            (id, InternalDecl { decl: merged, defined: prior.defined }),
                        ));
                        match merged {
                            Decl::Import(kind) => {
                                push_import(&mut self.imports, id, kind);
                            },
                            Decl::Defined(_) => {
                                if prior.decl.is_import() {
                                    drop_import(&mut self.imports, id);
                                }
                            },
                        }
                        assert(self@.decls =~= v.decls.update(
                            k as int,
                            (id, InternalDecl { decl: merged, defined: prior.defined }),
                        ));
                        proof {
                            assert forall|i: int| 0 <= i < self@.links.len() implies self@.link_ok(
                                #[trigger] self@.links[i],
                            ) by {
                                lemma_update_keeps_links(v, self@, k as int, self@.links[i]);
                            }
                            assert(self@.decls[k as int].0 == id);
                            assert(self@.slot_of(id) == k) by {
                                let c = self@.slot_of(id);
                                assert(self@.decls[c].0 == id);
                                assert(v.decls[c].0 == id);
                            }
                            assert forall|i: int|
                                0 <= i < self@.imports.len() implies self@.import_ok(
                                #[trigger] self@.imports[i],
                            ) by {
                                let e = self@.imports[i];
                                if v.imports.contains(e) {
                                    let j = choose|j: int|
                                        0 <= j < v.imports.len() && v.imports[j] == e;
                                    assert(v.import_ok(v.imports[j]));
                                    if v.decls[k as int].0 == e.0 {
                                        assert(v.slot_of(e.0) == k);
                                    }
                                    lemma_update_keeps_import(v, self@, k as int, e);
                                }
                            }
                            assert forall|i: int|
                                0 <= i < self@.locals.len() implies self@.definition_ok(
                                #[trigger] self@.locals[i],
                            ) by {
                                let d = self@.locals[i];
                                assert(v.definition_ok(v.locals[i]));
                                if v.decls[k as int].0 == d.name {
                                    assert(v.slot_of(d.name) == k);
                                }
                                lemma_update_keeps_definition(v, self@, k as int, d);
                            }
                            assert forall|i: int|
                                0 <= i < self@.nonlocals.len() implies self@.definition_ok(
                                #[trigger] self@.nonlocals[i],
                            ) by {
                                let d = self@.nonlocals[i];
                                assert(v.definition_ok(v.nonlocals[i]));
                                if v.decls[k as int].0 == d.name {
                                    assert(v.slot_of(d.name) == k);
                                }
                                lemma_update_keeps_definition(v, self@, k as int, d);
                            }
                        }
                        Ok(())
                    },
                }
            },
        }
    }

    /// Declare a sequence of names, in turn, and stop at the first that is
    /// rejected.
    pub fn declarations(&mut self, declarations: Vec<(&str, Decl)>) -> (r: Result<(), ArtifactError>)
        requires
            old(self).wf(),
        ensures
            final(self).wf(),
            r is Ok <==> old(self)@.accepts_first(decl_items(declarations@), declarations@.len()),
            r is Ok ==> final(self)@ == old(self)@.declare_first(
                decl_items(declarations@),
                declarations@.len(),
            ),
            r is Err ==> exists|k: nat|
                k < declarations@.len() && #[trigger] old(self)@.stops_at(
                    decl_items(declarations@),
                    k,
                    final(self)@,
                    r,
                ),
    {
        let ghost start = self@;
        let ghost items = decl_items(declarations@);
        let mut i: usize = 0;
        while i < declarations.len()
            invariant
                i <= declarations@.len(),
                self.wf(),
                start == old(self)@,
                items == decl_items(declarations@),
                self@ == start.declare_first(items, i as nat),
                start.accepts_first(items, i as nat),
            decreases declarations@.len() - i,
        {
            let ghost at = self@;
            let (name, decl) = declarations[i];
            match self.declare(name, decl) {
                Err(e) => {
                    assert(at == start.declare_first(items, i as nat));
                    assert(!at.accepts(items[i as int].0, items[i as int].1));
                    assert(!start.accepts_first(items, declarations@.len() as nat));
                    assert(start.stops_at(items, i as nat, self@, Err::<(), ArtifactError>(e)));
                    return Err(e);
                },
                Ok(()) => {},
            }
            i += 1;
        }
        Ok(())
    }

    /// Get this artifact's imports, oldest first: name and kind
    pub fn imports<'a>(&'a self) -> (r: Vec<(&'a str, ImportKind)>)
        requires
            self.wf(),
        ensures
            r@.len() == self@.imports.len(),
            forall|i: int|
                0 <= i < r@.len() ==> (#[trigger] r@[i]).0@ == self@.names[self@.imports[i].0 as int]
                    && r@[i].1 == self@.imports[i].1,
    {
        let mut out: Vec<(&'a str, ImportKind)> = Vec::new();
        let mut i: usize = 0;
        while i < self.imports.len()
            invariant
                self.wf(),
                i <= self.imports@.len(),
                out@.len() == i,
                forall|j: int|
                    0 <= j < i ==> (#[trigger] out@[j]).0@ == self@.names[self@.imports[j].0 as int]
                        && out@[j].1 == self@.imports[j].1,
            decreases self.imports@.len() - i,
        {
            let (id, kind) = self.imports[i];
            assert(self@.imports[i as int].0 < self@.names.len());
            match interner_resolve(&self.strings, id) {
                Some(name) => {
                    out.push((name, kind));
                },
                None => {},
            }
            i += 1;
        }
        out
    }

    /// The definitions as the backends receive them: those whose declaration
    /// is not global first, then the global ones, each group oldest first
    pub fn definitions<'a>(&'a self) -> (r: Vec<Definition<'a>>)
        requires
            self.wf(),
        ensures
            r@.len() == self@.definitions().len(),
            forall|i: int|
                0 <= i < r@.len() ==> (#[trigger] r@[i]).name@ == self@.names[self@.definitions()[i].name as int]
                    && *r@[i].decl == self@.definitions()[i].decl && r@[i].data@
                    == self@.definitions()[i].data && symbol_texts(r@[i].symbols@)
                    == self@.definitions()[i].symbols,
    {
        let mut out: Vec<Definition<'a>> = Vec::new();
        let mut i: usize = 0;
        while i < self.local_definitions.len()
            invariant
                self.wf(),
                i <= self.local_definitions@.len(),
                out@.len() == i,
                forall|j: int|
                    0 <= j < i ==> (#[trigger] out@[j]).name@ == self@.names[self@.locals[j].name as int]
                        && *out@[j].decl == self@.locals[j].decl && out@[j].data@
                        == self@.locals[j].data && symbol_texts(out@[j].symbols@)
                        == self@.locals[j].symbols,
            decreases self.local_definitions@.len() - i,
        {
            let def = &self.local_definitions[i];
            assert(self@.locals[i as int] == def@);
            match interner_resolve(&self.strings, def.name) {
                Some(name) => {
                    out.push(
                        Definition { name, data: &def.data, symbols: &def.symbols, decl: &def.decl },
                    );
                },
                None => {},
            }
            i += 1;
        }
        let n = i;
        let mut k: usize = 0;
        while k < self.nonlocal_definitions.len()
            invariant
                self.wf(),
                n == self.local_definitions@.len(),
                k <= self.nonlocal_definitions@.len(),
                out@.len() == n + k,
                forall|j: int|
                    0 <= j < n ==> (#[trigger] out@[j]).name@ == self@.names[self@.locals[j].name as int]
                        && *out@[j].decl == self@.locals[j].decl && out@[j].data@
                        == self@.locals[j].data && symbol_texts(out@[j].symbols@)
                        == self@.locals[j].symbols,
                forall|j: int|
                    0 <= j < k ==> (#[trigger] out@[n + j]).name@ == self@.names[self@.nonlocals[j].name as int]
                        && *out@[n + j].decl == self@.nonlocals[j].decl && out@[n + j].data@
                        == self@.nonlocals[j].data && symbol_texts(out@[n + j].symbols@)
                        == self@.nonlocals[j].symbols,
            decreases self.nonlocal_definitions@.len() - k,
        {
            let def = &self.nonlocal_definitions[k];
            assert(self@.nonlocals[k as int] == def@);
            match interner_resolve(&self.strings, def.name) {
                Some(name) => {
                    out.push(
                        Definition { name, data: &def.data, symbols: &def.symbols, decl: &def.decl },
                    );
                },
                None => {},
            }
            k += 1;
        }
        proof {
            assert forall|i: int| 0 <= i < out@.len() implies (#[trigger] out@[i]).name@
                == self@.names[self@.definitions()[i].name as int] && *out@[i].decl
                == self@.definitions()[i].decl && out@[i].data@ == self@.definitions()[i].data
                && symbol_texts(out@[i].symbols@) == self@.definitions()[i].symbols by {
                if i >= n {
                    assert(out@[n + (i - n)] == out@[i]);
                }
            }
        }
        out
    }

    /// The recorded links, oldest first, each end with its name and its
    /// declaration
    pub fn links<'a>(&'a self) -> (r: Vec<LinkAndDecl<'a>>)
        requires
            self.wf(),
        ensures
            r@.len() == self@.links.len(),
            forall|i: int|
                0 <= i < r@.len() ==> (#[trigger] r@[i]).from.name@ == self@.names[self@.links[i].from as int]
                    && *r@[i].from.decl == self@.decl_at(self@.links[i].from) && r@[i].to.name@
                    == self@.names[self@.links[i].to as int] && *r@[i].to.decl == self@.decl_at(
                    self@.links[i].to,
                ) && r@[i].at == self@.links[i].at && r@[i].reloc == self@.links[i].reloc,
    {
        let mut out: Vec<LinkAndDecl<'a>> = Vec::new();
        let mut i: usize = 0;
        while i < self.links.len()
            invariant
                self.wf(),
                i <= self.links@.len(),
                out@.len() == i,
                forall|j: int|
                    0 <= j < i ==> (#[trigger] out@[j]).from.name@ == self@.names[self@.links[j].from as int]
                        && *out@[j].from.decl == self@.decl_at(self@.links[j].from)
                        && out@[j].to.name@ == self@.names[self@.links[j].to as int]
                        && *out@[j].to.decl == self@.decl_at(self@.links[j].to) && out@[j].at
                        == self@.links[j].at && out@[j].reloc == self@.links[j].reloc,
            decreases self.links@.len() - i,
        {
            let l = self.links[i];
            assert(self@.link_ok(self@.links[i as int]));
            let from_slot = self.slot(l.from);
            let to_slot = self.slot(l.to);
            let from_name = interner_resolve(&self.strings, l.from);
            let to_name = interner_resolve(&self.strings, l.to);
            match (from_slot, to_slot, from_name, to_name) {
                (Some(f), Some(t), Some(from_name), Some(to_name)) => {
                    assert(self@.decls[f as int].1 == self.decls@[f as int]);
                    assert(self@.decls[t as int].1 == self.decls@[t as int]);
                    out.push(
                        LinkAndDecl {
                            from: Binding { name: from_name, decl: &self.decls[f].decl },
                            to: Binding { name: to_name, decl: &self.decls[t].decl },
                            at: l.at,
                            reloc: l.reloc,
                        },
                    );
                },
                _ => {},
            }
            i += 1;
        }
        out
    }

    /// Get set of non-import declarations that have not been defined, in the
    /// order of their declarations. This must be empty in order to emit the
    /// artifact.
    pub fn undefined_symbols(&self) -> (r: Vec<String>)
        requires
            self.wf(),
        ensures
            texts(r@) == self@.undefined(),
    {
        let mut syms: Vec<String> = Vec::new();
        let mut i: usize = 0;
        assert(texts(syms@) =~= self@.undefined_among(0));
        while i < self.decls.len()
            invariant
                self.wf(),
                i <= self.decls@.len(),
                texts(syms@) == self@.undefined_among(i as nat),
            decreases self.decls@.len() - i,
        {
            let int_decl = self.decls[i];
            assert(self@.decls[i as int].1 == int_decl);
            if !int_decl.defined && !int_decl.decl.is_import() {
                let entry = index_get_index(&self.declarations, i);
                assert(self@.decls[i as int].0 < self@.names.len());
                match entry {
                    Some((id, _)) => {
                        match interner_resolve(&self.strings, id) {
                            Some(name) => {
                                let ghost before = syms@;
                                syms.push(name.to_owned());
                                assert(texts(syms@) =~= texts(before).push(name@));
                            },
                            None => {},
                        }
                    },
                    None => {},
                }
            }
            i += 1;
        }
        syms
    }

    /// Emit a blob of bytes representing the object file in the format
    /// of the target that the artifact was constructed with.
    pub fn emit(&self) -> (r: Result<Vec<u8>, EmitError>)
        requires
            self.wf(),
        ensures
            emitted(self@, self@.target.binary_format, r),
    {
        self.emit_as(self.target.binary_format)
    }

    /// Emit a blob of bytes representing an object file in the given format.
    ///
    /// Every declared name that is no import must have a definition: else
    /// the error lists the names that have none. ELF and Mach-O are the
    /// formats; for any other the error names the format of the target.
    pub fn emit_as(&self, format: BinaryFormat) -> (r: Result<Vec<u8>, EmitError>)
        requires
            self.wf(),
        ensures
            emitted(self@, format, r),
    {
        let undef = self.undefined_symbols();
        if undef.len() == 0 {
            match format {
                BinaryFormat::Elf => crate::elf::to_bytes(self),
                BinaryFormat::Macho => crate::mach::to_bytes(self),
                _ => Err(EmitError::UnsupportedFormat(self.target.binary_format)),
            }
        } else {
            Err(EmitError::Undefined(undef))
        }
    }

    /// Defines a previously declared program object with the given bytes.
    /// See `define_with_symbols` for the errors.
    pub fn define(&mut self, name: &str, data: Vec<u8>) -> (r: Result<(), ArtifactError>)
        requires
            old(self).wf(),
        ensures
            final(self).wf(),
            define_result(
                *old(self),
                *final(self),
                r,
                name@,
                DataView::Blob(data@),
                Seq::empty(),
            ),
    {
        let symbols: Vec<(String, u64)> = Vec::new();
        assert(symbol_texts(symbols@) =~= Seq::empty());
        self.define_with_symbols(name, Data::Blob(data), symbols)
    }

    /// Defines a previously declared data object as `size` bytes of zeros.
    /// See `define_with_symbols` for the errors.
    pub fn define_zero_init(&mut self, name: &str, size: usize) -> (r: Result<(), ArtifactError>)
        requires
            old(self).wf(),
        ensures
            final(self).wf(),
            define_result(
                *old(self),
                *final(self),
                r,
                name@,
                DataView::ZeroInit(size),
                Seq::empty(),
            ),
    {
        let symbols: Vec<(String, u64)> = Vec::new();
        assert(symbol_texts(symbols@) =~= Seq::empty());
        self.define_with_symbols(name, Data::ZeroInit(size), symbols)
    }

    /// Defines a previously declared program object, with custom symbols that
    /// refer to offsets within it where it is a section.
    ///
    /// The name must be declared, not yet defined and no import; custom
    /// symbols are accepted for sections only, zero-initialised contents for
    /// data only. The definition joins the global definitions if its
    /// declaration is global, else the others.
    pub fn define_with_symbols(
        &mut self,
        name: &str,
        data: Data,
        symbols: Vec<(String, u64)>,
    ) -> (r: Result<(), ArtifactError>)
        requires
            old(self).wf(),
        ensures
            final(self).wf(),
            define_result(*old(self), *final(self), r, name@, data@, symbol_texts(symbols@)),
            r matches Err(ArtifactError::NonSectionCustomSymbols(_, returned)) ==> returned
                == symbols,
    {
        let ghost start = self@;
        let id = self.intern(name);
        let ghost v = self@;
        proof {
            if start.declared(name@) {
                assert(start.names == v.names);
            }
        }
        match self.slot(id) {
            None => Err(ArtifactError::Undeclared(name.to_owned())),
            Some(k) => {
                let stype = self.decls[k];
                if stype.defined {
                    return Err(ArtifactError::DuplicateDefinition(name.to_owned()));
                }
                let decl = match stype.decl {
                    Decl::Defined(decl) => decl,
                    Decl::Import(_) => {
                        return Err(ArtifactError::ImportDefined(name.to_owned()));
                    },
                };
                if !decl.is_section() && symbols.len() > 0 {
                    return Err(ArtifactError::NonSectionCustomSymbols(decl, symbols));
                }
                if !decl.is_data() && data.is_zero_init() {
                    return Err(ArtifactError::InvalidZeroInit(decl));
                }
                let def = InternalDefinition { name: id, data, symbols, decl };
                let ghost dv = def@;
                if decl.is_global() {
                    self.nonlocal_definitions.push(def);
                    assert(self@.nonlocals =~= v.nonlocals.push(dv));
                } else {
                    self.local_definitions.push(def);
                    assert(self@.locals =~= v.locals.push(dv));
                }
                self.decls.set(k, InternalDecl { decl: stype.decl, defined: true });
                proof {
                    let marked = v.decls.update(
                        k as int,
                        (v.decls[k as int].0, InternalDecl { decl: stype.decl, defined: true }),
                    );
                    assert(self@.decls =~= marked);
                    assert forall|i: int| 0 <= i < self@.links.len() implies self@.link_ok(
                        #[trigger] self@.links[i],
                    ) by {
                        lemma_update_keeps_links(v, self@, k as int, self@.links[i]);
                    }
                    assert(self@.decls[k as int].0 == id);
                    assert(self@.slot_of(id) == k) by {
                        let c = self@.slot_of(id);
                        assert(self@.decls[c].0 == id);
                        assert(v.decls[c].0 == id);
                    }
                    assert(self@.definition_ok(dv));
                    assert forall|i: int| 0 <= i < self@.imports.len() implies self@.import_ok(
                        #[trigger] self@.imports[i],
                    ) by {
                        assert(v.import_ok(v.imports[i]));
                        lemma_update_keeps_import(v, self@, k as int, self@.imports[i]);
                    }
                    assert forall|i: int| 0 <= i < v.locals.len() implies self@.definition_ok(
                        #[trigger] v.locals[i],
                    ) && v.locals[i].name != id by {
                        let d = v.locals[i];
                        assert(v.definition_ok(d));
                        if v.decls[k as int].0 == d.name {
                            assert(v.slot_of(d.name) == k);
                        }
                        lemma_update_keeps_definition(v, self@, k as int, d);
                    }
                    assert forall|i: int| 0 <= i < v.nonlocals.len() implies self@.definition_ok(
                        #[trigger] v.nonlocals[i],
                    ) && v.nonlocals[i].name != id by {
                        let d = v.nonlocals[i];
                        assert(v.definition_ok(d));
                        if v.decls[k as int].0 == d.name {
                            assert(v.slot_of(d.name) == k);
                        }
                        lemma_update_keeps_definition(v, self@, k as int, d);
                    }
                }
                Ok(())
            },
        }
    }

    /// Declare and define a new symbolic reference with the given `decl` and
    /// contents: `declare`, then `define`.
    pub fn declare_with(&mut self, name: &str, decl: Decl, definition: Vec<u8>) -> (r: Result<
        (),
        ArtifactError,
    >)
        requires
            old(self).wf(),
        ensures
            final(self).wf(),
            !old(self)@.accepts(name@, decl) ==> r is Err && final(self)@ == old(self)@.declare(
                name@,
                decl,
            ),
            old(self)@.accepts(name@, decl) ==> exists|mid: Artifact|
                mid.wf() && mid@ == old(self)@.declare(name@, decl) && #[trigger] define_result(
                    mid,
                    *final(self),
                    r,
                    name@,
                    DataView::Blob(definition@),
                    Seq::empty(),
                ),
    {
        match self.declare(name, decl) {
            Err(e) => Err(e),
            Ok(()) => {
                let ghost mid = *self;
                let r = self.define(name, definition);
                assert(define_result(
                    mid,
                    *self,
                    r,
                    name@,
                    DataView::Blob(definition@),
                    Seq::empty(),
                ));
                r
            },
        }
    }

    /// Declare `import` to be an import of the given kind
    pub fn import(&mut self, import: &str, kind: ImportKind) -> (r: Result<(), ArtifactError>)
        requires
            old(self).wf(),
        ensures
            final(self).wf(),
            final(self)@ == old(self)@.declare(import@, Decl::Import(kind)),
            r is Ok <==> old(self)@.accepts(import@, Decl::Import(kind)),
            r is Err ==> r == Err::<(), ArtifactError>(
                ArtifactError::IncompatibleDeclaration {
                    old: old(self)@.decl_of(import@).decl,
                    new: Decl::Import(kind),
                },
            ),
    {
        self.declare(import, Decl::Import(kind))
    }

    /// Link a relocation at `link.at` from `link.from` to `link.to`; the
    /// backend chooses the kind of relocation.
    pub fn link(&mut self, link: Link<'_>) -> (r: Result<(), ArtifactError>)
        requires
            old(self).wf(),
        ensures
            final(self).wf(),
            link_result(*old(self), *final(self), r, link.from@, link.to@, link.at, Reloc::Auto),
    {
        self.link_with(link, Reloc::Auto)
    }

    /// Link a relocation of the given kind at `link.at` from `link.from` to
    /// `link.to`. Both names must be declared, and `link.from` must not be
    /// an import.
    pub fn link_with(&mut self, link: Link<'_>, reloc: Reloc) -> (r: Result<(), ArtifactError>)
        requires
            old(self).wf(),
        ensures
            final(self).wf(),
            link_result(*old(self), *final(self), r, link.from@, link.to@, link.at, reloc),
    {
        let ghost start = self@;
        let link_from = self.intern(link.from);
        let ghost mid = self@;
        let link_to = self.intern(link.to);
        let ghost v = self@;
        proof {
            lemma_intern_keeps(start, link.from@, link.to@);
            lemma_intern_keeps(mid, link.to@, link.from@);
            lemma_position(v.names, link.from@, link_from as int);
        }
        let from_slot = self.slot(link_from);
        let to_slot = self.slot(link_to);
        match (from_slot, to_slot) {
            (Some(f), Some(_)) => {
                if self.decls[f].decl.is_import() {
                    return Err(ArtifactError::RelocateImport(link.from.to_owned()));
                }
                self.links.push(Relocation { from: link_from, to: link_to, at: link.at, reloc });
                assert(self@.decls =~= v.decls);
                Ok(())
            },
            (None, _) => Err(ArtifactError::Undeclared(link.from.to_owned())),
            (_, None) => Err(ArtifactError::Undeclared(link.to.to_owned())),
        }
    }
}

/// What `emit` and `emit_as` guarantee. With a name that is declared, no
/// import and not defined, the error lists all such names, and this is the
/// only way to that error. Otherwise the bytes are those of the ELF or the
/// Mach-O file of the artifact, where it has one, and any other format is
/// refused with the format of the target. An artifact that could be laid
/// out, for an architecture that the format does not have, is refused
/// with the architecture. A file that is emitted is the image of a
/// well-formed file under construction, of which the laws of each format speak.
pub open spec fn emitted(a: ArtifactView, format: BinaryFormat, r: Result<Vec<u8>, EmitError>) -> bool {
    &&& (r matches Err(EmitError::Undefined(_))) <==> a.undefined().len() > 0
    &&& r matches Err(EmitError::Undefined(names)) ==> texts(names@) == a.undefined()
    &&& a.undefined().len() == 0 ==> match format {
        BinaryFormat::Elf => (r is Ok <==> crate::elf::elf_image(a) is Some) && (r matches Ok(
            bytes,
        ) ==> Some(bytes@) == crate::elf::elf_image(a)),
        BinaryFormat::Macho => (r is Ok <==> crate::mach::mach_image(a) is Some) && (
        r matches Ok(bytes) ==> Some(bytes@) == crate::mach::mach_image(a)),
        _ => r matches Err(EmitError::UnsupportedFormat(f)) && f == a.target.binary_format,
    }
    &&& r is Ok && format == BinaryFormat::Elf ==> crate::elf::elf_of(a) is Some
        && crate::elf::elf_of(a).unwrap().wf()
    &&& r is Ok && format == BinaryFormat::Macho ==> crate::mach::mach_of(a) is Some
        && crate::mach::mach_of(a).unwrap().segment.table.wf()
    &&& a.undefined().len() == 0 && format == BinaryFormat::Elf && crate::elf::elf_of(a) is Some
        && crate::elf::machine_of(a.target.architecture) is None ==> r == Err::<
        Vec<u8>,
        EmitError,
    >(EmitError::UnsupportedArchitecture(a.target.architecture))
    &&& a.undefined().len() == 0 && format == BinaryFormat::Macho && crate::mach::mach_of(a) is Some
        && crate::mach::cputype_of(a.target.architecture) is None ==> r == Err::<
        Vec<u8>,
        EmitError,
    >(EmitError::UnsupportedArchitecture(a.target.architecture))
}

/// What `define_with_symbols` and its shorthands guarantee: the name is
/// interned whatever happens, the error tells which check failed, and an
/// accepted definition is stored under the name's declaration.
pub open spec fn define_result(
    before: Artifact,
    after: Artifact,
    r: Result<(), ArtifactError>,
    name: Seq<char>,
    data: DataView,
    symbols: Seq<(Seq<char>, u64)>,
) -> bool {
    let v = before@.intern(name);
    match before@.define_outcome(name, data is ZeroInit, symbols.len() > 0) {
        DefineOutcome::Undeclared => after@ == v && (r matches Err(ArtifactError::Undeclared(n))
            && n@ == name),
        DefineOutcome::Duplicate => after@ == v && (r matches Err(
            ArtifactError::DuplicateDefinition(n),
        ) && n@ == name),
        DefineOutcome::Import => after@ == v && (r matches Err(ArtifactError::ImportDefined(n))
            && n@ == name),
        DefineOutcome::CustomSymbols(d) => after@ == v && (r matches Err(
            ArtifactError::NonSectionCustomSymbols(dd, ss),
        ) && dd == d && symbol_texts(ss@) == symbols),
        DefineOutcome::ZeroInit(d) => after@ == v && r == Err::<(), ArtifactError>(
            ArtifactError::InvalidZeroInit(d),
        ),
        DefineOutcome::Accepted(d) => r is Ok && after@ == before@.define(
            name,
            DefinitionView { decl: d, name: v.id_of(name), symbols, data },
        ),
    }
}

/// What `link` and `link_with` guarantee: both names are interned whatever
/// happens, the error tells which check failed, and an accepted link is
/// recorded last.
pub open spec fn link_result(
    before: Artifact,
    after: Artifact,
    r: Result<(), ArtifactError>,
    from: Seq<char>,
    to: Seq<char>,
    at: u64,
    reloc: Reloc,
) -> bool {
    let v = before@.intern(from).intern(to);
    match before@.link_outcome(from, to) {
        LinkOutcome::UndeclaredFrom => after@ == v && (r matches Err(ArtifactError::Undeclared(n))
            && n@ == from),
        LinkOutcome::UndeclaredTo => after@ == v && (r matches Err(ArtifactError::Undeclared(n))
            && n@ == to),
        LinkOutcome::FromImport => after@ == v && (r matches Err(ArtifactError::RelocateImport(n))
            && n@ == from),
        LinkOutcome::Accepted => r is Ok && after@ == (ArtifactView {
            links: v.links.push(
                Relocation { from: v.id_of(from), to: v.id_of(to), at, reloc },
            ),
            ..v
        }),
    }
}

/// A declared name has exactly one declaration: every declaration of its
/// position stands at one place.
pub proof fn lemma_one_declaration(v: ArtifactView, name: Seq<char>, i: int)
    requires
        v.wf(),
        v.declared(name),
        0 <= i < v.decls.len(),
        v.decls[i].0 == v.id_of(name),
    ensures
        i == v.slot_of(v.id_of(name)),
        v.decls[i].1 == v.decl_of(name),
{
    let k = v.slot_of(v.id_of(name));
    assert(v.decls[k].0 == v.id_of(name));
}

/// A definition is accepted only for a name that is declared, is no import
/// and has no definition yet.
pub proof fn lemma_define_accepted(v: ArtifactView, name: Seq<char>, zero_init: bool, custom: bool)
    requires
        v.define_outcome(name, zero_init, custom) is Accepted,
    ensures
        v.declared(name),
        v.decl_of(name).decl is Defined,
        !v.decl_of(name).defined,
{
}

/// Interning a name changes neither whether another name is declared nor
/// its declaration, and a name keeps its position.
pub proof fn lemma_intern_keeps(v: ArtifactView, a: Seq<char>, b: Seq<char>)
    requires
        v.wf(),
        v.intern(a).names.len() <= usize::MAX,
    ensures
        v.intern(a).wf(),
        v.intern(a).declared(b) == v.declared(b),
        v.declared(b) ==> v.intern(a).decl_of(b) == v.decl_of(b),
        v.names.contains(b) ==> v.intern(a).id_of(b) == v.id_of(b),
        forall|id: usize| v.intern(a).has_decl(id) == v.has_decl(id),
{
    let w = v.intern(a);
    assert(w.decls == v.decls);
    assert forall|i: int| 0 <= i < w.links.len() implies w.link_ok(#[trigger] w.links[i]) by {
        assert(v.link_ok(v.links[i]));
    }
    if v.names.contains(b) {
        let i = v.names.index_of(b);
        assert(w.names[i] == b);
        lemma_position(w.names, b, i);
    } else if w.names.contains(b) {
        let i = w.names.index_of(b);
        assert(i == v.names.len());
        assert forall|k: int| 0 <= k < v.decls.len() implies (#[trigger] v.decls[k]).0 != i by {}
    }
}

/// A declaration for a name that had none keeps every import entry in order.
pub proof fn lemma_push_keeps_import(v: ArtifactView, w: ArtifactView, e: (usize, ImportKind))
    requires
        v.wf(),
        v.import_ok(e),
        w.decls.len() == v.decls.len() + 1,
        forall|i: int| 0 <= i < v.decls.len() ==> #[trigger] w.decls[i] == v.decls[i],
        !v.has_decl(w.decls[v.decls.len() as int].0),
    ensures
        w.import_ok(e),
{
    let f = v.slot_of(e.0);
    assert(w.decls[f].0 == e.0);
    let f2 = w.slot_of(e.0);
    if f2 < v.decls.len() {
        assert(v.decls[f2].0 == w.decls[f2].0);
    }
    assert(f2 == f);
}

/// Replacing the declaration of another name keeps an import entry in order.
pub proof fn lemma_update_keeps_import(v: ArtifactView, w: ArtifactView, k: int, e: (usize, ImportKind))
    requires
        v.wf(),
        v.import_ok(e),
        0 <= k < v.decls.len(),
        w.decls.len() == v.decls.len(),
        forall|i: int| 0 <= i < v.decls.len() ==> (#[trigger] w.decls[i]).0 == v.decls[i].0,
        forall|i: int| 0 <= i < v.decls.len() && i != k ==> #[trigger] w.decls[i] == v.decls[i],
        v.decls[k].0 == e.0 ==> w.decls[k].1.decl == v.decls[k].1.decl,
    ensures
        w.import_ok(e),
{
    let f = v.slot_of(e.0);
    assert(w.decls[f].0 == e.0);
    let f2 = w.slot_of(e.0);
    assert(v.decls[f2].0 == w.decls[f2].0);
    assert(f2 == f);
}

/// A declaration for a name that had none keeps every definition in order.
pub proof fn lemma_push_keeps_definition(v: ArtifactView, w: ArtifactView, d: DefinitionView)
    requires
        v.wf(),
        v.definition_ok(d),
        w.decls.len() == v.decls.len() + 1,
        forall|i: int| 0 <= i < v.decls.len() ==> #[trigger] w.decls[i] == v.decls[i],
        !v.has_decl(w.decls[v.decls.len() as int].0),
    ensures
        w.definition_ok(d),
{
    let f = v.slot_of(d.name);
    assert(w.decls[f].0 == d.name);
    let f2 = w.slot_of(d.name);
    if f2 < v.decls.len() {
        assert(v.decls[f2].0 == w.decls[f2].0);
    }
    assert(f2 == f);
}

/// Replacing one declaration, and not that of a definition, keeps the
/// definition in order.
pub proof fn lemma_update_keeps_definition(v: ArtifactView, w: ArtifactView, k: int, d: DefinitionView)
    requires
        v.wf(),
        v.definition_ok(d),
        0 <= k < v.decls.len(),
        w.decls.len() == v.decls.len(),
        forall|i: int| 0 <= i < v.decls.len() ==> (#[trigger] w.decls[i]).0 == v.decls[i].0,
        forall|i: int| 0 <= i < v.decls.len() && i != k ==> #[trigger] w.decls[i] == v.decls[i],
        v.decls[k].0 == d.name ==> w.decls[k] == v.decls[k],
    ensures
        w.definition_ok(d),
{
    let f = v.slot_of(d.name);
    assert(w.decls[f].0 == d.name);
    let f2 = w.slot_of(d.name);
    assert(v.decls[f2].0 == w.decls[f2].0);
    assert(f2 == f);
}

/// A declaration for a name that had none keeps every recorded link in order.
pub proof fn lemma_push_keeps_links(v: ArtifactView, w: ArtifactView, l: Relocation)
    requires
        v.wf(),
        v.link_ok(l),
        w.decls.len() == v.decls.len() + 1,
        forall|i: int| 0 <= i < v.decls.len() ==> #[trigger] w.decls[i] == v.decls[i],
        !v.has_decl(w.decls[v.decls.len() as int].0),
    ensures
        w.link_ok(l),
{
    let f = v.slot_of(l.from);
    let t = v.slot_of(l.to);
    assert(w.decls[f].0 == l.from);
    assert(w.decls[t].0 == l.to);
    let f2 = w.slot_of(l.from);
    if f2 < v.decls.len() {
        assert(v.decls[f2].0 == w.decls[f2].0);
    }
    assert(f2 == f);
}

/// Replacing a declaration by one for the same name that is a definition
/// if the old one was keeps every recorded link in order.
pub proof fn lemma_update_keeps_links(v: ArtifactView, w: ArtifactView, k: int, l: Relocation)
    requires
        v.wf(),
        v.link_ok(l),
        0 <= k < v.decls.len(),
        w.decls.len() == v.decls.len(),
        forall|i: int| 0 <= i < v.decls.len() ==> (#[trigger] w.decls[i]).0 == v.decls[i].0,
        forall|i: int| 0 <= i < v.decls.len() && i != k ==> #[trigger] w.decls[i] == v.decls[i],
        v.decls[k].1.decl is Defined ==> w.decls[k].1.decl is Defined,
    ensures
        w.link_ok(l),
{
    let f = v.slot_of(l.from);
    let t = v.slot_of(l.to);
    assert(w.decls[f].0 == l.from);
    assert(w.decls[t].0 == l.to);
    let f2 = w.slot_of(l.from);
    assert(v.decls[f2].0 == w.decls[f2].0);
    assert(f2 == f);
}

} // verus!
