//! Declarations: what a named symbol is, before any bytes are supplied for it.

use vstd::prelude::*;
use crate::artifact::ArtifactError;

verus! {

/// The kind of import this is: a function, or data living in another object.
#[derive(Debug, Copy, Clone, PartialEq, Eq, Structural)]
pub enum ImportKind {
    /// A function
    Function,
    /// An imported piece of data
    Data,
}

/// Linker binding scope of a definition
#[derive(Debug, Copy, Clone, PartialEq, Eq, Structural)]
pub enum Scope {
    /// Available to all components
    Global,
    /// Available only inside the defining component
    Local,
    /// Available to all components, but only selected if no global definition is found
    Weak,
}

/// Linker visibility of a definition
#[derive(Debug, Copy, Clone, PartialEq, Eq, Structural)]
pub enum Visibility {
    /// Visibility determined by the symbol's scope
    Default,
    /// Visible in other components, but cannot be preempted
    Protected,
    /// Not visible to other components
    Hidden,
}

/// Type of data declared
#[derive(Debug, Copy, Clone, PartialEq, Eq, Structural)]
pub enum DataType {
    /// Ordinary raw bytes
    Bytes,
    /// 0-terminated C-style string
    String,
}

/// The kind of a raw section
#[derive(Debug, Copy, Clone, PartialEq, Eq, Structural)]
pub enum SectionKind {
    /// Mutable data
    Data,
    /// Debug information
    Debug,
    /// Code or read-only data
    Text,
}

/// Builder for function import declarations
#[derive(Debug, Copy, Clone, PartialEq, Eq, Structural)]
pub struct FunctionImportDecl {}

/// Builder for data import declarations
#[derive(Debug, Copy, Clone, PartialEq, Eq, Structural)]
pub struct DataImportDecl {}

/// Builder for function declarations
#[derive(Debug, Copy, Clone, PartialEq, Eq, Structural)]
pub struct FunctionDecl {
    /// Binding scope
    pub scope: Scope,
    /// Visibility
    pub visibility: Visibility,
    /// Alignment in bytes; a backend default when absent
    pub align: Option<u64>,
    /// Explicit writability; read-only when absent
    pub writable: Option<bool>,
}

/// Builder for data declarations
#[derive(Debug, Copy, Clone, PartialEq, Eq, Structural)]
pub struct DataDecl {
    /// Binding scope
    pub scope: Scope,
    /// Visibility
    pub visibility: Visibility,
    /// Whether the contents may be written at run time
    pub writable: bool,
    /// Explicit executability; not executable when absent
    pub executable: Option<bool>,
    /// What the bytes are
    pub datatype: DataType,
    /// Alignment in bytes; a backend default when absent
    pub align: Option<u64>,
}

/// Builder for a section declaration
#[derive(Debug, Copy, Clone, PartialEq, Eq, Structural)]
pub struct SectionDecl {
    /// The kind of section
    pub kind: SectionKind,
    /// What the bytes are
    pub datatype: DataType,
    /// Alignment in bytes; a backend default when absent
    pub align: Option<u64>,
    /// Explicit writability; the kind decides when absent
    pub writable: Option<bool>,
    /// Explicit executability; the kind decides when absent
    pub executable: Option<bool>,
    /// Whether the section is loaded at run time
    pub loaded: bool,
}

/// A declaration that is defined inside this artifact
#[derive(Debug, Copy, Clone, PartialEq, Eq, Structural)]
pub enum DefinedDecl {
    /// A function defined in this artifact
    Function(FunctionDecl),
    /// A data object defined in this artifact
    Data(DataDecl),
    /// A section defined in this artifact
    Section(SectionDecl),
}

/// The kind of declaration this is
#[derive(Debug, Copy, Clone, PartialEq, Eq, Structural)]
pub enum Decl {
    /// Declaration of an import
    Import(ImportKind),
    /// Declaration of an item to be defined in this artifact
    Defined(DefinedDecl),
}

/// An alignment is acceptable when it is absent or a power of two.
pub open spec fn valid_align(align: Option<u64>) -> bool {
    match align {
        Some(a) => a != 0 && a & ((a - 1) as u64) == 0,
        None => true,
    }
}

impl ImportKind {
    /// The import kind of a declaration, if it is an import
    pub fn from_decl(decl: &Decl) -> (r: Option<ImportKind>)
        ensures
            r == (match *decl {
                Decl::Import(ik) => Some(ik),
                Decl::Defined(_) => None,
            }),
    {
        match decl {
            Decl::Import(ik) => Some(*ik),
            _ => None,
        }
    }
}


impl FunctionDecl {
    /// Whether the contents are writable: only when explicitly set so.
    pub open spec fn spec_is_writable(&self) -> bool {
        self.writable == Some(true)
    }

    /// Set scope to global
    pub fn global(self) -> (r: Self)
        ensures
            r == (Self { scope: Scope::Global, ..self }),
    {
        self.with_scope(Scope::Global)
    }

    /// Set scope to local
    pub fn local(self) -> (r: Self)
        ensures
            r == (Self { scope: Scope::Local, ..self }),
    {
        self.with_scope(Scope::Local)
    }

    /// Set scope to weak
    pub fn weak(self) -> (r: Self)
        ensures
            r == (Self { scope: Scope::Weak, ..self }),
    {
        self.with_scope(Scope::Weak)
    }

    /// Builder for scope
    pub fn with_scope(self, scope: Scope) -> (r: Self)
        ensures
            r == (Self { scope, ..self }),
    {
        let mut s = self;
        s.scope = scope;
        s
    }

    /// Get scope
    pub fn get_scope(&self) -> (r: Scope)
        ensures
            r == self.scope,
    {
        self.scope
    }

    /// Set scope
    pub fn set_scope(&mut self, scope: Scope)
        ensures
            *final(self) == (Self { scope, ..*old(self) }),
    {
        self.scope = scope;
    }

    /// Whether the scope is global; false for local and weak
    pub fn is_global(&self) -> (r: bool)
        ensures
            r == (self.scope == Scope::Global),
    {
        self.scope == Scope::Global
    }

    /// Set visibility to default
    pub fn default_visibility(self) -> (r: Self)
        ensures
            r == (Self { visibility: Visibility::Default, ..self }),
    {
        self.with_visibility(Visibility::Default)
    }

    /// Set visibility to protected
    pub fn protected(self) -> (r: Self)
        ensures
            r == (Self { visibility: Visibility::Protected, ..self }),
    {
        self.with_visibility(Visibility::Protected)
    }

    /// Set visibility to hidden
    pub fn hidden(self) -> (r: Self)
        ensures
            r == (Self { visibility: Visibility::Hidden, ..self }),
    {
        self.with_visibility(Visibility::Hidden)
    }

    /// Builder for visibility
    pub fn with_visibility(self, visibility: Visibility) -> (r: Self)
        ensures
            r == (Self { visibility, ..self }),
    {
        let mut s = self;
        s.visibility = visibility;
        s
    }

    /// Get visibility
    pub fn get_visibility(&self) -> (r: Visibility)
        ensures
            r == self.visibility,
    {
        self.visibility
    }

    /// Set visibility
    pub fn set_visibility(&mut self, visibility: Visibility)
        ensures
            *final(self) == (Self { visibility, ..*old(self) }),
    {
        self.visibility = visibility;
    }

    /// Build alignment, in bytes; with `None` the backend chooses
    pub fn with_align(self, align: Option<u64>) -> (r: Self)
        requires
            valid_align(align),
        ensures
            r == (Self { align, ..self }),
    {
        let mut s = self;
        s.set_align(align);
        s
    }

    /// Set alignment
    pub fn set_align(&mut self, align: Option<u64>)
        requires
            valid_align(align),
        ensures
            *final(self) == (Self { align, ..*old(self) }),
    {
        self.align = align;
    }

    /// Get alignment
    pub fn get_align(&self) -> (r: Option<u64>)
        ensures
            r == self.align,
    {
        self.align
    }

    /// Setter for mutability
    pub fn set_writable(&mut self, writable: bool)
        ensures
            *final(self) == (Self { writable: Some(writable), ..*old(self) }),
    {
        self.writable = Some(writable);
    }

    /// Builder for mutability
    pub fn with_writable(self, writable: bool) -> (r: Self)
        ensures
            r == (Self { writable: Some(writable), ..self }),
    {
        let mut s = self;
        s.writable = Some(writable);
        s
    }

    /// Set mutability to writable
    pub fn writable(self) -> (r: Self)
        ensures
            r == (Self { writable: Some(true), ..self }),
    {
        self.with_writable(true)
    }

    /// Set mutability to read-only
    pub fn read_only(self) -> (r: Self)
        ensures
            r == (Self { writable: Some(false), ..self }),
    {
        self.with_writable(false)
    }

    /// Accessor to determine whether contents are writable
    #[verifier::when_used_as_spec(spec_is_writable)]
    pub fn is_writable(&self) -> (r: bool)
        ensures
            r == self.spec_is_writable(),
    {
        if let Some(writable) = self.writable {
            return writable;
        }
        false
    }
}

impl Default for FunctionDecl {
    fn default() -> (r: Self)
        ensures
            r == (FunctionDecl {
                scope: Scope::Local,
                visibility: Visibility::Default,
                align: None,
                writable: None,
            }),
    {
        FunctionDecl {
            scope: Scope::Local,
            visibility: Visibility::Default,
            align: None,
            writable: None,
        }
    }
}

impl DataDecl {
    /// Whether the contents are executable: only when explicitly set so.
    pub open spec fn spec_is_executable(&self) -> bool {
        self.executable == Some(true)
    }

    /// Set scope to global
    pub fn global(self) -> (r: Self)
        ensures
            r == (Self { scope: Scope::Global, ..self }),
    {
        self.with_scope(Scope::Global)
    }

    /// Set scope to local
    pub fn local(self) -> (r: Self)
        ensures
            r == (Self { scope: Scope::Local, ..self }),
    {
        self.with_scope(Scope::Local)
    }

    /// Set scope to weak
    pub fn weak(self) -> (r: Self)
        ensures
            r == (Self { scope: Scope::Weak, ..self }),
    {
        self.with_scope(Scope::Weak)
    }

    /// Builder for scope
    pub fn with_scope(self, scope: Scope) -> (r: Self)
        ensures
            r == (Self { scope, ..self }),
    {
        let mut s = self;
        s.scope = scope;
        s
    }

    /// Get scope
    pub fn get_scope(&self) -> (r: Scope)
        ensures
            r == self.scope,
    {
        self.scope
    }

    /// Set scope
    pub fn set_scope(&mut self, scope: Scope)
        ensures
            *final(self) == (Self { scope, ..*old(self) }),
    {
        self.scope = scope;
    }

    /// Whether the scope is global; false for local and weak
    pub fn is_global(&self) -> (r: bool)
        ensures
            r == (self.scope == Scope::Global),
    {
        self.scope == Scope::Global
    }

    /// Set visibility to default
    pub fn default_visibility(self) -> (r: Self)
        ensures
            r == (Self { visibility: Visibility::Default, ..self }),
    {
        self.with_visibility(Visibility::Default)
    }

    /// Set visibility to protected
    pub fn protected(self) -> (r: Self)
        ensures
            r == (Self { visibility: Visibility::Protected, ..self }),
    {
        self.with_visibility(Visibility::Protected)
    }

    /// Set visibility to hidden
    pub fn hidden(self) -> (r: Self)
        ensures
            r == (Self { visibility: Visibility::Hidden, ..self }),
    {
        self.with_visibility(Visibility::Hidden)
    }

    /// Builder for visibility
    pub fn with_visibility(self, visibility: Visibility) -> (r: Self)
        ensures
            r == (Self { visibility, ..self }),
    {
        let mut s = self;
        s.visibility = visibility;
        s
    }

    /// Get visibility
    pub fn get_visibility(&self) -> (r: Visibility)
        ensures
            r == self.visibility,
    {
        self.visibility
    }

    /// Set visibility
    pub fn set_visibility(&mut self, visibility: Visibility)
        ensures
            *final(self) == (Self { visibility, ..*old(self) }),
    {
        self.visibility = visibility;
    }

    /// Build datatype
    pub fn with_datatype(self, datatype: DataType) -> (r: Self)
        ensures
            r == (Self { datatype, ..self }),
    {
        let mut s = self;
        s.datatype = datatype;
        s
    }

    /// Set datatype
    pub fn set_datatype(&mut self, datatype: DataType)
        ensures
            *final(self) == (Self { datatype, ..*old(self) }),
    {
        self.datatype = datatype;
    }

    /// Get datatype
    pub fn get_datatype(&self) -> (r: DataType)
        ensures
            r == self.datatype,
    {
        self.datatype
    }

    /// Build alignment, in bytes; with `None` the backend chooses
    pub fn with_align(self, align: Option<u64>) -> (r: Self)
        requires
            valid_align(align),
        ensures
            r == (Self { align, ..self }),
    {
        let mut s = self;
        s.set_align(align);
        s
    }

    /// Set alignment
    pub fn set_align(&mut self, align: Option<u64>)
        requires
            valid_align(align),
        ensures
            *final(self) == (Self { align, ..*old(self) }),
    {
        self.align = align;
    }

    /// Get alignment
    pub fn get_align(&self) -> (r: Option<u64>)
        ensures
            r == self.align,
    {
        self.align
    }

    /// Builder for mutability
    pub fn with_writable(self, writable: bool) -> (r: Self)
        ensures
            r == (Self { writable, ..self }),
    {
        let mut s = self;
        s.writable = writable;
        s
    }

    /// Set mutability to writable
    pub fn writable(self) -> (r: Self)
        ensures
            r == (Self { writable: true, ..self }),
    {
        self.with_writable(true)
    }

    /// Set mutability to read-only
    pub fn read_only(self) -> (r: Self)
        ensures
            r == (Self { writable: false, ..self }),
    {
        self.with_writable(false)
    }

    /// Setter for mutability
    pub fn set_writable(&mut self, writable: bool)
        ensures
            *final(self) == (Self { writable, ..*old(self) }),
    {
        self.writable = writable;
    }

    /// Accessor for mutability
    pub fn is_writable(&self) -> (r: bool)
        ensures
            r == self.writable,
    {
        self.writable
    }

    /// Setter for executability
    pub fn set_executable(&mut self, executable: bool)
        ensures
            *final(self) == (Self { executable: Some(executable), ..*old(self) }),
    {
        self.executable = Some(executable);
    }

    /// Builder for executability
    pub fn with_executable(self, executable: bool) -> (r: Self)
        ensures
            r == (Self { executable: Some(executable), ..self }),
    {
        let mut s = self;
        s.executable = Some(executable);
        s
    }

    /// Accessor to determine whether contents are executable
    #[verifier::when_used_as_spec(spec_is_executable)]
    pub fn is_executable(&self) -> (r: bool)
        ensures
            r == self.spec_is_executable(),
    {
        if let Some(executable) = self.executable {
            return executable;
        }
        false
    }
}

impl Default for DataDecl {
    fn default() -> (r: Self)
        ensures
            r == (DataDecl {
                scope: Scope::Local,
                visibility: Visibility::Default,
                writable: false,
                executable: None,
                datatype: DataType::Bytes,
                align: None,
            }),
    {
        DataDecl {
            scope: Scope::Local,
            visibility: Visibility::Default,
            writable: false,
            executable: None,
            datatype: DataType::Bytes,
            align: None,
        }
    }
}

impl SectionDecl {
    /// Whether the contents are writable: as set, else by kind (data sections are).
    pub open spec fn spec_is_writable(&self) -> bool {
        match self.writable {
            Some(w) => w,
            None => self.kind == SectionKind::Data,
        }
    }

    /// Whether the contents are executable: as set, else by kind (text sections are).
    pub open spec fn spec_is_executable(&self) -> bool {
        match self.executable {
            Some(e) => e,
            None => self.kind == SectionKind::Text,
        }
    }

    /// Build datatype
    pub fn with_datatype(self, datatype: DataType) -> (r: Self)
        ensures
            r == (Self { datatype, ..self }),
    {
        let mut s = self;
        s.datatype = datatype;
        s
    }

    /// Set datatype
    pub fn set_datatype(&mut self, datatype: DataType)
        ensures
            *final(self) == (Self { datatype, ..*old(self) }),
    {
        self.datatype = datatype;
    }

    /// Get datatype
    pub fn get_datatype(&self) -> (r: DataType)
        ensures
            r == self.datatype,
    {
        self.datatype
    }

    /// Build alignment, in bytes; with `None` the backend chooses
    pub fn with_align(self, align: Option<u64>) -> (r: Self)
        requires
            valid_align(align),
        ensures
            r == (Self { align, ..self }),
    {
        let mut s = self;
        s.set_align(align);
        s
    }

    /// Set alignment
    pub fn set_align(&mut self, align: Option<u64>)
        requires
            valid_align(align),
        ensures
            *final(self) == (Self { align, ..*old(self) }),
    {
        self.align = align;
    }

    /// Get alignment
    pub fn get_align(&self) -> (r: Option<u64>)
        ensures
            r == self.align,
    {
        self.align
    }

    /// Create a `SectionDecl` of the given kind
    pub fn new(kind: SectionKind) -> (r: Self)
        ensures
            r == (SectionDecl {
                kind,
                datatype: DataType::Bytes,
                align: None,
                writable: None,
                executable: None,
                loaded: false,
            }),
    {
        SectionDecl {
            kind,
            datatype: DataType::Bytes,
            align: None,
            writable: None,
            executable: None,
            loaded: false,
        }
    }

    /// Sections are never global; the accessor exists for symmetry with the
    /// other declarations
    pub fn is_global(&self) -> (r: bool)
        ensures
            !r,
    {
        false
    }

    /// Setter for mutability
    pub fn set_writable(&mut self, writable: bool)
        ensures
            *final(self) == (Self { writable: Some(writable), ..*old(self) }),
    {
        self.writable = Some(writable);
    }

    /// Builder for mutability
    pub fn with_writable(self, writable: bool) -> (r: Self)
        ensures
            r == (Self { writable: Some(writable), ..self }),
    {
        let mut s = self;
        s.writable = Some(writable);
        s
    }

    /// Set mutability to writable
    pub fn writable(self) -> (r: Self)
        ensures
            r == (Self { writable: Some(true), ..self }),
    {
        self.with_writable(true)
    }

    /// Set mutability to read-only
    pub fn read_only(self) -> (r: Self)
        ensures
            r == (Self { writable: Some(false), ..self }),
    {
        self.with_writable(false)
    }

    /// Accessor to determine whether contents are writable
    #[verifier::when_used_as_spec(spec_is_writable)]
    pub fn is_writable(&self) -> (r: bool)
        ensures
            r == self.spec_is_writable(),
    {
        if let Some(writable) = self.writable {
            return writable;
        }
        match self.kind {
            SectionKind::Data => true,
            SectionKind::Debug | SectionKind::Text => false,
        }
    }

    /// Setter for executability
    pub fn set_executable(&mut self, executable: bool)
        ensures
            *final(self) == (Self { executable: Some(executable), ..*old(self) }),
    {
        self.executable = Some(executable);
    }

    /// Builder for executability
    pub fn with_executable(self, executable: bool) -> (r: Self)
        ensures
            r == (Self { executable: Some(executable), ..self }),
    {
        let mut s = self;
        s.executable = Some(executable);
        s
    }

    /// Accessor to determine whether contents are executable
    #[verifier::when_used_as_spec(spec_is_executable)]
    pub fn is_executable(&self) -> (r: bool)
        ensures
            r == self.spec_is_executable(),
    {
        if let Some(executable) = self.executable {
            return executable;
        }
        match self.kind {
            SectionKind::Text => true,
            SectionKind::Data | SectionKind::Debug => false,
        }
    }

    /// Setter for loadability
    pub fn set_loaded(&mut self, loaded: bool)
        ensures
            *final(self) == (Self { loaded, ..*old(self) }),
    {
        self.loaded = loaded;
    }

    /// Builder for loadability
    pub fn with_loaded(self, loaded: bool) -> (r: Self)
        ensures
            r == (Self { loaded, ..self }),
    {
        let mut s = self;
        s.loaded = loaded;
        s
    }

    /// Accessor to determine whether contents are loaded at run time
    pub fn is_loaded(&self) -> (r: bool)
        ensures
            r == self.loaded,
    {
        self.loaded
    }

    /// Get the kind of this section
    pub fn kind(&self) -> (r: SectionKind)
        ensures
            r == self.kind,
    {
        self.kind
    }
}

impl Default for FunctionImportDecl {
    fn default() -> (r: Self)
        ensures
            r == (FunctionImportDecl {  }),
    {
        FunctionImportDecl {  }
    }
}

impl Default for DataImportDecl {
    fn default() -> (r: Self)
        ensures
            r == (DataImportDecl {  }),
    {
        DataImportDecl {  }
    }
}

impl DefinedDecl {
    /// Whether the scope is global: sections never are.
    pub open spec fn spec_is_global(&self) -> bool {
        match *self {
            DefinedDecl::Function(a) => a.scope == Scope::Global,
            DefinedDecl::Data(a) => a.scope == Scope::Global,
            DefinedDecl::Section(_) => false,
        }
    }

    /// Whether the contents are writable.
    pub open spec fn spec_is_writable(&self) -> bool {
        match *self {
            DefinedDecl::Function(a) => a.spec_is_writable(),
            DefinedDecl::Data(a) => a.writable,
            DefinedDecl::Section(a) => a.spec_is_writable(),
        }
    }

    /// Whether the contents are executable: functions always are.
    pub open spec fn spec_is_executable(&self) -> bool {
        match *self {
            DefinedDecl::Function(_) => true,
            DefinedDecl::Data(a) => a.spec_is_executable(),
            DefinedDecl::Section(a) => a.spec_is_executable(),
        }
    }

    /// Whether the contents are loaded at run time: functions and data always are.
    pub open spec fn spec_is_loaded(&self) -> bool {
        match *self {
            DefinedDecl::Function(_) => true,
            DefinedDecl::Data(_) => true,
            DefinedDecl::Section(a) => a.loaded,
        }
    }

    /// The requested alignment, if any.
    pub open spec fn spec_get_align(&self) -> Option<u64> {
        match *self {
            DefinedDecl::Function(a) => a.align,
            DefinedDecl::Data(a) => a.align,
            DefinedDecl::Section(a) => a.align,
        }
    }

    /// Accessor to determine whether variant is Function
    pub fn is_function(&self) -> (r: bool)
        ensures
            r == (*self is Function),
    {
        match self {
            DefinedDecl::Function(_) => true,
            _ => false,
        }
    }

    /// Accessor to determine whether variant is Data
    pub fn is_data(&self) -> (r: bool)
        ensures
            r == (*self is Data),
    {
        match self {
            DefinedDecl::Data(_) => true,
            _ => false,
        }
    }

    /// Accessor to determine whether variant is Section
    pub fn is_section(&self) -> (r: bool)
        ensures
            r == (*self is Section),
    {
        match self {
            DefinedDecl::Section(_) => true,
            _ => false,
        }
    }

    /// Accessor to determine whether scope is global
    #[verifier::when_used_as_spec(spec_is_global)]
    pub fn is_global(&self) -> (r: bool)
        ensures
            r == self.spec_is_global(),
    {
        match self {
            DefinedDecl::Function(a) => a.is_global(),
            DefinedDecl::Data(a) => a.is_global(),
            DefinedDecl::Section(a) => a.is_global(),
        }
    }

    /// Accessor to determine whether contents are writable
    #[verifier::when_used_as_spec(spec_is_writable)]
    pub fn is_writable(&self) -> (r: bool)
        ensures
            r == self.spec_is_writable(),
    {
        match self {
            DefinedDecl::Data(a) => a.is_writable(),
            DefinedDecl::Function(a) => a.is_writable(),
            DefinedDecl::Section(a) => a.is_writable(),
        }
    }

    /// Accessor to determine whether contents are executable
    #[verifier::when_used_as_spec(spec_is_executable)]
    pub fn is_executable(&self) -> (r: bool)
        ensures
            r == self.spec_is_executable(),
    {
        match self {
            DefinedDecl::Section(a) => a.is_executable(),
            DefinedDecl::Function(_) => true,
            DefinedDecl::Data(a) => a.is_executable(),
        }
    }

    /// Accessor to determine whether contents will be loaded at run time
    #[verifier::when_used_as_spec(spec_is_loaded)]
    pub fn is_loaded(&self) -> (r: bool)
        ensures
            r == self.spec_is_loaded(),
    {
        match self {
            DefinedDecl::Section(a) => a.is_loaded(),
            DefinedDecl::Function(_) => true,
            DefinedDecl::Data(_) => true,
        }
    }

    /// Accessor to determine the minimal alignment
    #[verifier::when_used_as_spec(spec_get_align)]
    pub fn get_align(&self) -> (r: Option<u64>)
        ensures
            r == self.spec_get_align(),
    {
        match self {
            DefinedDecl::Data(a) => a.get_align(),
            DefinedDecl::Function(a) => a.get_align(),
            DefinedDecl::Section(a) => a.get_align(),
        }
    }
}

/// Whether a name declared as `old` may be declared again as `new`.
///
/// An import may be declared again as the same kind of import, or
/// strengthened to a definition of the matching kind; a defined function or
/// data object accepts a later import of its kind, or an identical
/// declaration; a section accepts only an identical declaration.
pub open spec fn compatible(old: Decl, new: Decl) -> bool {
    match old {
        Decl::Import(ImportKind::Data) => new == old || new matches Decl::Defined(
            DefinedDecl::Data(_),
        ),
        Decl::Import(ImportKind::Function) => new == old || new matches Decl::Defined(
            DefinedDecl::Function(_),
        ),
        Decl::Defined(DefinedDecl::Data(_)) => new == old || new == Decl::Import(ImportKind::Data),
        Decl::Defined(DefinedDecl::Function(_)) => new == old || new == Decl::Import(
            ImportKind::Function,
        ),
        Decl::Defined(DefinedDecl::Section(_)) => new == old,
    }
}

/// The declaration that stands for a name after `new` was absorbed into
/// `old`: an import gives way to a definition, everything else stays.
pub open spec fn absorbed(old: Decl, new: Decl) -> Decl {
    if old is Import && new is Defined {
        new
    } else {
        old
    }
}

impl Decl {
    /// Whether this is an import.
    pub open spec fn spec_is_import(&self) -> bool {
        *self is Import
    }

    /// Whether this is a raw section.
    pub open spec fn spec_is_section(&self) -> bool {
        *self matches Decl::Defined(DefinedDecl::Section(_))
    }

    /// An import of a function defined elsewhere
    pub fn function_import() -> (r: FunctionImportDecl)
        ensures
            r == (FunctionImportDecl {  }),
    {
        FunctionImportDecl {  }
    }

    /// An import of data defined elsewhere
    pub fn data_import() -> (r: DataImportDecl)
        ensures
            r == (DataImportDecl {  }),
    {
        DataImportDecl {  }
    }

    /// A function defined in this artifact: local, default visibility
    pub fn function() -> (r: FunctionDecl)
        ensures
            r == (FunctionDecl {
                scope: Scope::Local,
                visibility: Visibility::Default,
                align: None,
                writable: None,
            }),
    {
        FunctionDecl::default()
    }

    /// A data object defined in this artifact: local, read-only raw bytes
    pub fn data() -> (r: DataDecl)
        ensures
            r == (DataDecl {
                scope: Scope::Local,
                visibility: Visibility::Default,
                writable: false,
                executable: None,
                datatype: DataType::Bytes,
                align: None,
            }),
    {
        DataDecl::default()
    }

    /// A null-terminated string object defined in this artifact
    pub fn cstring() -> (r: DataDecl)
        ensures
            r == (DataDecl {
                scope: Scope::Local,
                visibility: Visibility::Default,
                writable: false,
                executable: None,
                datatype: DataType::String,
                align: None,
            }),
    {
        DataDecl::default().with_datatype(DataType::String)
    }

    /// A section defined in this artifact
    pub fn section(kind: SectionKind) -> (r: SectionDecl)
        ensures
            r == (SectionDecl {
                kind,
                datatype: DataType::Bytes,
                align: None,
                writable: None,
                executable: None,
                loaded: false,
            }),
    {
        SectionDecl::new(kind)
    }

    /// Absorb a new declaration of the same name into this one, if the two
    /// are compatible; otherwise leave this one as it is and report both.
    pub fn absorb(&mut self, other: Decl) -> (r: Result<(), ArtifactError>)
        ensures
            r is Ok <==> compatible(*old(self), other),
            r is Ok ==> *final(self) == absorbed(*old(self), other),
            r is Err ==> *final(self) == *old(self) && r == Err::<(), ArtifactError>(
                ArtifactError::IncompatibleDeclaration { old: *old(self), new: other },
            ),
    {
        let current = *self;
        match current {
            Decl::Import(ImportKind::Data) => {
                match other {
                    Decl::Defined(DefinedDecl::Data(_)) => {
                        *self = other;
                        Ok(())
                    },
                    Decl::Import(ImportKind::Data) => Ok(()),
                    _ => Err(ArtifactError::IncompatibleDeclaration { old: current, new: other }),
                }
            },
            Decl::Import(ImportKind::Function) => {
                match other {
                    Decl::Defined(DefinedDecl::Function(_)) => {
                        *self = other;
                        Ok(())
                    },
                    Decl::Import(ImportKind::Function) => Ok(()),
                    _ => Err(ArtifactError::IncompatibleDeclaration { old: current, new: other }),
                }
            },
            Decl::Defined(DefinedDecl::Data(_)) => {
                match other {
                    Decl::Import(ImportKind::Data) => Ok(()),
                    _ => {
                        if current == other {
                            Ok(())
                        } else {
                            Err(
                                ArtifactError::IncompatibleDeclaration {
                                    old: current,
                                    new: other,
                                },
                            )
                        }
                    },
                }
            },
            Decl::Defined(DefinedDecl::Function(_)) => {
                match other {
                    Decl::Import(ImportKind::Function) => Ok(()),
                    _ => {
                        if current == other {
                            Ok(())
                        } else {
                            Err(
                                ArtifactError::IncompatibleDeclaration {
                                    old: current,
                                    new: other,
                                },
                            )
                        }
                    },
                }
            },
            Decl::Defined(DefinedDecl::Section(_)) => {
                if current == other {
                    Ok(())
                } else {
                    Err(ArtifactError::IncompatibleDeclaration { old: current, new: other })
                }
            },
        }
    }

    /// Is this an import (function or data)?
    #[verifier::when_used_as_spec(spec_is_import)]
    pub fn is_import(&self) -> (r: bool)
        ensures
            r == self.spec_is_import(),
    {
        match *self {
            Decl::Import(_) => true,
            _ => false,
        }
    }

    /// Is this a section?
    #[verifier::when_used_as_spec(spec_is_section)]
    pub fn is_section(&self) -> (r: bool)
        ensures
            r == self.spec_is_section(),
    {
        match *self {
            Decl::Defined(DefinedDecl::Section(_)) => true,
            _ => false,
        }
    }
}

impl From<FunctionImportDecl> for Decl {
    fn from(d: FunctionImportDecl) -> (r: Decl)
        ensures
            r == Decl::Import(ImportKind::Function),
    {
        Decl::Import(ImportKind::Function)
    }
}

impl vstd::std_specs::convert::FromSpecImpl<FunctionImportDecl> for Decl {
    open spec fn obeys_from_spec() -> bool {
        true
    }

    open spec fn from_spec(d: FunctionImportDecl) -> Decl {
        Decl::Import(ImportKind::Function)
    }
}

impl From<DataImportDecl> for Decl {
    fn from(d: DataImportDecl) -> (r: Decl)
        ensures
            r == Decl::Import(ImportKind::Data),
    {
        Decl::Import(ImportKind::Data)
    }
}

impl vstd::std_specs::convert::FromSpecImpl<DataImportDecl> for Decl {
    open spec fn obeys_from_spec() -> bool {
        true
    }

    open spec fn from_spec(d: DataImportDecl) -> Decl {
        Decl::Import(ImportKind::Data)
    }
}

impl From<FunctionDecl> for Decl {
    fn from(d: FunctionDecl) -> (r: Decl)
        ensures
            r == Decl::Defined(DefinedDecl::Function(d)),
    {
        Decl::Defined(DefinedDecl::Function(d))
    }
}

impl vstd::std_specs::convert::FromSpecImpl<FunctionDecl> for Decl {
    open spec fn obeys_from_spec() -> bool {
        true
    }

    open spec fn from_spec(d: FunctionDecl) -> Decl {
        Decl::Defined(DefinedDecl::Function(d))
    }
}

impl From<DataDecl> for Decl {
    fn from(d: DataDecl) -> (r: Decl)
        ensures
            r == Decl::Defined(DefinedDecl::Data(d)),
    {
        Decl::Defined(DefinedDecl::Data(d))
    }
}

impl vstd::std_specs::convert::FromSpecImpl<DataDecl> for Decl {
    open spec fn obeys_from_spec() -> bool {
        true
    }

    open spec fn from_spec(d: DataDecl) -> Decl {
        Decl::Defined(DefinedDecl::Data(d))
    }
}

impl From<SectionDecl> for Decl {
    fn from(d: SectionDecl) -> (r: Decl)
        ensures
            r == Decl::Defined(DefinedDecl::Section(d)),
    {
        Decl::Defined(DefinedDecl::Section(d))
    }
}

impl vstd::std_specs::convert::FromSpecImpl<SectionDecl> for Decl {
    open spec fn obeys_from_spec() -> bool {
        true
    }

    open spec fn from_spec(d: SectionDecl) -> Decl {
        Decl::Defined(DefinedDecl::Section(d))
    }
}

/// A declaration is absorbed by itself, and leaves itself unchanged.
pub proof fn lemma_absorb_same(d: Decl)
    ensures
        compatible(d, d),
        absorbed(d, d) == d,
{
}

/// Whatever is absorbed, the outcome is the old declaration or the new one,
/// and an outcome that differs from the old declaration is a definition that
/// replaced an import of its kind.
pub proof fn lemma_absorb_converges(old: Decl, new: Decl)
    requires
        compatible(old, new),
    ensures
        absorbed(old, new) == old || absorbed(old, new) == new,
        absorbed(old, new) != old ==> old is Import && absorbed(old, new) is Defined,
        old is Defined ==> absorbed(old, new) == old,
        compatible(absorbed(old, new), new),
{
}

} // verus!
