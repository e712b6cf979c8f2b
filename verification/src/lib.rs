//! A library for building relocatable object files (ELF and Mach-O) from an
//! in-memory description of symbols, their contents and their cross-references.

pub mod artifact;
pub mod decl;
pub mod elf;
pub mod interner;
pub mod mach;
pub mod table;
pub mod target;

pub use crate::artifact::{
    Artifact, ArtifactBuilder, ArtifactError, Binding, Data, EmitError, InternalDecl, Link,
    LinkAndDecl, Reloc,
};
pub use crate::decl::{
    DataDecl, DataImportDecl, DataType, Decl, DefinedDecl, FunctionDecl, FunctionImportDecl,
    ImportKind, Scope, SectionDecl, SectionKind, Visibility,
};
pub use crate::target::{Architecture, BinaryFormat, Ctx, Endianness, PointerWidth, Target};
