//! The declarations of a parsed source file and the diagnostics of the
//! parse, as plain values.
//!
//! A front end fills these types from its own syntax tree: every range is
//! already resolved to lines and columns, and every snippet is the source
//! text that the front end found under a span, or `None` where it found
//! none.
use vstd::prelude::*;
use crate::source_model::SourceRange;

verus! {

/// The level of a diagnostic, as the front end reports it.
#[derive(Debug, Clone, Copy, PartialEq, Eq, Structural)]
pub enum Level {
    Bug,
    DelayedBug,
    Cancelled,
    Fatal,
    PhaseFatal,
    Error { lint: bool },
    Warning,
    Note,
    OnceNote,
    Help,
    FailureNote,
    Allow,
    Expect,
}

/// One diagnostic event: a level, a text, and the primary ranges that the
/// text speaks of.
#[derive(Debug)]
pub struct Diagnostic {
    pub level: Level,
    pub message: String,
    pub primary_ranges: Vec<SourceRange>,
}

/// One parameter of a function: the snippets of its type and of its pattern.
#[derive(Debug)]
pub struct Param {
    pub ty_snippet: Option<String>,
    pub pat_snippet: Option<String>,
}

/// The return type of a function: left out, or written, with its snippet.
#[derive(Debug)]
pub enum FnRetTy {
    Default,
    Ty(Option<String>),
}

/// The parameters and the return type of a function.
#[derive(Debug)]
pub struct FnDecl {
    pub inputs: Vec<Param>,
    pub output: FnRetTy,
}

/// What a `use` tree brings in behind its prefix.
#[derive(Debug)]
pub enum UseTreeKind {
    /// The prefix itself, under another name if one is given.
    Simple(Option<String>),
    /// Everything under the prefix.
    Glob,
    /// A group of trees under the prefix.
    Nested(Vec<UseTree>),
}

/// A `use` tree: a path and what follows it.
#[derive(Debug)]
pub struct UseTree {
    /// The path, as text.
    pub prefix: String,
    /// The last segment of the path, or `None` for a path without segments.
    pub last_segment: Option<String>,
    pub kind: UseTreeKind,
    pub range: SourceRange,
}

/// One field of a struct, a union or an enum variant.
#[derive(Debug)]
pub struct FieldDef {
    /// The field's name; positional fields have none.
    pub name: Option<String>,
    pub range: SourceRange,
}

/// The fields of a struct, a union or an enum variant.
#[derive(Debug)]
pub enum VariantData {
    Struct(Vec<FieldDef>),
    Tuple(Vec<FieldDef>),
    Unit,
}

/// One variant of an enum.
#[derive(Debug)]
pub struct Variant {
    pub data: VariantData,
}

/// What an item inside a trait or an impl declares.
#[derive(Debug)]
pub enum AssocItemKind {
    /// A constant, with the snippet of its type.
    Const(Option<String>),
    /// A function, with the items that its body declares.
    Fn(FnDecl, Vec<Item>),
    Type,
    MacCall,
}

/// An item inside a trait or an impl.
#[derive(Debug)]
pub struct AssocItem {
    pub name: String,
    pub range: SourceRange,
    pub kind: AssocItemKind,
}

/// What an item inside a foreign block declares.
#[derive(Debug)]
pub enum ForeignItemKind {
    Fn(FnDecl),
    /// A static, with the snippet of its type.
    Static(Option<String>),
    TyAlias,
    MacCall,
}

/// An item inside a foreign block.
#[derive(Debug)]
pub struct ForeignItem {
    pub name: String,
    pub range: SourceRange,
    pub kind: ForeignItemKind,
}

/// What an item declares.
#[derive(Debug)]
pub enum ItemKind {
    ExternCrate,
    Use(UseTree),
    /// A static, with the snippet of its type.
    Static(Option<String>),
    /// A constant, with the snippet of its type.
    Const(Option<String>),
    /// A function, with the items that its body declares.
    Fn(FnDecl, Vec<Item>),
    Mod(Vec<Item>),
    ForeignMod(Vec<ForeignItem>),
    GlobalAsm,
    TyAlias,
    Enum(Vec<Variant>),
    Struct(VariantData),
    Union(VariantData),
    Trait(Vec<AssocItem>),
    TraitAlias,
    Impl(Vec<AssocItem>),
    MacCall,
    MacroDef,
}

/// A declaration: its name, its range and what it declares.
#[derive(Debug)]
pub struct Item {
    pub name: String,
    pub range: SourceRange,
    pub kind: ItemKind,
}

} // verus!
