//! Positions, diagnostics and the elements of a structural outline.
use vstd::prelude::*;

verus! {

/// A location as a front end reports it.
#[derive(Debug, Clone, Copy, PartialEq, Eq, Structural)]
pub struct Loc {
    /// The (1-based) line number
    pub line: usize,
    /// The (0-based) column offset
    pub col: usize,
}

/// A position in a source text.
#[derive(Debug, Clone, Copy, PartialEq, Eq, Structural)]
pub struct LineColumnPosition {
    /// The (0-based) line number
    pub line: usize,
    /// The (0-based) column offset
    pub col: usize,
}

/// A range of a source text, from `start_pos` up to `end_pos`.
#[derive(Debug, Clone, Copy, PartialEq, Eq, Structural)]
pub struct SourceRange {
    pub start_pos: LineColumnPosition,
    pub end_pos: LineColumnPosition,
}

impl Loc {
    /// The position of this location: the same column, and the line counted
    /// from 0.
    pub open spec fn position(&self) -> LineColumnPosition {
        LineColumnPosition { line: (self.line - 1) as usize, col: self.col }
    }
}

impl LineColumnPosition {
    /// Whether this position stands at or before `other`, by line and then
    /// by column.
    pub open spec fn at_or_before(&self, other: LineColumnPosition) -> bool {
        self.line < other.line || (self.line == other.line && self.col <= other.col)
    }
}

impl SourceRange {
    /// Whether the range is well formed: it does not end before it starts.
    pub open spec fn wf(&self) -> bool {
        self.start_pos.at_or_before(self.end_pos)
    }

    /// The range between two locations. It is well formed exactly when the
    /// second location does not stand before the first.
    pub fn from_loc(start_loc: Loc, end_loc: Loc) -> (r: SourceRange)
        requires
            start_loc.line >= 1,
            end_loc.line >= 1,
        ensures
            r.start_pos == start_loc.position(),
            r.end_pos == end_loc.position(),
            r.wf() <==> start_loc.line < end_loc.line || (start_loc.line == end_loc.line
                && start_loc.col <= end_loc.col),
    {
        SourceRange {
            start_pos: LineColumnPosition { line: start_loc.line - 1, col: start_loc.col },
            end_pos: LineColumnPosition { line: end_loc.line - 1, col: end_loc.col },
        }
    }
}

/// The range from line `start_line`, column `start_col` to line `end_line`,
/// column `end_col`, where lines count from 1 and columns from 0.
pub fn source_range(start_line: usize, start_col: usize, end_line: usize, end_col: usize) -> (r:
    SourceRange)
    requires
        start_line >= 1,
        end_line >= 1,
    ensures
        r.start_pos == (Loc { line: start_line, col: start_col }).position(),
        r.end_pos == (Loc { line: end_line, col: end_col }).position(),
        r.wf() <==> start_line < end_line || (start_line == end_line && start_col <= end_col),
{
    SourceRange::from_loc(
        Loc { line: start_line, col: start_col },
        Loc { line: end_line, col: end_col },
    )
}

/// How serious a diagnostic is.
#[derive(Debug, Clone, Copy, PartialEq, Eq, Structural)]
pub enum Severity {
    INFO,
    WARNING,
    ERROR,
}

impl Severity {
    /// The name under which this severity is written.
    pub open spec fn name(&self) -> Seq<char> {
        match *self {
            Severity::ERROR => "ERROR"@,
            Severity::WARNING => "WARNING"@,
            Severity::INFO => "INFO"@,
        }
    }

    /// The name under which this severity is written.
    pub fn to_string(&self) -> (s: &'static str)
        ensures
            s@ == self.name(),
    {
        match *self {
            Severity::ERROR => "ERROR",
            Severity::WARNING => "WARNING",
            Severity::INFO => "INFO",
        }
    }
}

/// One diagnostic: its severity, the range it speaks of, if any, and its text.
pub struct SourceMessage {
    pub severity: Severity,
    pub sourcerange: Option<SourceRange>,
    pub message: String,
}

/// A diagnostic as a mathematical value.
pub struct MessageModel {
    pub severity: Severity,
    pub sourcerange: Option<SourceRange>,
    pub message: Seq<char>,
}

impl View for SourceMessage {
    type V = MessageModel;

    open spec fn view(&self) -> MessageModel {
        MessageModel {
            severity: self.severity,
            sourcerange: self.sourcerange,
            message: self.message@,
        }
    }
}

/// The kinds of element that an outline holds.
#[derive(Debug, Clone, Copy, PartialEq, Eq, Structural)]
pub enum StructureElementKind {
    Var,
    Function,
    Struct,
    Union,
    Impl,
    Trait,
    Enum,
    EnumVariant,
    ExternCrate,
    Mod,
    Use,
    MacroDef,
    TraitAlias,
    TypeAlias,
}

impl StructureElementKind {
    /// The name under which this kind is written.
    pub open spec fn name(&self) -> Seq<char> {
        match *self {
            StructureElementKind::Var => "Var"@,
            StructureElementKind::Function => "Function"@,
            StructureElementKind::Struct => "Struct"@,
            StructureElementKind::Union => "Union"@,
            StructureElementKind::Impl => "Impl"@,
            StructureElementKind::Trait => "Trait"@,
            StructureElementKind::Enum => "Enum"@,
            StructureElementKind::EnumVariant => "EnumVariant"@,
            StructureElementKind::ExternCrate => "ExternCrate"@,
            StructureElementKind::Mod => "Mod"@,
            StructureElementKind::Use => "Use"@,
            StructureElementKind::MacroDef => "Macro"@,
            StructureElementKind::TypeAlias => "TypeAlias"@,
            StructureElementKind::TraitAlias => "TraitAlias"@,
        }
    }

    /// The name under which this kind is written.
    pub fn to_string(&self) -> (s: &'static str)
        ensures
            s@ == self.name(),
    {
        match *self {
            StructureElementKind::Var => "Var",
            StructureElementKind::Function => "Function",
            StructureElementKind::Struct => "Struct",
            StructureElementKind::Union => "Union",
            StructureElementKind::Impl => "Impl",
            StructureElementKind::Trait => "Trait",
            StructureElementKind::Enum => "Enum",
            StructureElementKind::EnumVariant => "EnumVariant",
            StructureElementKind::ExternCrate => "ExternCrate",
            StructureElementKind::Mod => "Mod",
            StructureElementKind::Use => "Use",
            StructureElementKind::MacroDef => "Macro",
            StructureElementKind::TypeAlias => "TypeAlias",
            StructureElementKind::TraitAlias => "TraitAlias",
        }
    }
}

/// One element of an outline: a declaration and the declarations inside it.
pub struct StructureElement {
    pub name: String,
    pub kind: StructureElementKind,
    pub sourcerange: SourceRange,
    pub type_desc: String,
    pub children: Vec<StructureElement>,
}

/// An element as a mathematical value.
pub struct ElementModel {
    pub name: Seq<char>,
    pub kind: StructureElementKind,
    pub sourcerange: SourceRange,
    pub type_desc: Seq<char>,
    pub children: Seq<ElementModel>,
}

/// The mathematical value of an element: its strings as sequences of
/// characters, its children as the sequence of their values.
pub open spec fn element_model(e: StructureElement) -> ElementModel
    decreases e,
{
    ElementModel {
        name: e.name@,
        kind: e.kind,
        sourcerange: e.sourcerange,
        type_desc: e.type_desc@,
        children: Seq::new(
            e.children@.len(),
            |i: int|
                if 0 <= i < e.children@.len() {
                    element_model(e.children@[i])
                } else {
                    arbitrary()
                },
        ),
    }
}

impl View for StructureElement {
    type V = ElementModel;

    open spec fn view(&self) -> ElementModel {
        element_model(*self)
    }
}

/// The view of an element, field by field: its children are the views of
/// its children.
pub proof fn lemma_element_view(e: StructureElement)
    ensures
        e@.name == e.name@,
        e@.kind == e.kind,
        e@.sourcerange == e.sourcerange,
        e@.type_desc == e.type_desc@,
        e@.children == elements_view(e.children@),
{
    assert(e@.children =~= elements_view(e.children@));
}

/// The elements of a list as mathematical values, in the list's order.
pub open spec fn elements_view(elements: Seq<StructureElement>) -> Seq<ElementModel> {
    Seq::new(elements.len(), |i: int| elements[i]@)
}

/// The messages of a list as mathematical values, in the list's order.
pub open spec fn messages_view(messages: Seq<SourceMessage>) -> Seq<MessageModel> {
    Seq::new(messages.len(), |i: int| messages[i]@)
}

} // verus!
