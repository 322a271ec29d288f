//! Rendering of diagnostics and outlines in the brace-delimited output format.
use vstd::prelude::*;
use vstd::string::StringExecFns;
use crate::source_model::elements_view;
use crate::source_model::lemma_element_view;
use crate::source_model::messages_view;
use crate::source_model::ElementModel;
use crate::source_model::MessageModel;
use crate::source_model::Severity;
use crate::source_model::SourceMessage;
use crate::source_model::SourceRange;
use crate::source_model::StructureElement;
use crate::source_model::StructureElementKind;
use crate::structure_visitor::items_elements;
use crate::structure_visitor::StructureVisitor;
use crate::syntax::Diagnostic;
use crate::syntax::Item;
use crate::syntax::Level;
use crate::token_writer::is_bare_token;
use crate::token_writer::quote;
use crate::token_writer::TokenWriter;
use crate::util::CommonExceptionT;
use crate::util::GResult;
use crate::util::StringCommonException;
use crate::util::Void;

verus! {

/// The character of the decimal digit `d`.
pub open spec fn digit_char(d: nat) -> char {
    if d == 0 {
        '0'
    } else if d == 1 {
        '1'
    } else if d == 2 {
        '2'
    } else if d == 3 {
        '3'
    } else if d == 4 {
        '4'
    } else if d == 5 {
        '5'
    } else if d == 6 {
        '6'
    } else if d == 7 {
        '7'
    } else if d == 8 {
        '8'
    } else {
        '9'
    }
}

/// The decimal numeral of `n`, without leading zeros.
pub open spec fn decimal(n: nat) -> Seq<char>
    decreases n,
{
    if n < 10 {
        seq![digit_char(n)]
    } else {
        decimal(n / 10).push(digit_char(n % 10))
    }
}

/// The character of the decimal digit `d`.
fn digit(d: usize) -> (c: char)
    requires
        d < 10,
    ensures
        c == digit_char(d as nat),
{
    if d == 0 {
        '0'
    } else if d == 1 {
        '1'
    } else if d == 2 {
        '2'
    } else if d == 3 {
        '3'
    } else if d == 4 {
        '4'
    } else if d == 5 {
        '5'
    } else if d == 6 {
        '6'
    } else if d == 7 {
        '7'
    } else if d == 8 {
        '8'
    } else {
        '9'
    }
}

/// Writes the decimal numeral of `n`.
pub fn write_decimal(tw: &mut TokenWriter, n: usize)
    ensures
        final(tw)@ == old(tw)@ + decimal(n as nat),
    decreases n,
{
    if n >= 10 {
        write_decimal(tw, n / 10);
    }
    tw.out.push(digit(n % 10));
    assert(tw@ =~= old(tw)@ + decimal(n as nat));
}

/// Every severity's name is a bare token.
pub proof fn lemma_severity_name_is_bare(lvl: Severity)
    ensures
        is_bare_token(lvl.name()),
{
    reveal_strlit("ERROR");
    reveal_strlit("WARNING");
    reveal_strlit("INFO");
}

/// Every element kind's name is a bare token.
pub proof fn lemma_kind_name_is_bare(kind: StructureElementKind)
    ensures
        is_bare_token(kind.name()),
{
    reveal_strlit("Var");
    reveal_strlit("Function");
    reveal_strlit("Struct");
    reveal_strlit("Union");
    reveal_strlit("Impl");
    reveal_strlit("Trait");
    reveal_strlit("Enum");
    reveal_strlit("EnumVariant");
    reveal_strlit("ExternCrate");
    reveal_strlit("Mod");
    reveal_strlit("Use");
    reveal_strlit("Macro");
    reveal_strlit("TypeAlias");
    reveal_strlit("TraitAlias");
}

/// The text of a range: its two positions in braces, each as line, colon
/// and column.
pub open spec fn range_text(sr: SourceRange) -> Seq<char> {
    "{ "@ + decimal(sr.start_pos.line as nat) + seq![':'] + decimal(sr.start_pos.col as nat)
        + seq![' '] + decimal(sr.end_pos.line as nat) + seq![':'] + decimal(sr.end_pos.col as nat)
        + seq![' '] + "}"@
}

/// The text of an optional range and the space behind it: a missing range
/// is an empty pair of braces.
pub open spec fn opt_range_text(sr: Option<SourceRange>) -> Seq<char> {
    match sr {
        None => "{ }"@ + " "@,
        Some(sr) => range_text(sr) + " "@,
    }
}

/// The line of one diagnostic.
pub open spec fn message_text(m: MessageModel) -> Seq<char> {
    "{ "@ + m.severity.name() + seq![' '] + opt_range_text(m.sourcerange) + quote(m.message)
        + seq![' '] + "}\n"@
}

/// Writes the name of a severity as a bare token.
pub fn output_Level(lvl: &Severity, writer: &mut TokenWriter) -> (r: Void)
    ensures
        r is Ok,
        final(writer)@ == old(writer)@ + lvl.name() + seq![' '],
{
    proof {
        lemma_severity_name_is_bare(*lvl);
    }
    writer.write_raw_token(lvl.to_string())
}

/// Writes a range.
pub fn output_SourceRange(sr: &SourceRange, tw: &mut TokenWriter) -> (r: Void)
    ensures
        r is Ok,
        final(tw)@ == old(tw)@ + range_text(*sr),
{
    tw.write_raw("{ ")?;
    write_decimal(tw, sr.start_pos.line);
    tw.out.push(':');
    write_decimal(tw, sr.start_pos.col);
    tw.out.push(' ');
    write_decimal(tw, sr.end_pos.line);
    tw.out.push(':');
    write_decimal(tw, sr.end_pos.col);
    tw.out.push(' ');
    tw.write_raw("}")?;
    assert(tw@ =~= old(tw)@ + range_text(*sr));
    Ok(())
}

/// Writes an optional range and a space behind it.
pub fn output_opt_SourceRange(sr: &Option<SourceRange>, writer: &mut TokenWriter) -> (r: Void)
    ensures
        r is Ok,
        final(writer)@ == old(writer)@ + opt_range_text(*sr),
{
    match sr {
        None => writer.write_raw("{ }")?,
        Some(sr) => output_SourceRange(sr, writer)?,
    }
    writer.write_raw(" ")?;
    assert(writer@ =~= old(writer)@ + opt_range_text(*sr));
    Ok(())
}

/// Writes the line of one diagnostic.
pub fn output_message(
    tokenWriter: &mut TokenWriter,
    opt_sr: Option<SourceRange>,
    msg: &str,
    lvl: &Severity,
) -> (r: Void)
    ensures
        r is Ok,
        final(tokenWriter)@ == old(tokenWriter)@ + message_text(
            MessageModel { severity: *lvl, sourcerange: opt_sr, message: msg@ },
        ),
{
    tokenWriter.write_raw("{ ")?;
    output_Level(lvl, tokenWriter)?;
    output_opt_SourceRange(&opt_sr, tokenWriter)?;
    tokenWriter.write_string_token(msg)?;
    tokenWriter.write_raw("}\n")?;
    assert(tokenWriter@ =~= old(tokenWriter)@ + message_text(
        MessageModel { severity: *lvl, sourcerange: opt_sr, message: msg@ },
    ));
    Ok(())
}

/// The indentation of nesting depth `level`: two spaces for each level.
pub open spec fn indent(level: nat) -> Seq<char> {
    Seq::new(2 * level, |i: int| ' ')
}

/// How deep the elements below `e` are nested: 0 for an element without
/// children.
pub open spec fn height(e: ElementModel) -> nat
    decreases e,
{
    children_height(e.children)
}

/// One more than the greatest height among `cs`; 0 for an empty list.
pub open spec fn children_height(cs: Seq<ElementModel>) -> nat
    decreases cs,
{
    if cs.len() == 0 {
        0
    } else {
        let rest = children_height(cs.subrange(0, cs.len() - 1));
        let last = 1 + height(cs[cs.len() - 1]);
        if rest >= last {
            rest
        } else {
            last
        }
    }
}

/// The text of an element up to its children: the kind's name, an opening
/// brace, the quoted name, the range, an empty pair of braces, the quoted
/// type description and another empty pair of braces.
pub open spec fn element_head(e: ElementModel) -> Seq<char> {
    e.kind.name() + seq![' '] + "{ "@ + quote(e.name) + seq![' '] + range_text(e.sourcerange)
        + " {}"@ + " "@ + quote(e.type_desc) + seq![' '] + "{}"@
}

/// The text of an element at nesting depth `level`: its head, its children
/// and a closing brace. Without children a single space stands in their
/// place; with children, each stands on a line of its own, one level
/// deeper, and the closing brace on a new line at the element's own depth.
pub open spec fn element_text(e: ElementModel, level: nat) -> Seq<char>
    decreases e,
{
    element_head(e) + (if e.children.len() == 0 {
        " "@
    } else {
        children_text(e.children, level + 1) + "\n"@ + indent(level)
    }) + "}"@
}

/// The text of a list of children at nesting depth `level`: each on a line
/// of its own, indented.
pub open spec fn children_text(cs: Seq<ElementModel>, level: nat) -> Seq<char>
    decreases cs,
{
    if cs.len() == 0 {
        Seq::empty()
    } else {
        children_text(cs.subrange(0, cs.len() - 1), level) + "\n"@ + indent(level) + element_text(
            cs[cs.len() - 1],
            level,
        )
    }
}

/// Writes the indentation of nesting depth `level`.
pub fn write_indent(tokenWriter: &mut TokenWriter, level: u32) -> (r: Void)
    ensures
        r is Ok,
        final(tokenWriter)@ == old(tokenWriter)@ + indent(level as nat),
{
    let mut i: u32 = 0;
    while i < level
        invariant
            i <= level,
            tokenWriter@ == old(tokenWriter)@ + indent(i as nat),
        decreases level - i,
    {
        tokenWriter.out.push(' ');
        tokenWriter.out.push(' ');
        i = i + 1;
        assert(tokenWriter@ =~= old(tokenWriter)@ + indent(i as nat));
    }
    Ok(())
}

/// Each member of a list is less high than the list.
pub proof fn lemma_children_height(cs: Seq<ElementModel>, i: int)
    requires
        0 <= i < cs.len(),
    ensures
        1 + height(cs[i]) <= children_height(cs),
    decreases cs.len(),
{
    let front = cs.subrange(0, cs.len() - 1);
    if i < cs.len() - 1 {
        lemma_children_height(front, i);
        assert(front[i] == cs[i]);
    }
}

/// A list is no higher than a bound that is above each member's height.
pub proof fn lemma_children_height_bound(cs: Seq<ElementModel>, bound: nat)
    requires
        forall|i: int| 0 <= i < cs.len() ==> 1 + height(#[trigger] cs[i]) <= bound,
    ensures
        children_height(cs) <= bound,
    decreases cs.len(),
{
    if cs.len() > 0 {
        let front = cs.subrange(0, cs.len() - 1);
        assert forall|i: int| 0 <= i < front.len() implies 1 + height(#[trigger] front[i])
            <= bound by {
            assert(front[i] == cs[i]);
        }
        lemma_children_height_bound(front, bound);
    }
}

/// Tells whether the elements below `element` are nested at most `budget`
/// levels deep.
pub fn fits_depth(element: &StructureElement, budget: u32) -> (r: bool)
    ensures
        r == (height(element@) <= budget),
    decreases element,
{
    let ghost cs = element@.children;
    proof {
        lemma_element_view(*element);
    }
    let n: usize = element.children.len();
    let mut i: usize = 0;
    while i < n
        invariant
            i <= n,
            n == element.children.len(),
            cs == elements_view(element.children@),
            cs == element@.children,
            forall|j: int| 0 <= j < i ==> 1 + height(#[trigger] cs[j]) <= budget,
        decreases n - i,
    {
        proof {
            lemma_children_height(cs, i as int);
        }
        if budget == 0 {
            return false;
        }
        if !fits_depth(&element.children[i], budget - 1) {
            return false;
        }
        i = i + 1;
    }
    proof {
        lemma_children_height_bound(cs, budget as nat);
    }
    true
}

/// Writes an element's text up to its children.
fn write_element_head(tw: &mut TokenWriter, element: &StructureElement) -> (r: Void)
    ensures
        r is Ok,
        final(tw)@ == old(tw)@ + element_head(element@),
{
    proof {
        lemma_kind_name_is_bare(element.kind);
        lemma_element_view(*element);
    }
    tw.write_raw_token(element.kind.to_string())?;
    tw.write_raw("{ ")?;
    tw.write_string_token(element.name.as_str())?;
    output_SourceRange(&element.sourcerange, tw)?;
    tw.write_raw(" {}")?;
    tw.write_raw(" ")?;
    tw.write_string_token(element.type_desc.as_str())?;
    tw.write_raw("{}")?;
    assert(tw@ =~= old(tw)@ + element_head(element@));
    Ok(())
}

/// Writes an element, its children included, at nesting depth `level`.
pub fn write_structure_element(tw: &mut TokenWriter, element: &StructureElement, level: u32) -> (r:
    Void)
    requires
        level + height(element@) <= u32::MAX,
    ensures
        r is Ok,
        final(tw)@ == old(tw)@ + element_text(element@, level as nat),
    decreases element,
{
    write_element_head(tw, element)?;
    let ghost head = tw@;
    let ghost cs = element@.children;
    let n: usize = element.children.len();
    proof {
        lemma_element_view(*element);
    }
    if n == 0 {
        tw.write_raw(" ")?;
    } else {
        let mut i: usize = 0;
        assert(children_text(cs.subrange(0, 0), (level + 1) as nat) =~= Seq::<char>::empty());
        assert(tw@ =~= head + children_text(cs.subrange(0, 0), (level + 1) as nat));
        while i < n
            invariant
                i <= n,
                n == element.children.len(),
                cs == elements_view(element.children@),
                level + children_height(cs) <= u32::MAX,
                n > 0,
                tw@ == head + children_text(cs.subrange(0, i as int), (level + 1) as nat),
            decreases n - i,
        {
            let child = &element.children[i];
            let ghost before = tw@;
            proof {
                lemma_children_height(cs, i as int);
                assert(cs.subrange(0, i + 1).subrange(0, i as int) =~= cs.subrange(0, i as int));
            }
            tw.write_raw("\n")?;
            write_indent(tw, level + 1)?;
            write_structure_element(tw, child, level + 1)?;
            i = i + 1;
            proof {
                let front = cs.subrange(0, i as int);
                assert(front[front.len() - 1] == child@);
                assert(front.subrange(0, front.len() - 1) =~= cs.subrange(0, i - 1));
                assert(tw@ =~= before + ("\n"@ + indent((level + 1) as nat) + element_text(
                    child@,
                    (level + 1) as nat,
                )));
                assert(tw@ =~= head + children_text(front, (level + 1) as nat));
            }
        }
        assert(cs.subrange(0, n as int) =~= cs);
        tw.write_raw("\n")?;
        write_indent(tw, level)?;
        assert(tw@ =~= head + (children_text(cs, (level + 1) as nat) + "\n"@ + indent(
            level as nat,
        )));
    }
    tw.write_raw("}")?;
    assert(tw@ =~= old(tw)@ + element_text(element@, level as nat));
    Ok(())
}

/// The lines of a list of diagnostics, in the list's order.
pub open spec fn messages_text(ms: Seq<MessageModel>) -> Seq<char>
    decreases ms.len(),
{
    if ms.len() == 0 {
        Seq::empty()
    } else {
        messages_text(ms.drop_last()) + message_text(ms.last())
    }
}

/// The texts of a list of top-level elements, one behind the other, in the
/// list's order.
pub open spec fn elements_text(es: Seq<ElementModel>) -> Seq<char>
    decreases es.len(),
{
    if es.len() == 0 {
        Seq::empty()
    } else {
        elements_text(es.drop_last()) + element_text(es.last(), 0)
    }
}

/// The contents of a description: the block of diagnostics, then the
/// top-level elements.
pub open spec fn contents_text(ms: Seq<MessageModel>, es: Seq<ElementModel>) -> Seq<char> {
    "MESSAGES {\n"@ + messages_text(ms) + "}\n"@ + elements_text(es)
}

/// A whole description: the contents inside the envelope that names the
/// format and its version.
pub open spec fn analysis_text(ms: Seq<MessageModel>, es: Seq<ElementModel>) -> Seq<char> {
    "RUST_PARSE_DESCRIBE 1.0 {\n"@ + contents_text(ms, es) + "\n}"@
}

/// Whether a list of elements can be written: none is nested deeper than a
/// `u32` counts.
pub open spec fn writable(es: Seq<ElementModel>) -> bool {
    forall|i: int| 0 <= i < es.len() ==> height(#[trigger] es[i]) <= u32::MAX
}

/// Tells whether a list of elements can be written.
pub fn is_writable(elements: &Vec<StructureElement>) -> (r: bool)
    ensures
        r == writable(elements_view(elements@)),
{
    let ghost es = elements_view(elements@);
    let mut i: usize = 0;
    while i < elements.len()
        invariant
            i <= elements.len(),
            es == elements_view(elements@),
            forall|j: int| 0 <= j < i ==> height(#[trigger] es[j]) <= u32::MAX,
        decreases elements.len() - i,
    {
        assert(es[i as int] == elements[i as int]@);
        if !fits_depth(&elements[i], u32::MAX) {
            return false;
        }
        i = i + 1;
    }
    true
}

/// Writes the block of diagnostics and then the top-level elements.
pub fn write_parse_analysis_contents(
    messages: Vec<SourceMessage>,
    elements: Vec<StructureElement>,
    tokenWriter: &mut TokenWriter,
) -> (r: Void)
    requires
        writable(elements_view(elements@)),
    ensures
        r is Ok,
        final(tokenWriter)@ == old(tokenWriter)@ + contents_text(
            messages_view(messages@),
            elements_view(elements@),
        ),
{
    let ghost ms = messages_view(messages@);
    let ghost es = elements_view(elements@);
    tokenWriter.write_raw("MESSAGES {\n")?;
    let ghost start = tokenWriter@;
    let mut i: usize = 0;
    assert(messages_text(ms.take(0)) =~= Seq::<char>::empty());
    assert(tokenWriter@ =~= start + messages_text(ms.take(0)));
    while i < messages.len()
        invariant
            i <= messages.len(),
            ms == messages_view(messages@),
            writable(es),
            tokenWriter@ == start + messages_text(ms.take(i as int)),
        decreases messages.len() - i,
    {
        let msg = &messages[i];
        let ghost before = tokenWriter@;
        assert(ms[i as int] == msg@);
        output_message(tokenWriter, msg.sourcerange, msg.message.as_str(), &msg.severity)?;
        i = i + 1;
        proof {
            assert(ms.take(i as int).drop_last() =~= ms.take(i - 1));
            assert(ms.take(i as int).last() == msg@);
            assert(tokenWriter@ =~= start + messages_text(ms.take(i as int)));
        }
    }
    assert(ms.take(messages.len() as int) =~= ms);
    tokenWriter.write_raw("}\n")?;
    let ghost middle = tokenWriter@;
    let mut k: usize = 0;
    assert(elements_text(es.take(0)) =~= Seq::<char>::empty());
    assert(tokenWriter@ =~= middle + elements_text(es.take(0)));
    while k < elements.len()
        invariant
            k <= elements.len(),
            es == elements_view(elements@),
            writable(es),
            tokenWriter@ == middle + elements_text(es.take(k as int)),
        decreases elements.len() - k,
    {
        let element = &elements[k];
        assert(es[k as int] == element@);
        write_structure_element(tokenWriter, element, 0)?;
        k = k + 1;
        proof {
            assert(es.take(k as int).drop_last() =~= es.take(k - 1));
            assert(es.take(k as int).last() == element@);
            assert(tokenWriter@ =~= middle + elements_text(es.take(k as int)));
        }
    }
    assert(es.take(elements.len() as int) =~= es);
    assert(tokenWriter@ =~= old(tokenWriter)@ + contents_text(ms, es));
    Ok(())
}

/// Writes a whole description behind what `out` holds, and returns the
/// result.
pub fn write_parse_analysis_do(
    messages: Vec<SourceMessage>,
    elements: Vec<StructureElement>,
    out: String,
) -> (r: GResult<String>)
    requires
        writable(elements_view(elements@)),
    ensures
        r is Ok,
        r->Ok_0@ == out@ + analysis_text(messages_view(messages@), elements_view(elements@)),
{
    let ghost ms = messages_view(messages@);
    let ghost es = elements_view(elements@);
    let mut tokenWriter = TokenWriter { out: out };
    tokenWriter.write_raw("RUST_PARSE_DESCRIBE 1.0 {\n")?;
    write_parse_analysis_contents(messages, elements, &mut tokenWriter)?;
    tokenWriter.write_raw("\n}")?;
    assert(tokenWriter@ =~= out@ + analysis_text(ms, es));
    Ok(tokenWriter.out)
}

/// The severity that a level maps to: help, notes and allowed lints are
/// information; warnings, failure notes, expectations and lint errors are
/// warnings; errors and fatal errors are errors. A level that reports a
/// defect of the front end itself, or a cancelled diagnostic, maps to none.
pub open spec fn level_severity(lvl: Level) -> Option<Severity> {
    match lvl {
        Level::Bug | Level::DelayedBug | Level::Cancelled => None,
        Level::Help | Level::Note | Level::OnceNote | Level::Allow => Some(Severity::INFO),
        Level::Warning | Level::FailureNote | Level::Expect => Some(Severity::WARNING),
        Level::Fatal | Level::PhaseFatal => Some(Severity::ERROR),
        Level::Error { lint } => if lint {
            Some(Severity::WARNING)
        } else {
            Some(Severity::ERROR)
        },
    }
}

/// Tells whether a level reports a defect of the front end itself or a
/// cancelled diagnostic, so that no severity stands for it.
pub fn is_bug_level(lvl: Level) -> (r: bool)
    ensures
        r == (level_severity(lvl) is None),
{
    match lvl {
        Level::Bug | Level::DelayedBug | Level::Cancelled => true,
        _ => false,
    }
}

/// The severity that a level maps to.
pub fn level_to_status_level(lvl: Level) -> (severity: Severity)
    requires
        level_severity(lvl) is Some,
    ensures
        Some(severity) == level_severity(lvl),
{
    match lvl {
        Level::Help | Level::Note | Level::OnceNote | Level::Allow => Severity::INFO,
        Level::Warning | Level::FailureNote | Level::Expect => Severity::WARNING,
        Level::Fatal | Level::PhaseFatal => Severity::ERROR,
        Level::Bug | Level::DelayedBug | Level::Cancelled => vstd::pervasive::unreached(),
        Level::Error { lint } => if lint {
            Severity::WARNING
        } else {
            Severity::ERROR
        },
    }
}

/// The messages of one diagnostic: one for each primary range, all with the
/// diagnostic's text and the severity of its level; a diagnostic without a
/// primary range gives one message without a range.
pub open spec fn diagnostic_messages(d: Diagnostic) -> Seq<MessageModel>
    recommends
        level_severity(d.level) is Some,
{
    let severity = level_severity(d.level)->0;
    if d.primary_ranges@.len() == 0 {
        seq![MessageModel { severity, sourcerange: None, message: d.message@ }]
    } else {
        Seq::new(
            d.primary_ranges@.len(),
            |i: int|
                MessageModel {
                    severity,
                    sourcerange: Some(d.primary_ranges@[i]),
                    message: d.message@,
                },
        )
    }
}

/// The messages of a list of diagnostics, in the order of the list.
pub open spec fn diagnostics_messages(ds: Seq<Diagnostic>) -> Seq<MessageModel>
    decreases ds.len(),
{
    if ds.len() == 0 {
        Seq::empty()
    } else {
        diagnostics_messages(ds.drop_last()) + diagnostic_messages(ds.last())
    }
}

/// Whether every diagnostic of a list has a level that maps to a severity.
pub open spec fn levels_mapped(ds: Seq<Diagnostic>) -> bool {
    forall|i: int| 0 <= i < ds.len() ==> level_severity((#[trigger] ds[i]).level) is Some
}

/// Collects diagnostics as messages, in the order in which they arrive.
pub struct MessagesHandler {
    pub messages: Vec<SourceMessage>,
}

impl View for MessagesHandler {
    type V = Seq<MessageModel>;

    /// The messages collected so far.
    open spec fn view(&self) -> Seq<MessageModel> {
        messages_view(self.messages@)
    }
}

impl MessagesHandler {
    /// A collector without messages.
    pub fn new() -> (handler: MessagesHandler)
        ensures
            handler@ == Seq::<MessageModel>::empty(),
    {
        let handler = MessagesHandler { messages: Vec::new() };
        assert(handler@ =~= Seq::<MessageModel>::empty());
        handler
    }

    /// Appends one message.
    pub fn write_message_handled(
        &mut self,
        sourcerange: Option<SourceRange>,
        msg: &str,
        severity: Severity,
    )
        ensures
            final(self)@ == old(self)@.push(
                MessageModel { severity, sourcerange, message: msg@ },
            ),
    {
        let msg = SourceMessage {
            severity: severity,
            sourcerange: sourcerange,
            message: String::from_str(msg),
        };
        self.messages.push(msg);
        assert(self@ =~= old(self)@.push(msg@));
    }

    /// Appends the messages of one diagnostic.
    pub fn emit_diagnostic(&mut self, db: &Diagnostic)
        requires
            level_severity(db.level) is Some,
        ensures
            final(self)@ == old(self)@ + diagnostic_messages(*db),
    {
        let severity = level_to_status_level(db.level);
        let msg = db.message.as_str();
        let n: usize = db.primary_ranges.len();
        if n == 0 {
            self.write_message_handled(None, msg, severity);
            assert(self@ =~= old(self)@ + diagnostic_messages(*db));
            return ;
        }
        let ghost all = diagnostic_messages(*db);
        let mut i: usize = 0;
        assert(self@ =~= old(self)@ + all.take(0));
        while i < n
            invariant
                i <= n,
                n == db.primary_ranges.len(),
                n > 0,
                msg@ == db.message@,
                Some(severity) == level_severity(db.level),
                all == diagnostic_messages(*db),
                self@ == old(self)@ + all.take(i as int),
            decreases n - i,
        {
            self.write_message_handled(Some(db.primary_ranges[i]), msg, severity);
            i = i + 1;
            assert(self@ =~= old(self)@ + all.take(i as int));
        }
        assert(all.take(n as int) =~= all);
    }
}

/// Collects the messages of a list of diagnostics, in the order of the list.
pub fn collect_messages(diagnostics: &Vec<Diagnostic>) -> (messages: Vec<SourceMessage>)
    requires
        levels_mapped(diagnostics@),
    ensures
        messages_view(messages@) == diagnostics_messages(diagnostics@),
{
    let mut handler = MessagesHandler::new();
    let ghost ds = diagnostics@;
    let mut i: usize = 0;
    assert(handler@ =~= diagnostics_messages(ds.take(0)));
    while i < diagnostics.len()
        invariant
            i <= diagnostics.len(),
            ds == diagnostics@,
            levels_mapped(ds),
            handler@ == diagnostics_messages(ds.take(i as int)),
        decreases diagnostics.len() - i,
    {
        assert(ds[i as int] == diagnostics[i as int]);
        handler.emit_diagnostic(&diagnostics[i]);
        i = i + 1;
        proof {
            let front = ds.take(i as int);
            assert(front.last() == diagnostics[i - 1]);
            assert(front.drop_last() =~= ds.take(i - 1));
        }
    }
    assert(ds.take(diagnostics.len() as int) =~= ds);
    handler.messages
}

/// A file loader that reads nothing from disk: it reports a file as
/// present exactly when the file is called `mod.rs`, and every file it is
/// asked for is empty.
pub struct DummyFileLoader {
    pub modName: &'static str,
}

impl DummyFileLoader {
    /// The loader that knows the file name `mod.rs`.
    pub fn new() -> (loader: DummyFileLoader)
        ensures
            loader.modName@ == "mod.rs"@,
    {
        DummyFileLoader { modName: "mod.rs" }
    }

    /// Tells whether the file at a path is taken to exist, by the last
    /// component of the path, where it has one.
    pub fn file_exists(&self, file_name: Option<&str>) -> (r: bool)
        ensures
            r == (file_name is Some && file_name->0@ == self.modName@),
    {
        match file_name {
            Some(name) => String::from_str(name) == String::from_str(self.modName),
            None => false,
        }
    }

    /// The contents of the file at a path: always empty.
    pub fn read_file(&self, _path: &str) -> (contents: String)
        ensures
            contents@ == Seq::<char>::empty(),
    {
        String::new()
    }
}

/// The outline of a parsed file: what its items add, in their order. A file
/// that could not be parsed has an empty outline.
pub open spec fn outline(krate: Option<Vec<Item>>) -> Seq<ElementModel> {
    match krate {
        Some(items) => items_elements(items@),
        None => Seq::empty(),
    }
}

/// Builds the outline of a parsed file.
pub fn parse_crate_with_messages_do(krate: &Option<Vec<Item>>) -> (elements: Vec<StructureElement>)
    ensures
        elements_view(elements@) == outline(*krate),
{
    let mut visitor = StructureVisitor::new();
    if let Some(items) = krate {
        visitor.visit_mod(items);
        assert(visitor@ =~= items_elements(items@));
    }
    visitor.elements
}

/// Collects the messages of a parse and builds the outline of what was
/// parsed.
pub fn parse_crate_with_messages(diagnostics: &Vec<Diagnostic>, krate: &Option<Vec<Item>>) -> (r: (
    Vec<SourceMessage>,
    Vec<StructureElement>,
))
    requires
        levels_mapped(diagnostics@),
    ensures
        messages_view(r.0@) == diagnostics_messages(diagnostics@),
        elements_view(r.1@) == outline(*krate),
{
    let messages = collect_messages(diagnostics);
    let elements = parse_crate_with_messages_do(krate);
    (messages, elements)
}

/// Describes the result of a parse: writes behind what `out` holds the
/// envelope, the messages of the diagnostics and the outline of what was
/// parsed, and returns the result. A file that could not be parsed is
/// described with its messages and no elements. An outline that is nested
/// deeper than a `u32` counts is refused.
pub fn parse_analysis(diagnostics: &Vec<Diagnostic>, krate: &Option<Vec<Item>>, out: String) -> (r:
    GResult<String>)
    requires
        levels_mapped(diagnostics@),
    ensures
        writable(outline(*krate)) ==> r is Ok && r->Ok_0@ == out@ + analysis_text(
            diagnostics_messages(diagnostics@),
            outline(*krate),
        ),
        !writable(outline(*krate)) ==> r is Err && r->Err_0.message()
            == "Cannot write structure: nested too deep"@,
{
    let (messages, elements) = parse_crate_with_messages(diagnostics, krate);
    if !is_writable(&elements) {
        return Err(
            StringCommonException::create(
                String::from_str("Cannot write structure: nested too deep"),
            ),
        );
    }
    write_parse_analysis_do(messages, elements, out)
}

} // verus!
