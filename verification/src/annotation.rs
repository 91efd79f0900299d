//! Annotation builder for `notice` / `warning` / `error` commands.
//!
//! Annotations may carry a source location (file + line/column range) and a
//! title; GitHub renders them inline in the diff and in the run summary. The
//! property names emitted here match `@actions/core`'s mapping: its public
//! `startLine`/`startColumn` become the wire properties `line`/`col`.

use vstd::prelude::*;

use crate::command::{law_command_single_line, render_command, single_line, CommandView, WorkflowCommand};
use crate::text::{decimal, decimal_spec, opt_view};

verus! {

/// Which annotation channel to emit on.
#[derive(Debug, Clone, Copy, PartialEq, Eq, Structural)]
pub enum AnnotationKind {
    /// A neutral `::notice::` annotation.
    Notice,
    /// A `::warning::` annotation (does not fail the job).
    Warning,
    /// An `::error::` annotation (does not by itself fail the job).
    Error,
}

/// The command name of each kind.
pub open spec fn kind_name(kind: AnnotationKind) -> Seq<char> {
    match kind {
        AnnotationKind::Notice => "notice"@,
        AnnotationKind::Warning => "warning"@,
        AnnotationKind::Error => "error"@,
    }
}

impl AnnotationKind {
    /// The command name: `notice`, `warning` or `error`.
    pub fn command_name(self) -> (r: &'static str)
        ensures
            r@ == kind_name(self),
    {
        match self {
            AnnotationKind::Notice => "notice",
            AnnotationKind::Warning => "warning",
            AnnotationKind::Error => "error",
        }
    }
}

/// The abstract content of an [`Annotation`].
pub struct AnnotationView {
    pub title: Option<Seq<char>>,
    pub file: Option<Seq<char>>,
    pub line: Option<u32>,
    pub end_line: Option<u32>,
    pub col: Option<u32>,
    pub end_column: Option<u32>,
}

/// The annotation with no location and no title.
pub open spec fn empty_annotation() -> AnnotationView {
    AnnotationView {
        title: None,
        file: None,
        line: None,
        end_line: None,
        col: None,
        end_column: None,
    }
}

/// Fluent builder for a located annotation.
///
/// All fields are optional — an empty `Annotation` simply produces a plain
/// annotation with no location.
#[derive(Debug, Clone, PartialEq, Eq)]
pub struct Annotation {
    title: Option<String>,
    file: Option<String>,
    line: Option<u32>,
    end_line: Option<u32>,
    col: Option<u32>,
    end_column: Option<u32>,
}

impl View for Annotation {
    type V = AnnotationView;

    closed spec fn view(&self) -> AnnotationView {
        AnnotationView {
            title: opt_view(self.title),
            file: opt_view(self.file),
            line: self.line,
            end_line: self.end_line,
            col: self.col,
            end_column: self.end_column,
        }
    }
}

/// The property `key=value` when `value` is present, nothing otherwise.
pub open spec fn opt_property(key: Seq<char>, value: Option<Seq<char>>) -> Seq<
    (Seq<char>, Seq<char>),
> {
    match value {
        Some(v) => seq![(key, v)],
        None => Seq::empty(),
    }
}

/// The numeric property `key=n` (in decimal) when `n` is present.
pub open spec fn opt_number_property(key: Seq<char>, value: Option<u32>) -> Seq<
    (Seq<char>, Seq<char>),
> {
    match value {
        Some(n) => seq![(key, decimal_spec(n as nat))],
        None => Seq::empty(),
    }
}

/// The properties of an annotation, in `@actions/core`'s order:
/// `title, file, line, endLine, col, endColumn`; unset ones are left out.
pub open spec fn annotation_properties(a: AnnotationView) -> Seq<(Seq<char>, Seq<char>)> {
    opt_property("title"@, a.title) + opt_property("file"@, a.file) + opt_number_property(
        "line"@,
        a.line,
    ) + opt_number_property("endLine"@, a.end_line) + opt_number_property("col"@, a.col)
        + opt_number_property("endColumn"@, a.end_column)
}

/// The command that an annotation of this kind with this message is.
pub open spec fn annotation_command(
    a: AnnotationView,
    kind: AnnotationKind,
    message: Seq<char>,
) -> CommandView {
    CommandView {
        command: kind_name(kind),
        properties: annotation_properties(a),
        message: message,
    }
}

/// Every element of `ps` has a single-line key.
pub open spec fn keys_single_line(ps: Seq<(Seq<char>, Seq<char>)>) -> bool {
    forall|i: int| 0 <= i < ps.len() ==> single_line(#[trigger] ps[i].0)
}

proof fn lemma_keys_single_line_concat(x: Seq<(Seq<char>, Seq<char>)>, y: Seq<(Seq<char>, Seq<char>)>)
    requires
        keys_single_line(x),
        keys_single_line(y),
    ensures
        keys_single_line(x + y),
{
    assert forall|i: int| 0 <= i < (x + y).len() implies single_line(#[trigger] (x + y)[i].0) by {
        if i < x.len() {
            assert((x + y)[i] == x[i]);
        } else {
            assert((x + y)[i] == y[i - x.len()]);
        }
    }
}

proof fn lemma_opt_keys(key: Seq<char>, text: Option<Seq<char>>, number: Option<u32>)
    requires
        single_line(key),
    ensures
        keys_single_line(opt_property(key, text)),
        keys_single_line(opt_number_property(key, number)),
{
}

/// An annotation renders as exactly one command line, whatever its title,
/// file and message hold: line breaks in them are escaped, never written.
pub proof fn law_annotation_single_line(a: AnnotationView, kind: AnnotationKind, message: Seq<char>)
    ensures
        single_line(render_command(annotation_command(a, kind, message))),
{
    reveal_strlit("notice");
    reveal_strlit("warning");
    reveal_strlit("error");
    reveal_strlit("title");
    reveal_strlit("file");
    reveal_strlit("line");
    reveal_strlit("endLine");
    reveal_strlit("col");
    reveal_strlit("endColumn");
    assert(single_line(kind_name(kind)));
    lemma_opt_keys("title"@, a.title, None);
    lemma_opt_keys("file"@, a.file, None);
    lemma_opt_keys("line"@, None, a.line);
    lemma_opt_keys("endLine"@, None, a.end_line);
    lemma_opt_keys("col"@, None, a.col);
    lemma_opt_keys("endColumn"@, None, a.end_column);
    let p1 = opt_property("title"@, a.title);
    let p2 = p1 + opt_property("file"@, a.file);
    let p3 = p2 + opt_number_property("line"@, a.line);
    let p4 = p3 + opt_number_property("endLine"@, a.end_line);
    let p5 = p4 + opt_number_property("col"@, a.col);
    let p6 = p5 + opt_number_property("endColumn"@, a.end_column);
    lemma_keys_single_line_concat(p1, opt_property("file"@, a.file));
    lemma_keys_single_line_concat(p2, opt_number_property("line"@, a.line));
    lemma_keys_single_line_concat(p3, opt_number_property("endLine"@, a.end_line));
    lemma_keys_single_line_concat(p4, opt_number_property("col"@, a.col));
    lemma_keys_single_line_concat(p5, opt_number_property("endColumn"@, a.end_column));
    assert(p6 == annotation_properties(a));
    law_command_single_line(annotation_command(a, kind, message));
}

fn add_text_property(cmd: WorkflowCommand, key: &str, value: &Option<String>) -> (r:
    WorkflowCommand)
    ensures
        r@ == (CommandView {
            command: cmd@.command,
            properties: cmd@.properties + opt_property(key@, opt_view(*value)),
            message: cmd@.message,
        }),
{
    match value {
        Some(v) => {
            let r = cmd.property(key, v.as_str());
            assert(r@.properties =~= cmd@.properties + opt_property(key@, opt_view(*value)));
            r
        },
        None => {
            assert(cmd@.properties =~= cmd@.properties + opt_property(key@, opt_view(*value)));
            cmd
        },
    }
}

fn add_number_property(cmd: WorkflowCommand, key: &str, value: Option<u32>) -> (r:
    WorkflowCommand)
    ensures
        r@ == (CommandView {
            command: cmd@.command,
            properties: cmd@.properties + opt_number_property(key@, value),
            message: cmd@.message,
        }),
{
    match value {
        Some(n) => {
            let digits = decimal(n as u64);
            let r = cmd.property(key, digits.as_str());
            assert(r@.properties =~= cmd@.properties + opt_number_property(key@, value));
            r
        },
        None => {
            assert(cmd@.properties =~= cmd@.properties + opt_number_property(key@, value));
            cmd
        },
    }
}

impl Default for Annotation {
    fn default() -> (r: Self)
        ensures
            r@ == empty_annotation(),
    {
        Annotation::new()
    }
}

impl Annotation {
    /// Create an empty annotation (no location, no title).
    pub fn new() -> (r: Self)
        ensures
            r@ == empty_annotation(),
    {
        Annotation { title: None, file: None, line: None, end_line: None, col: None, end_column: None }
    }

    /// Set the annotation title shown in the GitHub UI.
    pub fn title(self, title: &str) -> (r: Self)
        ensures
            r@ == (AnnotationView { title: Some(title@), ..self@ }),
    {
        Annotation { title: Some(String::from_str(title)), ..self }
    }

    /// Set the file path the annotation refers to (relative to the workspace).
    pub fn file(self, file: &str) -> (r: Self)
        ensures
            r@ == (AnnotationView { file: Some(file@), ..self@ }),
    {
        Annotation { file: Some(String::from_str(file)), ..self }
    }

    /// Set the (1-based) start line.
    pub fn line(self, line: u32) -> (r: Self)
        ensures
            r@ == (AnnotationView { line: Some(line), ..self@ }),
    {
        Annotation { line: Some(line), ..self }
    }

    /// Set the (1-based) end line of a multi-line span.
    pub fn end_line(self, end_line: u32) -> (r: Self)
        ensures
            r@ == (AnnotationView { end_line: Some(end_line), ..self@ }),
    {
        Annotation { end_line: Some(end_line), ..self }
    }

    /// Set the (1-based) start column.
    pub fn col(self, col: u32) -> (r: Self)
        ensures
            r@ == (AnnotationView { col: Some(col), ..self@ }),
    {
        Annotation { col: Some(col), ..self }
    }

    /// Set the (1-based) end column.
    pub fn end_column(self, end_column: u32) -> (r: Self)
        ensures
            r@ == (AnnotationView { end_column: Some(end_column), ..self@ }),
    {
        Annotation { end_column: Some(end_column), ..self }
    }

    /// Build the [`WorkflowCommand`] for this annotation and `message` without
    /// emitting it.
    ///
    /// Property order matches `@actions/core`:
    /// `title, file, line, endLine, col, endColumn`.
    pub fn command(&self, kind: AnnotationKind, message: &str) -> (r: WorkflowCommand)
        ensures
            r@ == annotation_command(self@, kind, message@),
    {
        let cmd = WorkflowCommand::new(kind.command_name());
        let cmd = add_text_property(cmd, "title", &self.title);
        let cmd = add_text_property(cmd, "file", &self.file);
        let cmd = add_number_property(cmd, "line", self.line);
        let cmd = add_number_property(cmd, "endLine", self.end_line);
        let cmd = add_number_property(cmd, "col", self.col);
        let cmd = add_number_property(cmd, "endColumn", self.end_column);
        let r = cmd.message(message);
        assert(r@.properties =~= annotation_properties(self@));
        r
    }

    /// The `::notice::` annotation for `message`, ready to be issued.
    pub fn notice(&self, message: &str) -> (r: WorkflowCommand)
        ensures
            r@ == annotation_command(self@, AnnotationKind::Notice, message@),
    {
        self.command(AnnotationKind::Notice, message)
    }

    /// The `::warning::` annotation for `message`, ready to be issued.
    pub fn warning(&self, message: &str) -> (r: WorkflowCommand)
        ensures
            r@ == annotation_command(self@, AnnotationKind::Warning, message@),
    {
        self.command(AnnotationKind::Warning, message)
    }

    /// The `::error::` annotation for `message`, ready to be issued.
    pub fn error(&self, message: &str) -> (r: WorkflowCommand)
        ensures
            r@ == annotation_command(self@, AnnotationKind::Error, message@),
    {
        self.command(AnnotationKind::Error, message)
    }
}

} // verus!
