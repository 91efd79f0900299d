//! Fluent builder for the job summary (`GITHUB_STEP_SUMMARY`).
//!
//! The summary is GitHub-Flavored Markdown with embedded HTML. Buffer
//! construction is pure and inspectable via [`Summary::stringify`]; the
//! `write*` methods decide, from the size of the file that is there, whether
//! the buffer may be written.
//!
//! Text node content is escaped by default. Use [`SummaryText::html`] or
//! [`Summary::raw`] when you intentionally want raw HTML.

use vstd::prelude::*;

use crate::error::Error;
use crate::text::{decimal, decimal_spec, opt_str_view, push_char};

verus! {

/// GitHub's documented per-step summary size limit (1 MiB).
pub const MAX_BYTES: usize = 1024 * 1024;

// ---------------------------------------------------------------------------
// HTML escaping
// ---------------------------------------------------------------------------

/// How one character of element content is written.
pub open spec fn escape_text_char(c: char) -> Seq<char> {
    if c == '&' {
        seq!['&', 'a', 'm', 'p', ';']
    } else if c == '<' {
        seq!['&', 'l', 't', ';']
    } else if c == '>' {
        seq!['&', 'g', 't', ';']
    } else {
        seq![c]
    }
}

/// How one character of a double-quoted attribute value is written.
pub open spec fn escape_attr_char(c: char) -> Seq<char> {
    if c == '"' {
        seq!['&', 'q', 'u', 'o', 't', ';']
    } else {
        escape_text_char(c)
    }
}

/// Element content with `&`, `<` and `>` escaped.
pub open spec fn escape_text_spec(s: Seq<char>) -> Seq<char>
    decreases s.len(),
{
    if s.len() == 0 {
        Seq::empty()
    } else {
        escape_text_spec(s.drop_last()) + escape_text_char(s.last())
    }
}

/// An attribute value with `&`, `<`, `>` and `"` escaped.
pub open spec fn escape_attr_spec(s: Seq<char>) -> Seq<char>
    decreases s.len(),
{
    if s.len() == 0 {
        Seq::empty()
    } else {
        escape_attr_spec(s.drop_last()) + escape_attr_char(s.last())
    }
}

/// Append `s` to `out` as escaped element content.
pub fn push_escaped_text(out: &mut String, s: &str)
    ensures
        final(out)@ == old(out)@ + escape_text_spec(s@),
{
    let ghost start = out@;
    for c in iter: s.chars()
        invariant
            out@ == start + escape_text_spec(iter.seq().take(iter.index() as int)),
            iter.seq() == s@,
    {
        proof {
            assert(iter.seq().take(iter.index() + 1).drop_last() =~= iter.seq().take(
                iter.index() as int,
            ));
        }
        let ghost before = out@;
        push_text_char(out, c);
        proof {
            assert(out@ =~= before + escape_text_char(c));
        }
    }
    proof {
        assert(s@.take(s@.len() as int) =~= s@);
    }
}

fn push_text_char(out: &mut String, c: char)
    ensures
        final(out)@ == old(out)@ + escape_text_char(c),
{
    let ghost before = out@;
    if c == '&' {
        push_char(out, '&');
        push_char(out, 'a');
        push_char(out, 'm');
        push_char(out, 'p');
        push_char(out, ';');
    } else if c == '<' {
        push_char(out, '&');
        push_char(out, 'l');
        push_char(out, 't');
        push_char(out, ';');
    } else if c == '>' {
        push_char(out, '&');
        push_char(out, 'g');
        push_char(out, 't');
        push_char(out, ';');
    } else {
        push_char(out, c);
    }
    proof {
        assert(out@ =~= before + escape_text_char(c));
    }
}

/// Append `s` to `out` as an escaped attribute value.
pub fn push_escaped_attr(out: &mut String, s: &str)
    ensures
        final(out)@ == old(out)@ + escape_attr_spec(s@),
{
    let ghost start = out@;
    for c in iter: s.chars()
        invariant
            out@ == start + escape_attr_spec(iter.seq().take(iter.index() as int)),
            iter.seq() == s@,
    {
        proof {
            assert(iter.seq().take(iter.index() + 1).drop_last() =~= iter.seq().take(
                iter.index() as int,
            ));
        }
        let ghost before = out@;
        if c == '"' {
            push_char(out, '&');
            push_char(out, 'q');
            push_char(out, 'u');
            push_char(out, 'o');
            push_char(out, 't');
            push_char(out, ';');
        } else {
            push_text_char(out, c);
        }
        proof {
            assert(out@ =~= before + escape_attr_char(c));
        }
    }
    proof {
        assert(s@.take(s@.len() as int) =~= s@);
    }
}

/// `s` escaped for HTML element content.
pub fn esc_text(s: &str) -> (r: String)
    ensures
        r@ == escape_text_spec(s@),
{
    let mut out = String::new();
    push_escaped_text(&mut out, s);
    out
}

/// `s` escaped for a double-quoted HTML attribute value.
pub fn esc_attr(s: &str) -> (r: String)
    ensures
        r@ == escape_attr_spec(s@),
{
    let mut out = String::new();
    push_escaped_attr(&mut out, s);
    out
}

/// `&amp;`
pub open spec fn amp_entity() -> Seq<char> {
    seq!['&', 'a', 'm', 'p', ';']
}

/// `&lt;`
pub open spec fn lt_entity() -> Seq<char> {
    seq!['&', 'l', 't', ';']
}

/// `&gt;`
pub open spec fn gt_entity() -> Seq<char> {
    seq!['&', 'g', 't', ';']
}

/// `&quot;`
pub open spec fn quot_entity() -> Seq<char> {
    seq!['&', 'q', 'u', 'o', 't', ';']
}

/// How a browser reads escaped text back: the four entities written here
/// become their characters, everything else is taken as it stands.
pub open spec fn unescape_html_spec(s: Seq<char>) -> Seq<char>
    decreases s.len(),
{
    if s.len() == 0 {
        Seq::empty()
    } else if s.len() >= 5 && s.take(5) == amp_entity() {
        seq!['&'] + unescape_html_spec(s.skip(5))
    } else if s.len() >= 4 && s.take(4) == lt_entity() {
        seq!['<'] + unescape_html_spec(s.skip(4))
    } else if s.len() >= 4 && s.take(4) == gt_entity() {
        seq!['>'] + unescape_html_spec(s.skip(4))
    } else if s.len() >= 6 && s.take(6) == quot_entity() {
        seq!['"'] + unescape_html_spec(s.skip(6))
    } else {
        seq![s[0]] + unescape_html_spec(s.drop_first())
    }
}

proof fn lemma_escape_text_concat(a: Seq<char>, b: Seq<char>)
    ensures
        escape_text_spec(a + b) == escape_text_spec(a) + escape_text_spec(b),
    decreases b.len(),
{
    if b.len() == 0 {
        assert(a + b =~= a);
    } else {
        lemma_escape_text_concat(a, b.drop_last());
        assert((a + b).drop_last() =~= a + b.drop_last());
        assert((a + b).last() == b.last());
    }
}

proof fn lemma_escape_attr_concat(a: Seq<char>, b: Seq<char>)
    ensures
        escape_attr_spec(a + b) == escape_attr_spec(a) + escape_attr_spec(b),
    decreases b.len(),
{
    if b.len() == 0 {
        assert(a + b =~= a);
    } else {
        lemma_escape_attr_concat(a, b.drop_last());
        assert((a + b).drop_last() =~= a + b.drop_last());
        assert((a + b).last() == b.last());
    }
}

proof fn lemma_unescape_html_char(c: char, code: Seq<char>, rest: Seq<char>)
    requires
        code == escape_attr_char(c) || code == escape_text_char(c),
    ensures
        unescape_html_spec(code + rest) == seq![c] + unescape_html_spec(rest),
{
    let x = code + rest;
    assert(x.len() > 0);
    assert(x[0] == code[0]);
    if c == '&' {
        assert(x.take(5) =~= amp_entity());
        assert(x.skip(5) =~= rest);
    } else if c == '<' {
        assert(x[1] == 'l');
        assert(x.take(4) =~= lt_entity());
        assert(x.skip(4) =~= rest);
    } else if c == '>' {
        assert(x[1] == 'g');
        assert(x.take(4) =~= gt_entity());
        assert(x.skip(4) =~= rest);
    } else if c == '"' && code == escape_attr_char(c) {
        assert(x[1] == 'q');
        assert(x.take(6) =~= quot_entity());
        assert(x.skip(6) =~= rest);
    } else {
        assert(code == seq![c]);
        assert(x[0] == c);
        assert(x.drop_first() =~= rest);
        if x.len() >= 5 && x.take(5) == amp_entity() {
            assert(x.take(5)[0] == x[0]);
        }
        if x.len() >= 4 && x.take(4) == lt_entity() {
            assert(x.take(4)[0] == x[0]);
        }
        if x.len() >= 4 && x.take(4) == gt_entity() {
            assert(x.take(4)[0] == x[0]);
        }
        if x.len() >= 6 && x.take(6) == quot_entity() {
            assert(x.take(6)[0] == x[0]);
        }
    }
}

/// Escaping element content loses nothing: reading it back gives the
/// original text.
pub proof fn law_escape_text_roundtrip(s: Seq<char>)
    ensures
        unescape_html_spec(escape_text_spec(s)) == s,
    decreases s.len(),
{
    if s.len() > 0 {
        let rest = s.drop_first();
        let one = seq![s[0]];
        assert(s =~= one + rest);
        lemma_escape_text_concat(one, rest);
        assert(one.drop_last() =~= Seq::<char>::empty());
        assert(escape_text_spec(one.drop_last()) == Seq::<char>::empty());
        assert(one.last() == s[0]);
        assert(escape_text_spec(one) =~= escape_text_char(s[0]));
        lemma_unescape_html_char(s[0], escape_text_char(s[0]), escape_text_spec(rest));
        law_escape_text_roundtrip(rest);
    }
}

/// Escaping an attribute value loses nothing: reading it back gives the
/// original text.
pub proof fn law_escape_attr_roundtrip(s: Seq<char>)
    ensures
        unescape_html_spec(escape_attr_spec(s)) == s,
    decreases s.len(),
{
    if s.len() > 0 {
        let rest = s.drop_first();
        let one = seq![s[0]];
        assert(s =~= one + rest);
        lemma_escape_attr_concat(one, rest);
        assert(one.drop_last() =~= Seq::<char>::empty());
        assert(escape_attr_spec(one.drop_last()) == Seq::<char>::empty());
        assert(one.last() == s[0]);
        assert(escape_attr_spec(one) =~= escape_attr_char(s[0]));
        lemma_unescape_html_char(s[0], escape_attr_char(s[0]), escape_attr_spec(rest));
        law_escape_attr_roundtrip(rest);
    }
}

/// Escaped element content holds no `<` and no `>`, so it cannot open or
/// close a tag.
pub proof fn law_escape_text_no_tags(s: Seq<char>)
    ensures
        forall|i: int|
            0 <= i < escape_text_spec(s).len() ==> #[trigger] escape_text_spec(s)[i] != '<'
                && escape_text_spec(s)[i] != '>',
    decreases s.len(),
{
    if s.len() > 0 {
        law_escape_text_no_tags(s.drop_last());
        let a = escape_text_spec(s.drop_last());
        let b = escape_text_char(s.last());
        assert forall|i: int| 0 <= i < (a + b).len() implies #[trigger] (a + b)[i] != '<' && (a
            + b)[i] != '>' by {
            if i >= a.len() {
                assert((a + b)[i] == b[i - a.len()]);
            } else {
                assert((a + b)[i] == a[i]);
            }
        }
    }
}

/// An escaped attribute value holds no `<`, no `>` and no `"`, so it cannot
/// end the attribute.
pub proof fn law_escape_attr_closed(s: Seq<char>)
    ensures
        forall|i: int|
            0 <= i < escape_attr_spec(s).len() ==> {
                let c = #[trigger] escape_attr_spec(s)[i];
                c != '<' && c != '>' && c != '"'
            },
    decreases s.len(),
{
    if s.len() > 0 {
        law_escape_attr_closed(s.drop_last());
        let a = escape_attr_spec(s.drop_last());
        let b = escape_attr_char(s.last());
        assert forall|i: int| 0 <= i < (a + b).len() implies {
            let c = #[trigger] (a + b)[i];
            c != '<' && c != '>' && c != '"'
        } by {
            if i >= a.len() {
                assert((a + b)[i] == b[i - a.len()]);
            } else {
                assert((a + b)[i] == a[i]);
            }
        }
    }
}

// ---------------------------------------------------------------------------
// Text and cells
// ---------------------------------------------------------------------------

/// Text destined for a summary element.
#[derive(Debug, PartialEq, Eq)]
pub enum SummaryText {
    /// Escape HTML metacharacters before rendering.
    Escaped(String),
    /// Insert trusted HTML verbatim.
    Html(String),
}

/// The HTML that a summary text renders to.
pub open spec fn text_html(t: SummaryText) -> Seq<char> {
    match t {
        SummaryText::Escaped(s) => escape_text_spec(s@),
        SummaryText::Html(h) => h@,
    }
}

impl Clone for SummaryText {
    fn clone(&self) -> (r: Self)
        ensures
            r == *self,
    {
        match self {
            SummaryText::Escaped(s) => SummaryText::Escaped(s.clone()),
            SummaryText::Html(s) => SummaryText::Html(s.clone()),
        }
    }
}

impl SummaryText {
    /// Escape `text` before rendering it into an element body.
    pub fn escaped(text: &str) -> (r: Self)
        ensures
            r matches SummaryText::Escaped(s) && s@ == text@,
    {
        SummaryText::Escaped(String::from_str(text))
    }

    /// Insert trusted HTML verbatim into an element body.
    pub fn html(html: &str) -> (r: Self)
        ensures
            r matches SummaryText::Html(s) && s@ == html@,
    {
        SummaryText::Html(String::from_str(html))
    }

    /// The HTML this text renders to.
    pub fn into_html(self) -> (r: String)
        ensures
            r@ == text_html(self),
    {
        match self {
            SummaryText::Escaped(text) => esc_text(text.as_str()),
            SummaryText::Html(html) => html,
        }
    }
}

impl From<String> for SummaryText {
    /// Text to be escaped.
    fn from(text: String) -> (r: Self) {
        SummaryText::Escaped(text)
    }
}

impl vstd::std_specs::convert::FromSpecImpl<String> for SummaryText {
    open spec fn obeys_from_spec() -> bool {
        true
    }

    open spec fn from_spec(text: String) -> Self {
        SummaryText::Escaped(text)
    }
}

impl<'a> From<&'a String> for SummaryText {
    /// Text to be escaped.
    fn from(text: &'a String) -> (r: Self) {
        SummaryText::Escaped(text.clone())
    }
}

impl<'a> vstd::std_specs::convert::FromSpecImpl<&'a String> for SummaryText {
    open spec fn obeys_from_spec() -> bool {
        true
    }

    open spec fn from_spec(text: &'a String) -> Self {
        SummaryText::Escaped(*text)
    }
}

/// Append the HTML of `t` to `out`.
fn push_html(out: &mut String, t: &SummaryText)
    ensures
        final(out)@ == old(out)@ + text_html(*t),
{
    match t {
        SummaryText::Escaped(text) => push_escaped_text(out, text.as_str()),
        SummaryText::Html(html) => out.append(html.as_str()),
    }
}

/// The abstract content of a [`Cell`].
pub struct CellView {
    pub html: Seq<char>,
    pub header: bool,
    pub colspan: u32,
    pub rowspan: u32,
}

/// A table cell: `<th>` when `header`, `<td>` otherwise. `colspan` and
/// `rowspan` map to the matching HTML attributes and are never zero. Cell
/// content is escaped unless it is [`SummaryText::html`].
#[derive(Debug)]
pub struct Cell {
    data: SummaryText,
    header: bool,
    colspan: u32,
    rowspan: u32,
}

impl Cell {
    /// The spans of a cell are at least one (the HTML spec forbids zero).
    #[verifier::type_invariant]
    spec fn spans_positive(self) -> bool {
        self.colspan >= 1 && self.rowspan >= 1
    }
}

impl Clone for Cell {
    fn clone(&self) -> (r: Self)
        ensures
            r@ == self@,
    {
        proof {
            use_type_invariant(self);
        }
        Cell {
            data: self.data.clone(),
            header: self.header,
            colspan: self.colspan,
            rowspan: self.rowspan,
        }
    }
}

impl View for Cell {
    type V = CellView;

    closed spec fn view(&self) -> CellView {
        CellView {
            html: text_html(self.data),
            header: self.header,
            colspan: self.colspan,
            rowspan: self.rowspan,
        }
    }
}

/// `n`, raised to one when it is zero.
pub open spec fn at_least_one(n: u32) -> u32 {
    if n < 1 {
        1
    } else {
        n
    }
}

impl Cell {
    /// A `<td>` cell spanning one column and one row.
    pub fn new(data: SummaryText) -> (r: Self)
        ensures
            r@ == (CellView { html: text_html(data), header: false, colspan: 1, rowspan: 1 }),
    {
        Cell { data, header: false, colspan: 1, rowspan: 1 }
    }

    /// A `<th>` header cell spanning one column and one row.
    pub fn header(data: SummaryText) -> (r: Self)
        ensures
            r@ == (CellView { html: text_html(data), header: true, colspan: 1, rowspan: 1 }),
    {
        Cell { data, header: true, colspan: 1, rowspan: 1 }
    }

    /// Set the column span (raised to 1 when 0).
    pub fn colspan(self, n: u32) -> (r: Self)
        ensures
            r@ == (CellView { colspan: at_least_one(n), ..self@ }),
            r@.colspan >= 1,
            r@.rowspan >= 1,
    {
        proof {
            use_type_invariant(&self);
        }
        let n = if n < 1 {
            1
        } else {
            n
        };
        Cell { colspan: n, ..self }
    }

    /// Set the row span (raised to 1 when 0).
    pub fn rowspan(self, n: u32) -> (r: Self)
        ensures
            r@ == (CellView { rowspan: at_least_one(n), ..self@ }),
            r@.colspan >= 1,
            r@.rowspan >= 1,
    {
        proof {
            use_type_invariant(&self);
        }
        let n = if n < 1 {
            1
        } else {
            n
        };
        Cell { rowspan: n, ..self }
    }
}

// ---------------------------------------------------------------------------
// Fragments
// ---------------------------------------------------------------------------

/// A heading level clamped to `1..=6`.
pub open spec fn clamp_level(level: u8) -> nat {
    if level < 1 {
        1
    } else if level > 6 {
        6
    } else {
        level as nat
    }
}

/// `<hN>text</hN>` and a newline.
pub open spec fn heading_html(text: Seq<char>, level: u8) -> Seq<char> {
    let l = decimal_spec(clamp_level(level));
    "<h"@ + l + ">"@ + text + "</h"@ + l + ">\n"@
}

/// A heading is written at the level asked for when it is 1 to 6, at 1
/// below that and at 6 above: `<hN>`, the text, `</hN>` and a newline, where
/// `N` is that one digit.
pub proof fn law_heading_level(text: Seq<char>, level: u8)
    ensures
        ({
            let n: int = if level < 1 {
                1
            } else if level > 6 {
                6
            } else {
                level as int
            };
            let c: char = ('0' as int + n) as char;
            heading_html(text, level) == seq!['<', 'h', c, '>'] + text + seq!['<', '/', 'h', c, '>', '\n']
        }),
{
    reveal_strlit("<h");
    reveal_strlit(">");
    reveal_strlit("</h");
    reveal_strlit(">\n");
    let n: int = if level < 1 {
        1
    } else if level > 6 {
        6
    } else {
        level as int
    };
    let c: char = ('0' as int + n) as char;
    assert(clamp_level(level) == n);
    assert(decimal_spec(n as nat) == seq![crate::text::digit_char(n as nat)]);
    assert(crate::text::digit_char(n as nat) == c);
    assert(heading_html(text, level) =~= seq!['<', 'h', c, '>'] + text + seq!['<', '/', 'h', c, '>', '\n']);
}

/// A `<pre><code>` block with an optional language hint, and a newline.
pub open spec fn code_block_html(code: Seq<char>, lang: Option<Seq<char>>) -> Seq<char> {
    match lang {
        Some(l) => "<pre lang=\""@ + escape_attr_spec(l) + "\"><code>"@ + escape_text_spec(code)
            + "</code></pre>\n"@,
        None => "<pre><code>"@ + escape_text_spec(code) + "</code></pre>\n"@,
    }
}

/// `<li>` items, one per text.
pub open spec fn items_html(items: Seq<SummaryText>) -> Seq<char>
    decreases items.len(),
{
    if items.len() == 0 {
        Seq::empty()
    } else {
        items_html(items.drop_last()) + "<li>"@ + text_html(items.last()) + "</li>"@
    }
}

/// The list tag: `ol` when ordered, `ul` otherwise.
pub open spec fn list_tag(ordered: bool) -> Seq<char> {
    if ordered {
        "ol"@
    } else {
        "ul"@
    }
}

/// A `<ul>`/`<ol>` list and a newline.
pub open spec fn list_html(items: Seq<SummaryText>, ordered: bool) -> Seq<char> {
    "<"@ + list_tag(ordered) + ">"@ + items_html(items) + "</"@ + list_tag(ordered) + ">\n"@
}

/// The cell tag: `th` for headers, `td` otherwise.
pub open spec fn cell_tag(header: bool) -> Seq<char> {
    if header {
        "th"@
    } else {
        "td"@
    }
}

/// One table cell.
pub open spec fn cell_html(c: CellView) -> Seq<char> {
    "<"@ + cell_tag(c.header) + " colspan=\""@ + decimal_spec(c.colspan as nat) + "\" rowspan=\""@
        + decimal_spec(c.rowspan as nat) + "\">"@ + c.html + "</"@ + cell_tag(c.header) + ">"@
}

/// The cells of one row.
pub open spec fn cells_html(cells: Seq<CellView>) -> Seq<char>
    decreases cells.len(),
{
    if cells.len() == 0 {
        Seq::empty()
    } else {
        cells_html(cells.drop_last()) + cell_html(cells.last())
    }
}

/// The rows of a table, each in `<tr>`.
pub open spec fn rows_html(rows: Seq<Seq<CellView>>) -> Seq<char>
    decreases rows.len(),
{
    if rows.len() == 0 {
        Seq::empty()
    } else {
        rows_html(rows.drop_last()) + "<tr>"@ + cells_html(rows.last()) + "</tr>"@
    }
}

/// A `<table>` and a newline.
pub open spec fn table_html(rows: Seq<Seq<CellView>>) -> Seq<char> {
    "<table>"@ + rows_html(rows) + "</table>\n"@
}

/// The views of a table's cells.
pub open spec fn rows_view(rows: Seq<Vec<Cell>>) -> Seq<Seq<CellView>> {
    rows.map_values(|row: Vec<Cell>| row@.map_values(|c: Cell| c@))
}

/// A `<details>` block with a `<summary>` label, and a newline.
pub open spec fn details_html(label: Seq<char>, content: Seq<char>) -> Seq<char> {
    "<details><summary>"@ + label + "</summary>"@ + content + "</details>\n"@
}

/// The optional `width`/`height` attributes of an image.
pub open spec fn size_html(size: Option<(u32, u32)>) -> Seq<char> {
    match size {
        Some((w, h)) => " width=\""@ + decimal_spec(w as nat) + "\" height=\""@ + decimal_spec(
            h as nat,
        ) + "\""@,
        None => Seq::empty(),
    }
}

/// An `<img>` and a newline.
pub open spec fn image_html(src: Seq<char>, alt: Seq<char>, size: Option<(u32, u32)>) -> Seq<
    char,
> {
    "<img src=\""@ + escape_attr_spec(src) + "\" alt=\""@ + escape_attr_spec(alt) + "\""@
        + size_html(size) + ">\n"@
}

/// An `<a>` link and a newline.
pub open spec fn link_html(text: Seq<char>, href: Seq<char>) -> Seq<char> {
    "<a href=\""@ + escape_attr_spec(href) + "\">"@ + text + "</a>\n"@
}

/// A `<blockquote>` with an optional `cite`, and a newline.
pub open spec fn quote_html(text: Seq<char>, cite: Option<Seq<char>>) -> Seq<char> {
    match cite {
        Some(c) => "<blockquote cite=\""@ + escape_attr_spec(c) + "\">"@ + text
            + "</blockquote>\n"@,
        None => "<blockquote>"@ + text + "</blockquote>\n"@,
    }
}

// ---------------------------------------------------------------------------
// Size guard
// ---------------------------------------------------------------------------

/// The UTF-8 size of the buffer in bytes.
pub open spec fn byte_len(s: Seq<char>) -> nat {
    vstd::utf8::encode_utf8(s).len()
}

/// What a write decision returns for a buffer of `n` bytes and a target
/// file that holds `existing` bytes (`None` when `GITHUB_STEP_SUMMARY` is
/// unset): `Ok(true)` to write, `Ok(false)` when there is nowhere to write,
/// or [`Error::SummaryTooLarge`].
pub open spec fn write_result(n: nat, existing: Option<u64>, r: Result<bool, Error>) -> bool {
    if n > MAX_BYTES {
        r matches Err(Error::SummaryTooLarge { bytes }) && bytes == n
    } else {
        match existing {
            None => r == Ok::<bool, Error>(false),
            Some(e) => {
                let total = if e + n > u64::MAX {
                    u64::MAX as nat
                } else {
                    (e + n) as nat
                };
                if total > MAX_BYTES {
                    r matches Err(Error::SummaryTooLarge { bytes }) && bytes == (if total
                        > usize::MAX {
                        usize::MAX as nat
                    } else {
                        total
                    })
                } else {
                    r == Ok::<bool, Error>(true)
                }
            },
        }
    }
}

// ---------------------------------------------------------------------------
// The builder
// ---------------------------------------------------------------------------

/// Accumulating job-summary builder. Chain the builder methods, then ask
/// [`write`](Summary::write) (append) or
/// [`write_overwrite`](Summary::write_overwrite) whether the buffer may be
/// written.
#[derive(Debug, Clone)]
pub struct Summary {
    buf: String,
}

impl View for Summary {
    type V = Seq<char>;

    closed spec fn view(&self) -> Seq<char> {
        self.buf@
    }
}

impl Default for Summary {
    /// An empty summary buffer.
    fn default() -> (r: Self)
        ensures
            r@ == Seq::<char>::empty(),
    {
        Summary::new()
    }
}

impl Summary {
    /// Create an empty summary buffer.
    pub fn new() -> (r: Self)
        ensures
            r@ == Seq::<char>::empty(),
    {
        Summary { buf: String::new() }
    }

    /// Append raw text **without HTML escaping**, and a newline when `eol`.
    ///
    /// This is the one builder method that does not escape `& < > "`:
    /// passing untrusted input here is an HTML-injection vector.
    pub fn raw(&mut self, text: &str, eol: bool) -> (r: &mut Self)
        ensures
            r@ == old(self)@ + text@ + (if eol {
                seq!['\n']
            } else {
                Seq::empty()
            }),
            *final(self) == *final(r),
    {
        self.buf.append(text);
        if eol {
            push_char(&mut self.buf, '\n');
        }
        self
    }

    /// Append a newline.
    pub fn eol(&mut self) -> (r: &mut Self)
        ensures
            r@ == old(self)@.push('\n'),
            *final(self) == *final(r),
    {
        push_char(&mut self.buf, '\n');
        self
    }

    /// Append an `<h1>`–`<h6>` heading (`level` clamped to `1..=6`). Text is
    /// escaped unless it is [`SummaryText::html`].
    pub fn heading(&mut self, text: SummaryText, level: u8) -> (r: &mut Self)
        ensures
            r@ == old(self)@ + heading_html(text_html(text), level),
            *final(self) == *final(r),
    {
        let l: u8 = if level < 1 {
            1
        } else if level > 6 {
            6
        } else {
            level
        };
        let digits = decimal(l as u64);
        self.buf.append("<h");
        self.buf.append(digits.as_str());
        self.buf.append(">");
        push_html(&mut self.buf, &text);
        self.buf.append("</h");
        self.buf.append(digits.as_str());
        self.buf.append(">\n");
        self
    }

    /// Append a `<pre><code>` block with an optional language hint; the code
    /// is escaped.
    pub fn code_block(&mut self, code: &str, lang: Option<&str>) -> (r: &mut Self)
        ensures
            r@ == old(self)@ + code_block_html(code@, opt_str_view(lang)),
            *final(self) == *final(r),
    {
        match lang {
            Some(l) => {
                self.buf.append("<pre lang=\"");
                push_escaped_attr(&mut self.buf, l);
                self.buf.append("\"><code>");
                push_escaped_text(&mut self.buf, code);
                self.buf.append("</code></pre>\n");
            },
            None => {
                self.buf.append("<pre><code>");
                push_escaped_text(&mut self.buf, code);
                self.buf.append("</code></pre>\n");
            },
        }
        self
    }

    /// Append a `<ul>` (or `<ol>` when `ordered`) of `items`.
    pub fn list(&mut self, items: Vec<SummaryText>, ordered: bool) -> (r: &mut Self)
        ensures
            r@ == old(self)@ + list_html(items@, ordered),
            *final(self) == *final(r),
    {
        let tag = if ordered {
            "ol"
        } else {
            "ul"
        };
        self.buf.append("<");
        self.buf.append(tag);
        self.buf.append(">");
        let ghost start = self.buf@;
        let n: usize = items.len();
        let mut i: usize = 0;
        while i < n
            invariant
                n == items.len(),
                i <= n,
                self.buf@ == start + items_html(items@.take(i as int)),
            decreases n - i,
        {
            self.buf.append("<li>");
            push_html(&mut self.buf, &items[i]);
            self.buf.append("</li>");
            proof {
                let t = items@.take(i + 1);
                assert(t.drop_last() =~= items@.take(i as int));
                assert(t.last() == items@[i as int]);
            }
            i = i + 1;
        }
        proof {
            assert(items@.take(n as int) =~= items@);
        }
        self.buf.append("</");
        self.buf.append(tag);
        self.buf.append(">\n");
        self
    }

    /// Append a `<table>`. Each row is a list of [`Cell`]s.
    pub fn table(&mut self, rows: Vec<Vec<Cell>>) -> (r: &mut Self)
        ensures
            r@ == old(self)@ + table_html(rows_view(rows@)),
            *final(self) == *final(r),
    {
        self.buf.append("<table>");
        let ghost start = self.buf@;
        let n: usize = rows.len();
        let mut i: usize = 0;
        while i < n
            invariant
                n == rows.len(),
                i <= n,
                self.buf@ == start + rows_html(rows_view(rows@).take(i as int)),
            decreases n - i,
        {
            self.buf.append("<tr>");
            push_cells(&mut self.buf, &rows[i]);
            self.buf.append("</tr>");
            proof {
                let rv = rows_view(rows@);
                let t = rv.take(i + 1);
                assert(t.drop_last() =~= rv.take(i as int));
                assert(t.last() == rv[i as int]);
                assert(rv[i as int] == rows@[i as int]@.map_values(|c: Cell| c@));
            }
            i = i + 1;
        }
        proof {
            assert(rows_view(rows@).take(n as int) =~= rows_view(rows@));
        }
        self.buf.append("</table>\n");
        self
    }

    /// Append a `<details>` block with a `<summary>` label.
    pub fn details(&mut self, label: SummaryText, content: SummaryText) -> (r: &mut Self)
        ensures
            r@ == old(self)@ + details_html(text_html(label), text_html(content)),
            *final(self) == *final(r),
    {
        self.buf.append("<details><summary>");
        push_html(&mut self.buf, &label);
        self.buf.append("</summary>");
        push_html(&mut self.buf, &content);
        self.buf.append("</details>\n");
        self
    }

    /// Append an `<img>`. `size` is an optional `(width, height)` in pixels.
    pub fn image(&mut self, src: &str, alt: &str, size: Option<(u32, u32)>) -> (r: &mut Self)
        ensures
            r@ == old(self)@ + image_html(src@, alt@, size),
            *final(self) == *final(r),
    {
        self.buf.append("<img src=\"");
        push_escaped_attr(&mut self.buf, src);
        self.buf.append("\" alt=\"");
        push_escaped_attr(&mut self.buf, alt);
        self.buf.append("\"");
        match size {
            Some((w, h)) => {
                self.buf.append(" width=\"");
                let dw = decimal(w as u64);
                self.buf.append(dw.as_str());
                self.buf.append("\" height=\"");
                let dh = decimal(h as u64);
                self.buf.append(dh.as_str());
                self.buf.append("\"");
            },
            None => {},
        }
        self.buf.append(">\n");
        self
    }

    /// Append an `<a>` link. The link text is escaped unless it is
    /// [`SummaryText::html`]; `href` is always attribute-escaped.
    pub fn link(&mut self, text: SummaryText, href: &str) -> (r: &mut Self)
        ensures
            r@ == old(self)@ + link_html(text_html(text), href@),
            *final(self) == *final(r),
    {
        self.buf.append("<a href=\"");
        push_escaped_attr(&mut self.buf, href);
        self.buf.append("\">");
        push_html(&mut self.buf, &text);
        self.buf.append("</a>\n");
        self
    }

    /// Append a `<blockquote>` with an optional `cite` URL.
    pub fn quote(&mut self, text: SummaryText, cite: Option<&str>) -> (r: &mut Self)
        ensures
            r@ == old(self)@ + quote_html(text_html(text), opt_str_view(cite)),
            *final(self) == *final(r),
    {
        match cite {
            Some(c) => {
                self.buf.append("<blockquote cite=\"");
                push_escaped_attr(&mut self.buf, c);
                self.buf.append("\">");
                push_html(&mut self.buf, &text);
                self.buf.append("</blockquote>\n");
            },
            None => {
                self.buf.append("<blockquote>");
                push_html(&mut self.buf, &text);
                self.buf.append("</blockquote>\n");
            },
        }
        self
    }

    /// Append an `<hr>`.
    pub fn separator(&mut self) -> (r: &mut Self)
        ensures
            r@ == old(self)@ + "<hr>\n"@,
            *final(self) == *final(r),
    {
        self.buf.append("<hr>\n");
        self
    }

    /// Append a `<br>`.
    pub fn break_(&mut self) -> (r: &mut Self)
        ensures
            r@ == old(self)@ + "<br>\n"@,
            *final(self) == *final(r),
    {
        self.buf.append("<br>\n");
        self
    }

    /// The buffered summary content.
    pub fn stringify(&self) -> (r: &str)
        ensures
            r@ == self@,
    {
        self.buf.as_str()
    }

    /// Whether nothing has been buffered yet.
    pub fn is_empty(&self) -> (r: bool)
        ensures
            r == (self@.len() == 0),
    {
        self.buf.as_str().is_empty()
    }

    /// Clear the buffer.
    pub fn clear(&mut self) -> (r: &mut Self)
        ensures
            r@ == Seq::<char>::empty(),
            *final(self) == *final(r),
    {
        self.buf = String::new();
        self
    }

    /// Whether the buffer may be appended to the summary file, which holds
    /// `existing` bytes (`None` when `GITHUB_STEP_SUMMARY` is unset).
    ///
    /// The buffer size is checked first, then the combined size. `Ok(true)`
    /// means: write the buffer, then [`clear`](Summary::clear) it. `Ok(false)`
    /// means there is nowhere to write; the buffer is kept.
    pub fn write(&self, existing: Option<u64>) -> (r: Result<bool, Error>)
        ensures
            write_result(byte_len(self@), existing, r),
    {
        self.decide(existing)
    }

    /// Whether the buffer may overwrite the summary file (`target_set` is
    /// whether `GITHUB_STEP_SUMMARY` is set). Only the buffer's own size is
    /// checked.
    pub fn write_overwrite(&self, target_set: bool) -> (r: Result<bool, Error>)
        ensures
            write_result(
                byte_len(self@),
                if target_set {
                    Some(0u64)
                } else {
                    None
                },
                r,
            ),
    {
        self.decide(if target_set {
            Some(0)
        } else {
            None
        })
    }

    fn decide(&self, existing: Option<u64>) -> (r: Result<bool, Error>)
        ensures
            write_result(byte_len(self@), existing, r),
    {
        let len: usize = self.buf.as_str().as_bytes().len();
        if len > MAX_BYTES {
            return Err(Error::SummaryTooLarge { bytes: len });
        }
        let write_bytes: u64 = len as u64;
        match existing {
            None => Ok(false),
            Some(e) => {
                let total: u64 = if e > u64::MAX - write_bytes {
                    u64::MAX
                } else {
                    e + write_bytes
                };
                if total > MAX_BYTES as u64 {
                    let bytes: usize = if total <= usize::MAX as u64 {
                        total as usize
                    } else {
                        usize::MAX
                    };
                    Err(Error::SummaryTooLarge { bytes })
                } else {
                    Ok(true)
                }
            },
        }
    }
}

/// Append the cells of one row to `out`.
fn push_cells(out: &mut String, cells: &Vec<Cell>)
    ensures
        final(out)@ == old(out)@ + cells_html(cells@.map_values(|c: Cell| c@)),
{
    let ghost start = out@;
    let ghost cv = cells@.map_values(|c: Cell| c@);
    let n: usize = cells.len();
    let mut i: usize = 0;
    while i < n
        invariant
            n == cells.len(),
            i <= n,
            cv == cells@.map_values(|c: Cell| c@),
            out@ == start + cells_html(cv.take(i as int)),
        decreases n - i,
    {
        push_cell(out, &cells[i]);
        proof {
            let t = cv.take(i + 1);
            assert(t.drop_last() =~= cv.take(i as int));
            assert(t.last() == cells@[i as int]@);
        }
        i = i + 1;
    }
    proof {
        assert(cv.take(n as int) =~= cv);
    }
}

/// Append one cell to `out`.
fn push_cell(out: &mut String, cell: &Cell)
    ensures
        final(out)@ == old(out)@ + cell_html(cell@),
{
    let tag = if cell.header {
        "th"
    } else {
        "td"
    };
    out.append("<");
    out.append(tag);
    out.append(" colspan=\"");
    let dc = decimal(cell.colspan as u64);
    out.append(dc.as_str());
    out.append("\" rowspan=\"");
    let dr = decimal(cell.rowspan as u64);
    out.append(dr.as_str());
    out.append("\">");
    push_html(out, &cell.data);
    out.append("</");
    out.append(tag);
    out.append(">");
}

} // verus!
