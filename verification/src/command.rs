//! Workflow commands (`::name key=value,...::message`) and their
//! percent-encoding.
//!
//! The runner reads commands line by line from stdout. Command *data* (the
//! message) escapes `%`, `\r` and `\n`; command *properties* additionally
//! escape `:` and `,`, which would otherwise end the property list.

use vstd::prelude::*;

use crate::text::push_char;

verus! {

// ---------------------------------------------------------------------------
// Encoding specifications
// ---------------------------------------------------------------------------

/// How one character of command data is written.
pub open spec fn escape_data_char(c: char) -> Seq<char> {
    if c == '%' {
        seq!['%', '2', '5']
    } else if c == '\r' {
        seq!['%', '0', 'D']
    } else if c == '\n' {
        seq!['%', '0', 'A']
    } else {
        seq![c]
    }
}

/// How one character of a property value is written.
pub open spec fn escape_property_char(c: char) -> Seq<char> {
    if c == ':' {
        seq!['%', '3', 'A']
    } else if c == ',' {
        seq!['%', '2', 'C']
    } else {
        escape_data_char(c)
    }
}

/// Command data with every character escaped.
pub open spec fn escape_data_spec(s: Seq<char>) -> Seq<char>
    decreases s.len(),
{
    if s.len() == 0 {
        Seq::empty()
    } else {
        escape_data_spec(s.drop_last()) + escape_data_char(s.last())
    }
}

/// A property value with every character escaped.
pub open spec fn escape_property_spec(s: Seq<char>) -> Seq<char>
    decreases s.len(),
{
    if s.len() == 0 {
        Seq::empty()
    } else {
        escape_property_spec(s.drop_last()) + escape_property_char(s.last())
    }
}

/// The character that a two-character percent code stands for.
pub open spec fn percent_code(a: char, b: char) -> Option<char> {
    if a == '2' && b == '5' {
        Some('%')
    } else if a == '0' && b == 'D' {
        Some('\r')
    } else if a == '0' && b == 'A' {
        Some('\n')
    } else if a == '3' && b == 'A' {
        Some(':')
    } else if a == '2' && b == 'C' {
        Some(',')
    } else {
        None
    }
}

/// How the runner reads escaped text back: each known percent code becomes
/// its character, everything else is taken as it stands.
pub open spec fn unescape_spec(s: Seq<char>) -> Seq<char>
    decreases s.len(),
{
    if s.len() == 0 {
        Seq::empty()
    } else if s[0] == '%' && s.len() >= 3 && percent_code(s[1], s[2]) is Some {
        seq![percent_code(s[1], s[2])->0] + unescape_spec(s.skip(3))
    } else {
        seq![s[0]] + unescape_spec(s.drop_first())
    }
}

/// Whether `s` holds neither a carriage return nor a line feed.
pub open spec fn single_line(s: Seq<char>) -> bool {
    forall|i: int| 0 <= i < s.len() ==> #[trigger] s[i] != '\r' && s[i] != '\n'
}

// ---------------------------------------------------------------------------
// Command model
// ---------------------------------------------------------------------------

/// The abstract content of a [`WorkflowCommand`].
pub struct CommandView {
    pub command: Seq<char>,
    pub properties: Seq<(Seq<char>, Seq<char>)>,
    pub message: Seq<char>,
}

/// A command with no properties.
pub open spec fn simple_command(command: Seq<char>, message: Seq<char>) -> CommandView {
    CommandView { command, properties: Seq::empty(), message }
}

/// One `key=value` pair as written on the wire.
pub open spec fn render_property(p: (Seq<char>, Seq<char>)) -> Seq<char> {
    p.0 + seq!['='] + escape_property_spec(p.1)
}

/// The comma-separated property list.
pub open spec fn render_properties(ps: Seq<(Seq<char>, Seq<char>)>) -> Seq<char>
    decreases ps.len(),
{
    if ps.len() == 0 {
        Seq::empty()
    } else if ps.len() == 1 {
        render_property(ps[0])
    } else {
        render_properties(ps.drop_last()) + seq![','] + render_property(ps.last())
    }
}

/// The full command line: `::command key=value,...::message`, with the
/// space and property list present only when there are properties.
pub open spec fn render_command(v: CommandView) -> Seq<char> {
    seq![':', ':'] + v.command + (if v.properties.len() > 0 {
        seq![' '] + render_properties(v.properties)
    } else {
        Seq::empty()
    }) + seq![':', ':'] + escape_data_spec(v.message)
}

/// A low-level workflow command, for anything the higher-level helpers do not
/// cover. Build it, then render it with [`WorkflowCommand::to_string`].
#[derive(Debug, Clone, PartialEq, Eq)]
pub struct WorkflowCommand {
    command: String,
    properties: Vec<(String, String)>,
    message: String,
}

/// The views of a list of string pairs.
pub open spec fn pairs_view(v: Seq<(String, String)>) -> Seq<(Seq<char>, Seq<char>)> {
    v.map_values(|p: (String, String)| (p.0@, p.1@))
}

impl View for WorkflowCommand {
    type V = CommandView;

    closed spec fn view(&self) -> CommandView {
        CommandView {
            command: self.command@,
            properties: pairs_view(self.properties@),
            message: self.message@,
        }
    }
}

impl WorkflowCommand {
    /// A command named `command` with no properties and an empty message.
    pub fn new(command: &str) -> (r: Self)
        ensures
            r@ == (CommandView { command: command@, properties: Seq::empty(), message: Seq::empty() }),
    {
        let r = WorkflowCommand {
            command: String::from_str(command),
            properties: Vec::new(),
            message: String::new(),
        };
        proof {
            assert(pairs_view(r.properties@) =~= Seq::empty());
        }
        r
    }

    /// Add the property `key=value` after those already set.
    pub fn property(self, key: &str, value: &str) -> (r: Self)
        ensures
            r@ == (CommandView {
                command: self@.command,
                properties: self@.properties.push((key@, value@)),
                message: self@.message,
            }),
    {
        let mut props = self.properties;
        let ghost old_props = props@;
        props.push((String::from_str(key), String::from_str(value)));
        proof {
            assert(pairs_view(props@) =~= pairs_view(old_props).push((key@, value@)));
        }
        WorkflowCommand { command: self.command, properties: props, message: self.message }
    }

    /// Add the property `key=value` when `value` is `Some`; leave the command
    /// unchanged when it is `None`.
    pub fn property_opt(self, key: &str, value: Option<String>) -> (r: Self)
        ensures
            r@ == (match value {
                Some(v) => CommandView {
                    command: self@.command,
                    properties: self@.properties.push((key@, v@)),
                    message: self@.message,
                },
                None => self@,
            }),
    {
        match value {
            Some(v) => self.property(key, v.as_str()),
            None => self,
        }
    }

    /// Set the message (the command data after the final `::`).
    pub fn message(self, message: &str) -> (r: Self)
        ensures
            r@ == (CommandView {
                command: self@.command,
                properties: self@.properties,
                message: message@,
            }),
    {
        WorkflowCommand {
            command: self.command,
            properties: self.properties,
            message: String::from_str(message),
        }
    }

    /// The command line as the runner reads it (without the trailing newline).
    pub fn to_string(&self) -> (r: String)
        ensures
            r@ == render_command(self@),
    {
        let mut out = String::new();
        push_char(&mut out, ':');
        push_char(&mut out, ':');
        out.append(self.command.as_str());
        let n: usize = self.properties.len();
        if n > 0 {
            push_char(&mut out, ' ');
            let ghost start = out@;
            let mut i: usize = 0;
            while i < n
                invariant
                    n == self.properties.len(),
                    n > 0,
                    i <= n,
                    out@ == start + render_properties(pairs_view(self.properties@).take(i as int)),
                decreases n - i,
            {
                let ghost ps = pairs_view(self.properties@);
                let ghost before = out@;
                if i > 0 {
                    push_char(&mut out, ',');
                }
                let (key, value) = (&self.properties[i].0, &self.properties[i].1);
                out.append(key.as_str());
                push_char(&mut out, '=');
                push_escaped_property(&mut out, value.as_str());
                proof {
                    let t = ps.take(i + 1);
                    assert(t.drop_last() =~= ps.take(i as int));
                    assert(t.last() == ps[i as int]);
                    assert(ps[i as int] == (key@, value@));
                    if i == 0 {
                        assert(ps.take(0) =~= Seq::<(Seq<char>, Seq<char>)>::empty());
                        assert(out@ =~= start + render_property(ps[0]));
                    } else {
                        assert(out@ =~= before + seq![','] + render_property(ps[i as int]));
                    }
                }
                i = i + 1;
            }
            proof {
                assert(pairs_view(self.properties@).take(n as int) =~= pairs_view(self.properties@));
            }
        }
        push_char(&mut out, ':');
        push_char(&mut out, ':');
        push_escaped_data(&mut out, self.message.as_str());
        proof {
            let v = self@;
            assert(out@ =~= render_command(v));
        }
        out
    }
}

// ---------------------------------------------------------------------------
// Executable encoders
// ---------------------------------------------------------------------------

/// Append `s` to `out`, escaped as command data.
pub fn push_escaped_data(out: &mut String, s: &str)
    ensures
        final(out)@ == old(out)@ + escape_data_spec(s@),
{
    let ghost start = out@;
    for c in iter: s.chars()
        invariant
            out@ == start + escape_data_spec(iter.seq().take(iter.index() as int)),
            iter.seq() == s@,
    {
        proof {
            assert(iter.seq().take(iter.index() + 1).drop_last() =~= iter.seq().take(
                iter.index() as int,
            ));
        }
        let ghost before = out@;
        if c == '%' {
            push_char(out, '%');
            push_char(out, '2');
            push_char(out, '5');
        } else if c == '\r' {
            push_char(out, '%');
            push_char(out, '0');
            push_char(out, 'D');
        } else if c == '\n' {
            push_char(out, '%');
            push_char(out, '0');
            push_char(out, 'A');
        } else {
            push_char(out, c);
        }
        proof {
            assert(out@ =~= before + escape_data_char(c));
        }
    }
    proof {
        assert(s@.take(s@.len() as int) =~= s@);
    }
}

/// Append `s` to `out`, escaped as a property value.
pub fn push_escaped_property(out: &mut String, s: &str)
    ensures
        final(out)@ == old(out)@ + escape_property_spec(s@),
{
    let ghost start = out@;
    for c in iter: s.chars()
        invariant
            out@ == start + escape_property_spec(iter.seq().take(iter.index() as int)),
            iter.seq() == s@,
    {
        proof {
            assert(iter.seq().take(iter.index() + 1).drop_last() =~= iter.seq().take(
                iter.index() as int,
            ));
        }
        let ghost before = out@;
        if c == ':' {
            push_char(out, '%');
            push_char(out, '3');
            push_char(out, 'A');
        } else if c == ',' {
            push_char(out, '%');
            push_char(out, '2');
            push_char(out, 'C');
        } else if c == '%' {
            push_char(out, '%');
            push_char(out, '2');
            push_char(out, '5');
        } else if c == '\r' {
            push_char(out, '%');
            push_char(out, '0');
            push_char(out, 'D');
        } else if c == '\n' {
            push_char(out, '%');
            push_char(out, '0');
            push_char(out, 'A');
        } else {
            push_char(out, c);
        }
        proof {
            assert(out@ =~= before + escape_property_char(c));
        }
    }
    proof {
        assert(s@.take(s@.len() as int) =~= s@);
    }
}

/// `s` escaped as command data: `%` → `%25`, `\r` → `%0D`, `\n` → `%0A`.
pub fn escape_data(s: &str) -> (r: String)
    ensures
        r@ == escape_data_spec(s@),
{
    let mut out = String::new();
    push_escaped_data(&mut out, s);
    out
}

/// `s` escaped as a property value: as [`escape_data`], plus `:` → `%3A` and
/// `,` → `%2C`.
pub fn escape_property(s: &str) -> (r: String)
    ensures
        r@ == escape_property_spec(s@),
{
    let mut out = String::new();
    push_escaped_property(&mut out, s);
    out
}

// ---------------------------------------------------------------------------
// Laws
// ---------------------------------------------------------------------------

/// Escaping command data distributes over concatenation.
pub proof fn lemma_escape_data_concat(a: Seq<char>, b: Seq<char>)
    ensures
        escape_data_spec(a + b) == escape_data_spec(a) + escape_data_spec(b),
    decreases b.len(),
{
    if b.len() == 0 {
        assert(a + b =~= a);
    } else {
        lemma_escape_data_concat(a, b.drop_last());
        assert((a + b).drop_last() =~= a + b.drop_last());
        assert((a + b).last() == b.last());
    }
}

/// Escaping a property value distributes over concatenation.
pub proof fn lemma_escape_property_concat(a: Seq<char>, b: Seq<char>)
    ensures
        escape_property_spec(a + b) == escape_property_spec(a) + escape_property_spec(b),
    decreases b.len(),
{
    if b.len() == 0 {
        assert(a + b =~= a);
    } else {
        lemma_escape_property_concat(a, b.drop_last());
        assert((a + b).drop_last() =~= a + b.drop_last());
        assert((a + b).last() == b.last());
    }
}

proof fn lemma_unescape_char(c: char, code: Seq<char>, rest: Seq<char>)
    requires
        code == escape_property_char(c) || code == escape_data_char(c),
    ensures
        unescape_spec(code + rest) == seq![c] + unescape_spec(rest),
{
    let x = code + rest;
    if code.len() == 3 {
        assert(x.skip(3) =~= rest);
        assert(x[0] == '%');
    } else {
        assert(x.drop_first() =~= rest);
    }
}

/// Data escaping loses nothing: reading escaped data back gives the
/// original text.
pub proof fn law_escape_data_roundtrip(s: Seq<char>)
    ensures
        unescape_spec(escape_data_spec(s)) == s,
    decreases s.len(),
{
    if s.len() > 0 {
        let rest = s.drop_first();
        assert(s =~= seq![s[0]] + rest);
        lemma_escape_data_concat(seq![s[0]], rest);
        let one = seq![s[0]];
        assert(one.drop_last() =~= Seq::<char>::empty());
        assert(escape_data_spec(one.drop_last()) == Seq::<char>::empty());
        assert(one.last() == s[0]);
        assert(escape_data_spec(one) =~= escape_data_char(s[0]));
        lemma_unescape_char(s[0], escape_data_char(s[0]), escape_data_spec(rest));
        law_escape_data_roundtrip(rest);
        assert(seq![s[0]] + rest =~= s);
    }
}

/// Property escaping loses nothing: reading an escaped value back gives the
/// original text.
pub proof fn law_escape_property_roundtrip(s: Seq<char>)
    ensures
        unescape_spec(escape_property_spec(s)) == s,
    decreases s.len(),
{
    if s.len() > 0 {
        let rest = s.drop_first();
        assert(s =~= seq![s[0]] + rest);
        lemma_escape_property_concat(seq![s[0]], rest);
        let one = seq![s[0]];
        assert(one.drop_last() =~= Seq::<char>::empty());
        assert(escape_property_spec(one.drop_last()) == Seq::<char>::empty());
        assert(one.last() == s[0]);
        assert(escape_property_spec(one) =~= escape_property_char(s[0]));
        lemma_unescape_char(s[0], escape_property_char(s[0]), escape_property_spec(rest));
        law_escape_property_roundtrip(rest);
        assert(seq![s[0]] + rest =~= s);
    }
}

/// Escaped data never holds a line break, so a message cannot start a new
/// command line.
pub proof fn law_escape_data_single_line(s: Seq<char>)
    ensures
        single_line(escape_data_spec(s)),
    decreases s.len(),
{
    if s.len() > 0 {
        law_escape_data_single_line(s.drop_last());
        let a = escape_data_spec(s.drop_last());
        let b = escape_data_char(s.last());
        assert forall|i: int| 0 <= i < (a + b).len() implies #[trigger] (a + b)[i] != '\r' && (a
            + b)[i] != '\n' by {
            if i >= a.len() {
                assert((a + b)[i] == b[i - a.len()]);
            }
        }
    }
}

/// An escaped property value holds no line break, no `:` and no `,`, so it
/// can neither end the property list nor start a new command line.
pub proof fn law_escape_property_delimiter_free(s: Seq<char>)
    ensures
        forall|i: int|
            0 <= i < escape_property_spec(s).len() ==> {
                let c = #[trigger] escape_property_spec(s)[i];
                c != '\r' && c != '\n' && c != ':' && c != ','
            },
    decreases s.len(),
{
    if s.len() > 0 {
        law_escape_property_delimiter_free(s.drop_last());
        let a = escape_property_spec(s.drop_last());
        let b = escape_property_char(s.last());
        assert forall|i: int| 0 <= i < (a + b).len() implies {
            let c = #[trigger] (a + b)[i];
            c != '\r' && c != '\n' && c != ':' && c != ','
        } by {
            if i >= a.len() {
                assert((a + b)[i] == b[i - a.len()]);
            } else {
                assert((a + b)[i] == a[i]);
            }
        }
    }
}

/// Text without `%`, `\r` or `\n` is written unchanged as command data.
pub proof fn law_escape_data_plain(s: Seq<char>)
    requires
        forall|i: int| 0 <= i < s.len() ==> #[trigger] s[i] != '%' && s[i] != '\r' && s[i] != '\n',
    ensures
        escape_data_spec(s) == s,
    decreases s.len(),
{
    if s.len() > 0 {
        law_escape_data_plain(s.drop_last());
        assert(s.drop_last().push(s.last()) =~= s);
    }
}

proof fn lemma_render_properties_single_line(ps: Seq<(Seq<char>, Seq<char>)>)
    requires
        forall|i: int| 0 <= i < ps.len() ==> single_line(#[trigger] ps[i].0),
    ensures
        single_line(render_properties(ps)),
    decreases ps.len(),
{
    if ps.len() > 0 {
        let p = ps.last();
        assert(single_line(ps[ps.len() - 1].0));
        law_escape_property_delimiter_free(p.1);
        let r = render_property(p);
        assert(single_line(r)) by {
            assert forall|i: int| 0 <= i < r.len() implies #[trigger] r[i] != '\r' && r[i]
                != '\n' by {
                if i < p.0.len() {
                    assert(r[i] == p.0[i]);
                } else if i == p.0.len() {
                    assert(r[i] == '=');
                } else {
                    assert(r[i] == escape_property_spec(p.1)[i - p.0.len() - 1]);
                }
            }
        }
        if ps.len() > 1 {
            let init = ps.drop_last();
            assert forall|i: int| 0 <= i < init.len() implies single_line(#[trigger] init[i].0) by {
                assert(init[i] == ps[i]);
            }
            lemma_render_properties_single_line(init);
            let a = render_properties(init);
            let x = a + seq![','] + r;
            assert forall|i: int| 0 <= i < x.len() implies #[trigger] x[i] != '\r' && x[i]
                != '\n' by {
                if i < a.len() {
                    assert(x[i] == a[i]);
                } else if i == a.len() {
                    assert(x[i] == ',');
                } else {
                    assert(x[i] == r[i - a.len() - 1]);
                }
            }
        } else {
            assert(ps[0] == p);
        }
    }
}

/// A command whose name and property keys hold no line break renders as a
/// single line, whatever its property values and message hold.
pub proof fn law_command_single_line(v: CommandView)
    requires
        single_line(v.command),
        forall|i: int| 0 <= i < v.properties.len() ==> single_line(#[trigger] v.properties[i].0),
    ensures
        single_line(render_command(v)),
{
    lemma_render_properties_single_line(v.properties);
    law_escape_data_single_line(v.message);
    let colons = seq![':', ':'];
    let mid: Seq<char> = if v.properties.len() > 0 {
        seq![' '] + render_properties(v.properties)
    } else {
        Seq::empty()
    };
    assert(single_line(mid)) by {
        if v.properties.len() > 0 {
            let rp = render_properties(v.properties);
            assert forall|i: int| 0 <= i < mid.len() implies #[trigger] mid[i] != '\r' && mid[i]
                != '\n' by {
                if i > 0 {
                    assert(mid[i] == rp[i - 1]);
                }
            }
        }
    }
    let parts = colons + v.command + mid + colons + escape_data_spec(v.message);
    assert(parts == render_command(v));
    lemma_single_line_concat(colons, v.command);
    lemma_single_line_concat(colons + v.command, mid);
    lemma_single_line_concat(colons + v.command + mid, colons);
    lemma_single_line_concat(colons + v.command + mid + colons, escape_data_spec(v.message));
}

/// Concatenating single-line text gives single-line text.
pub proof fn lemma_single_line_concat(a: Seq<char>, b: Seq<char>)
    requires
        single_line(a),
        single_line(b),
    ensures
        single_line(a + b),
{
    assert forall|i: int| 0 <= i < (a + b).len() implies #[trigger] (a + b)[i] != '\r' && (a
        + b)[i] != '\n' by {
        if i < a.len() {
            assert((a + b)[i] == a[i]);
        } else {
            assert((a + b)[i] == b[i - a.len()]);
        }
    }
}

} // verus!
