//! Typed access to action inputs.
//!
//! An action input named `foo-bar` is passed to the process as the environment
//! variable `INPUT_FOO-BAR`: the rule is `INPUT_` + uppercased name with
//! spaces replaced by underscores (hyphens are **kept**). This matches
//! `@actions/core`'s `getInput`.

use vstd::prelude::*;

use crate::command::{simple_command, WorkflowCommand};
use crate::env::{env_var, Environment};
use crate::error::Error;
use crate::log;
use crate::text::{is_ws, opt_view, push_char, trim, trim_chars, trim_end, trim_spec, trim_start};

verus! {

// ---------------------------------------------------------------------------
// Trusted std call
// ---------------------------------------------------------------------------

/// What `str::to_uppercase` returns for `s`: the Unicode uppercase mapping
/// of every character (a character may map to several, as `ß` to `SS`).
pub uninterp spec fn to_uppercase_spec(s: Seq<char>) -> Seq<char>;

/// Calls `str::to_uppercase`. Claimed: the result depends on `s` alone, and
/// is named [`to_uppercase_spec`]; the Unicode case tables are not restated.
#[verifier::external_body]
fn to_uppercase(s: &str) -> (r: String)
    ensures
        r@ == to_uppercase_spec(s@),
{
    s.to_uppercase()
}

// ---------------------------------------------------------------------------
// Options
// ---------------------------------------------------------------------------

/// Options controlling how an input is read.
#[derive(Debug, Clone, Copy)]
pub struct InputOptions {
    /// Error with [`Error::MissingRequiredInput`] if the input is absent/empty.
    pub required: bool,
    /// Trim leading/trailing whitespace (default `true`, as in `@actions/core`).
    pub trim: bool,
}

impl Default for InputOptions {
    fn default() -> (r: Self)
        ensures
            !r.required,
            r.trim,
    {
        InputOptions { required: false, trim: true }
    }
}

// ---------------------------------------------------------------------------
// Keys
// ---------------------------------------------------------------------------

/// `s` with every space replaced by `_`.
pub open spec fn replace_spaces(s: Seq<char>) -> Seq<char> {
    s.map_values(|c: char| if c == ' ' {
        '_'
    } else {
        c
    })
}

/// `INPUT_` followed by an already uppercased name.
pub open spec fn input_key_spec(upper: Seq<char>) -> Seq<char> {
    seq!['I', 'N', 'P', 'U', 'T', '_'] + upper
}

/// The environment-variable key of input `name`.
pub open spec fn input_env_key_spec(name: Seq<char>) -> Seq<char> {
    input_key_spec(to_uppercase_spec(replace_spaces(name)))
}

/// `name` with every ASCII space replaced by `_`.
fn replace_spaces_str(name: &str) -> (r: String)
    ensures
        r@ == replace_spaces(name@),
{
    let mut out = String::new();
    for c in iter: name.chars()
        invariant
            out@ == replace_spaces(iter.seq().take(iter.index() as int)),
            iter.seq() == name@,
    {
        proof {
            assert(replace_spaces(iter.seq().take(iter.index() + 1)) =~= replace_spaces(
                iter.seq().take(iter.index() as int),
            ).push(
                if c == ' ' {
                    '_'
                } else {
                    c
                },
            ));
        }
        if c == ' ' {
            push_char(&mut out, '_');
        } else {
            push_char(&mut out, c);
        }
    }
    proof {
        assert(name@.take(name@.len() as int) =~= name@);
    }
    out
}

/// `INPUT_` followed by `upper`, the uppercased input name.
pub fn input_key_from_upper(upper: &str) -> (r: String)
    ensures
        r@ == input_key_spec(upper@),
{
    let mut out = String::new();
    push_char(&mut out, 'I');
    push_char(&mut out, 'N');
    push_char(&mut out, 'P');
    push_char(&mut out, 'U');
    push_char(&mut out, 'T');
    push_char(&mut out, '_');
    out.append(upper);
    proof {
        assert(out@ =~= input_key_spec(upper@));
    }
    out
}

/// Compute the environment-variable key for an input name:
/// `INPUT_` + `name` uppercased, with ASCII spaces → `_`.
pub fn input_env_key(name: &str) -> (r: String)
    ensures
        r@ == input_env_key_spec(name@),
{
    let replaced = replace_spaces_str(name);
    let upper = to_uppercase(replaced.as_str());
    input_key_from_upper(upper.as_str())
}

// ---------------------------------------------------------------------------
// Reading inputs
// ---------------------------------------------------------------------------

/// The raw (untrimmed) value of input `name`, if it is set.
pub open spec fn raw_input(env: Map<Seq<char>, Seq<char>>, name: Seq<char>) -> Option<Seq<char>> {
    env_var(env, input_env_key_spec(name))
}

/// The value of input `name`: empty when unset, trimmed when `trim`.
pub open spec fn input_value(env: Map<Seq<char>, Seq<char>>, name: Seq<char>, trim: bool) -> Seq<
    char,
> {
    let v = match raw_input(env, name) {
        Some(v) => v,
        None => Seq::empty(),
    };
    if trim {
        trim_spec(v)
    } else {
        v
    }
}

fn raw(env: &Environment, name: &str) -> (r: Option<String>)
    ensures
        opt_view(r) == raw_input(env@, name@),
{
    let key = input_env_key(name);
    env.get(key.as_str())
}

/// Read an input with explicit [`InputOptions`].
///
/// Fails with [`Error::MissingRequiredInput`] exactly when `options.required`
/// and the input is absent or (after optional trimming) empty.
pub fn input_with(env: &Environment, name: &str, options: InputOptions) -> (r: Result<
    String,
    Error,
>)
    ensures
        match r {
            Ok(v) => v@ == input_value(env@, name@, options.trim) && !(options.required
                && v@.len() == 0),
            Err(e) => options.required && input_value(env@, name@, options.trim).len() == 0 && (
            e matches Error::MissingRequiredInput(n) && n@ == name@),
        },
{
    let value = match raw(env, name) {
        Some(v) => v,
        None => String::new(),
    };
    let value = if options.trim {
        trim(value.as_str())
    } else {
        value
    };
    if options.required && value.as_str().is_empty() {
        return Err(Error::MissingRequiredInput(String::from_str(name)));
    }
    Ok(value)
}

/// Read an optional input, trimmed. Returns `""` when unset.
pub fn input(env: &Environment, name: &str) -> (r: String)
    ensures
        r@ == input_value(env@, name@, true),
{
    match input_with(env, name, InputOptions { required: false, trim: true }) {
        Ok(v) => v,
        Err(_) => String::new(),
    }
}

/// Read a required input, trimmed.
///
/// Fails with [`Error::MissingRequiredInput`] exactly when it is absent or
/// empty after trimming.
pub fn input_required(env: &Environment, name: &str) -> (r: Result<String, Error>)
    ensures
        match r {
            Ok(v) => v@ == input_value(env@, name@, true) && v@.len() > 0,
            Err(e) => input_value(env@, name@, true).len() == 0 && (
            e matches Error::MissingRequiredInput(n) && n@ == name@),
        },
{
    input_with(env, name, InputOptions { required: true, trim: true })
}

/// The outcome of reading input `name` as a typed value, once the parse of
/// its required, trimmed value has come back as `parsed` (a parse error
/// rendered as text): the parsed value, or [`Error::ParseInput`] for `name`
/// with that text as the reason.
pub fn parse_input<T>(name: &str, parsed: Result<T, String>) -> (r: Result<T, Error>)
    ensures
        match parsed {
            Ok(v) => r matches Ok(w) && w == v,
            Err(reason) => r matches Err(e) && e matches Error::ParseInput { name: n, reason: m }
                && n@ == name@ && m@ == reason@,
        },
{
    match parsed {
        Ok(v) => Ok(v),
        Err(reason) => Err(Error::ParseInput { name: String::from_str(name), reason }),
    }
}

// ---------------------------------------------------------------------------
// Booleans
// ---------------------------------------------------------------------------

/// The YAML 1.2 core-schema spellings of `true`.
pub open spec fn yaml_true(v: Seq<char>) -> bool {
    v == "true"@ || v == "True"@ || v == "TRUE"@
}

/// The YAML 1.2 core-schema spellings of `false`.
pub open spec fn yaml_false(v: Seq<char>) -> bool {
    v == "false"@ || v == "False"@ || v == "FALSE"@
}

/// What [`parse_bool`] returns for input `name` with value `value`.
pub open spec fn bool_result(name: Seq<char>, value: Seq<char>, r: Result<bool, Error>) -> bool {
    match r {
        Ok(b) => (yaml_true(value) || yaml_false(value)) && (b <==> yaml_true(value)),
        Err(e) => !yaml_true(value) && !yaml_false(value) && (e matches Error::InvalidBool {
            name: n,
            value: v,
        } && n@ == name && v@ == value),
    }
}

/// Exactly six spellings parse as booleans: `true`, `True` and `TRUE` as
/// true, `false`, `False` and `FALSE` as false. Every other value, such as
/// `on`, `yes`, `1` or the empty string, is refused as
/// [`Error::InvalidBool`] naming the input and the value.
pub proof fn law_bool_six_spellings(name: Seq<char>, value: Seq<char>, r: Result<bool, Error>)
    requires
        bool_result(name, value, r),
    ensures
        r == Ok::<bool, Error>(true) <==> {
            ||| value == seq!['t', 'r', 'u', 'e']
            ||| value == seq!['T', 'r', 'u', 'e']
            ||| value == seq!['T', 'R', 'U', 'E']
        },
        r == Ok::<bool, Error>(false) <==> {
            ||| value == seq!['f', 'a', 'l', 's', 'e']
            ||| value == seq!['F', 'a', 'l', 's', 'e']
            ||| value == seq!['F', 'A', 'L', 'S', 'E']
        },
        r is Err ==> (r matches Err(Error::InvalidBool { name: n, value: v }) && n@ == name && v@
            == value),
{
    reveal_strlit("true");
    reveal_strlit("True");
    reveal_strlit("TRUE");
    reveal_strlit("false");
    reveal_strlit("False");
    reveal_strlit("FALSE");
    assert("true"@ =~= seq!['t', 'r', 'u', 'e']);
    assert("True"@ =~= seq!['T', 'r', 'u', 'e']);
    assert("TRUE"@ =~= seq!['T', 'R', 'U', 'E']);
    assert("false"@ =~= seq!['f', 'a', 'l', 's', 'e']);
    assert("False"@ =~= seq!['F', 'a', 'l', 's', 'e']);
    assert("FALSE"@ =~= seq!['F', 'A', 'L', 'S', 'E']);
}

/// Strict YAML 1.2 core-schema boolean parse of `value` for input `name`:
/// `true|True|TRUE` and `false|False|FALSE`, and nothing else.
pub fn parse_bool(name: &str, value: &str) -> (r: Result<bool, Error>)
    ensures
        bool_result(name@, value@, r),
{
    if crate::text::str_eq(value, "true") || crate::text::str_eq(value, "True")
        || crate::text::str_eq(value, "TRUE") {
        Ok(true)
    } else if crate::text::str_eq(value, "false") || crate::text::str_eq(value, "False")
        || crate::text::str_eq(value, "FALSE") {
        Ok(false)
    } else {
        Err(Error::InvalidBool { name: String::from_str(name), value: String::from_str(value) })
    }
}

/// Read a boolean input using the strict YAML 1.2 core schema
/// (`true|True|TRUE|false|False|FALSE`), after trimming. Any other value,
/// including an absent or empty one, is [`Error::InvalidBool`] (matching
/// `@actions/core`'s `getBooleanInput`).
pub fn bool_input(env: &Environment, name: &str) -> (r: Result<bool, Error>)
    ensures
        bool_result(name@, input_value(env@, name@, true), r),
{
    let value = input(env, name);
    parse_bool(name, value.as_str())
}

// ---------------------------------------------------------------------------
// Multiline inputs
// ---------------------------------------------------------------------------

/// The pieces of `s` between `\n` separators (`str::split('\n')`): always at
/// least one, possibly empty.
pub open spec fn split_lines(s: Seq<char>) -> Seq<Seq<char>>
    decreases s.len(),
{
    if s.len() == 0 {
        seq![Seq::empty()]
    } else {
        let r = split_lines(s.drop_last());
        if s.last() == '\n' {
            r.push(Seq::empty())
        } else {
            r.update(r.len() - 1, r.last().push(s.last()))
        }
    }
}

/// The trimmed lines, with empty ones dropped.
pub open spec fn keep_trimmed(lines: Seq<Seq<char>>) -> Seq<Seq<char>>
    decreases lines.len(),
{
    if lines.len() == 0 {
        Seq::empty()
    } else {
        let rest = keep_trimmed(lines.drop_last());
        let t = trim_spec(lines.last());
        if t.len() > 0 {
            rest.push(t)
        } else {
            rest
        }
    }
}

/// The items of a multiline value.
pub open spec fn multiline_spec(s: Seq<char>) -> Seq<Seq<char>> {
    keep_trimmed(split_lines(s))
}

/// The views of a list of strings.
pub open spec fn strings_view(v: Seq<String>) -> Seq<Seq<char>> {
    v.map_values(|s: String| s@)
}

proof fn lemma_split_lines_len(s: Seq<char>)
    ensures
        split_lines(s).len() >= 1,
    decreases s.len(),
{
    if s.len() > 0 {
        lemma_split_lines_len(s.drop_last());
    }
}

/// Trim `line` and push it onto `out` unless it is empty.
fn push_trimmed(out: &mut Vec<String>, line: &Vec<char>)
    ensures
        strings_view(final(out)@) == (if trim_spec(line@).len() > 0 {
            strings_view(old(out)@).push(trim_spec(line@))
        } else {
            strings_view(old(out)@)
        }),
{
    let t = trim_chars(line);
    if !t.as_str().is_empty() {
        let ghost before = out@;
        out.push(t);
        proof {
            assert(strings_view(out@) =~= strings_view(before).push(trim_spec(line@)));
        }
    }
}

/// Split a multiline value on `\n`, trim each line and drop the empty ones.
pub fn split_multiline(value: &str) -> (r: Vec<String>)
    ensures
        strings_view(r@) == multiline_spec(value@),
{
    let mut out: Vec<String> = Vec::new();
    let mut cur: Vec<char> = Vec::new();
    proof {
        assert(value@.take(0) =~= Seq::<char>::empty());
        assert(split_lines(Seq::<char>::empty()).drop_last() =~= Seq::<Seq<char>>::empty());
        assert(strings_view(out@) =~= Seq::<Seq<char>>::empty());
    }
    for c in iter: value.chars()
        invariant
            iter.seq() == value@,
            cur@ == split_lines(value@.take(iter.index() as int)).last(),
            strings_view(out@) == keep_trimmed(
                split_lines(value@.take(iter.index() as int)).drop_last(),
            ),
    {
        let ghost i = iter.index();
        let ghost before = value@.take(i as int);
        let ghost after = value@.take(i + 1);
        proof {
            assert(after.drop_last() =~= before);
            assert(after.last() == c);
            lemma_split_lines_len(before);
        }
        if c == '\n' {
            push_trimmed(&mut out, &cur);
            cur = Vec::new();
            proof {
                let l = split_lines(before);
                assert(split_lines(after) == l.push(Seq::empty()));
                assert(l.push(Seq::<char>::empty()).drop_last() =~= l);
                assert(l.drop_last().push(l.last()) =~= l);
                assert(cur@ =~= Seq::<char>::empty());
            }
        } else {
            cur.push(c);
            proof {
                let l = split_lines(before);
                let l2 = l.update(l.len() - 1, l.last().push(c));
                assert(split_lines(after) == l2);
                assert(l2.drop_last() =~= l.drop_last());
            }
        }
    }
    proof {
        assert(value@.take(value@.len() as int) =~= value@);
        let l = split_lines(value@);
        lemma_split_lines_len(value@);
        assert(l.drop_last().push(l.last()) =~= l);
    }
    push_trimmed(&mut out, &cur);
    out
}

/// Read a multiline input: split on `\n`, each line trimmed, empty lines
/// dropped.
pub fn multiline_input(env: &Environment, name: &str) -> (r: Vec<String>)
    ensures
        strings_view(r@) == multiline_spec(input_value(env@, name@, true)),
{
    let value = input(env, name);
    split_multiline(value.as_str())
}

proof fn lemma_split_lines_no_newline(s: Seq<char>)
    ensures
        forall|j: int, k: int|
            0 <= j < split_lines(s).len() && 0 <= k < split_lines(s)[j].len() ==> #[trigger] split_lines(
                s,
            )[j][k] != '\n',
    decreases s.len(),
{
    if s.len() > 0 {
        lemma_split_lines_no_newline(s.drop_last());
        lemma_split_lines_len(s.drop_last());
        let r = split_lines(s.drop_last());
        if s.last() == '\n' {
            let r2 = r.push(Seq::<char>::empty());
            assert forall|j: int, k: int| 0 <= j < r2.len() && 0 <= k < r2[j].len() implies #[trigger] r2[j][k] != '\n' by {
                if j < r.len() {
                    assert(r2[j] == r[j]);
                }
            }
        } else {
            let r2 = r.update(r.len() - 1, r.last().push(s.last()));
            assert forall|j: int, k: int| 0 <= j < r2.len() && 0 <= k < r2[j].len() implies #[trigger] r2[j][k] != '\n' by {
                if j < r.len() - 1 {
                    assert(r2[j] == r[j]);
                } else {
                    assert(r2[j] == r[r.len() - 1].push(s.last()));
                    if k < r[r.len() - 1].len() {
                        assert(r2[j][k] == r[r.len() - 1][k]);
                    }
                }
            }
        }
    }
}

proof fn lemma_trim_start_keeps_chars(x: Seq<char>, c: char)
    requires
        !x.contains(c),
    ensures
        !trim_start(x).contains(c),
        trim_start(x).len() > 0 ==> !is_ws(trim_start(x)[0]),
        trim_start(x).len() > 0 ==> trim_start(x).last() == x.last(),
    decreases x.len(),
{
    if x.len() > 0 && is_ws(x[0]) {
        let d = x.drop_first();
        assert forall|i: int| 0 <= i < d.len() implies d[i] != c by {
            assert(d[i] == x[i + 1]);
        }
        lemma_trim_start_keeps_chars(d, c);
        if trim_start(d).len() > 0 {
            assert(d.len() > 0);
            assert(d.last() == x.last());
        }
    }
}

proof fn lemma_trim_end_keeps_chars(x: Seq<char>, c: char)
    requires
        !x.contains(c),
    ensures
        !trim_end(x).contains(c),
        trim_end(x).len() > 0 ==> !is_ws(trim_end(x).last()),
        trim_end(x).len() > 0 ==> trim_end(x)[0] == x[0],
    decreases x.len(),
{
    if x.len() > 0 && is_ws(x.last()) {
        let d = x.drop_last();
        assert forall|i: int| 0 <= i < d.len() implies d[i] != c by {
            assert(d[i] == x[i]);
        }
        lemma_trim_end_keeps_chars(d, c);
        if trim_end(d).len() > 0 {
            assert(d.len() > 0);
            assert(d[0] == x[0]);
        }
    }
}

/// Lines put back together, with a `\n` between each two.
pub open spec fn join_lines(lines: Seq<Seq<char>>) -> Seq<char>
    decreases lines.len(),
{
    if lines.len() == 0 {
        Seq::empty()
    } else if lines.len() == 1 {
        lines[0]
    } else {
        join_lines(lines.drop_last()) + seq!['\n'] + lines.last()
    }
}

proof fn lemma_join_extend_last(r: Seq<Seq<char>>, c: char)
    requires
        r.len() >= 1,
    ensures
        join_lines(r.update(r.len() - 1, r.last().push(c))) == join_lines(r).push(c),
{
    let r2 = r.update(r.len() - 1, r.last().push(c));
    if r.len() == 1 {
        assert(r2[0] == r[0].push(c));
    } else {
        assert(r2.drop_last() =~= r.drop_last());
        assert(r2.last() == r.last().push(c));
        assert(join_lines(r2) =~= join_lines(r).push(c));
    }
}

/// Splitting on `\n` loses nothing and splits nowhere else: the pieces hold
/// no `\n`, and put back together with `\n` they give the value again.
pub proof fn law_split_lines_rejoin(s: Seq<char>)
    ensures
        join_lines(split_lines(s)) == s,
        forall|j: int| 0 <= j < split_lines(s).len() ==> !(#[trigger] split_lines(s)[j]).contains('\n'),
    decreases s.len(),
{
    lemma_split_lines_no_newline(s);
    let lines = split_lines(s);
    assert forall|j: int| 0 <= j < lines.len() implies !(#[trigger] lines[j]).contains('\n') by {
        if lines[j].contains('\n') {
            let k = choose|k: int| 0 <= k < lines[j].len() && lines[j][k] == '\n';
            assert(split_lines(s)[j][k] != '\n');
        }
    }
    if s.len() > 0 {
        law_split_lines_rejoin(s.drop_last());
        lemma_split_lines_len(s.drop_last());
        let r = split_lines(s.drop_last());
        if s.last() == '\n' {
            let r2 = r.push(Seq::<char>::empty());
            assert(r2.drop_last() =~= r);
            assert(join_lines(r2) =~= s);
        } else {
            lemma_join_extend_last(r, s.last());
            assert(s.drop_last().push(s.last()) =~= s);
        }
    } else {
        assert(lines =~= seq![Seq::<char>::empty()]);
    }
}

/// A value without `\n` is one line: it gives exactly one item, itself
/// trimmed (commas and every other character kept), or none when it is
/// blank.
pub proof fn law_multiline_single_line(s: Seq<char>)
    requires
        !s.contains('\n'),
    ensures
        multiline_spec(s) == (if trim_spec(s).len() > 0 {
            seq![trim_spec(s)]
        } else {
            Seq::<Seq<char>>::empty()
        }),
{
    lemma_split_lines_single(s);
    let l = seq![s];
    assert(l.drop_last() =~= Seq::<Seq<char>>::empty());
    assert(keep_trimmed(l.drop_last()) == Seq::<Seq<char>>::empty());
    assert(l.last() == s);
    if trim_spec(s).len() > 0 {
        assert(Seq::<Seq<char>>::empty().push(trim_spec(s)) =~= seq![trim_spec(s)]);
    }
}

proof fn lemma_split_lines_single(s: Seq<char>)
    requires
        !s.contains('\n'),
    ensures
        split_lines(s) == seq![s],
    decreases s.len(),
{
    if s.len() > 0 {
        let d = s.drop_last();
        assert forall|i: int| 0 <= i < d.len() implies d[i] != '\n' by {
            assert(d[i] == s[i]);
        }
        lemma_split_lines_single(d);
        assert(s.last() == s[s.len() - 1]);
        let r = split_lines(d);
        assert(r.len() == 1 && r[0] == d);
        assert(d.push(s.last()) =~= s);
        assert(r.update(0, d.push(s.last())) =~= seq![s]);
    } else {
        assert(s =~= Seq::<char>::empty());
    }
}

/// Whether a multiline item is clean: not empty, no white space at either
/// end, and no line feed inside.
pub open spec fn clean_item(item: Seq<char>) -> bool {
    &&& item.len() > 0
    &&& !is_ws(item[0])
    &&& !is_ws(item.last())
    &&& !item.contains('\n')
}

proof fn lemma_trim_clean(x: Seq<char>)
    requires
        !x.contains('\n'),
        trim_spec(x).len() > 0,
    ensures
        clean_item(trim_spec(x)),
{
    let t = trim_start(x);
    lemma_trim_start_keeps_chars(x, '\n');
    lemma_trim_end_keeps_chars(t, '\n');
}

proof fn lemma_keep_trimmed_clean(lines: Seq<Seq<char>>)
    requires
        forall|j: int| 0 <= j < lines.len() ==> !(#[trigger] lines[j]).contains('\n'),
    ensures
        forall|i: int| 0 <= i < keep_trimmed(lines).len() ==> clean_item(#[trigger] keep_trimmed(lines)[i]),
    decreases lines.len(),
{
    if lines.len() > 0 {
        let init = lines.drop_last();
        assert forall|j: int| 0 <= j < init.len() implies !(#[trigger] init[j]).contains('\n') by {
            assert(init[j] == lines[j]);
        }
        lemma_keep_trimmed_clean(init);
        let t = trim_spec(lines.last());
        assert(!lines[lines.len() - 1].contains('\n'));
        if t.len() > 0 {
            lemma_trim_clean(lines.last());
            let rest = keep_trimmed(init);
            assert forall|i: int| 0 <= i < rest.push(t).len() implies clean_item(#[trigger] rest.push(t)[i]) by {
                if i < rest.len() {
                    assert(rest.push(t)[i] == rest[i]);
                }
            }
        }
    }
}

/// Every item of a multiline value is clean: not empty, trimmed at both
/// ends, and a single line.
pub proof fn law_multiline_items_clean(s: Seq<char>)
    ensures
        forall|i: int| 0 <= i < multiline_spec(s).len() ==> clean_item(#[trigger] multiline_spec(s)[i]),
{
    let lines = split_lines(s);
    lemma_split_lines_no_newline(s);
    assert forall|j: int| 0 <= j < lines.len() implies !(#[trigger] lines[j]).contains('\n') by {
        if lines[j].contains('\n') {
            let k = choose|k: int| 0 <= k < lines[j].len() && lines[j][k] == '\n';
            assert(split_lines(s)[j][k] != '\n');
        }
    }
    lemma_keep_trimmed_clean(lines);
}

// ---------------------------------------------------------------------------
// Masking
// ---------------------------------------------------------------------------

/// The `::add-mask::` command for the (untrimmed) raw value of input `name`;
/// `None` when the input is unset or empty.
pub fn mask_input(env: &Environment, name: &str) -> (r: Option<WorkflowCommand>)
    ensures
        match raw_input(env@, name@) {
            Some(v) if v.len() > 0 => r matches Some(c) && c@ == simple_command("add-mask"@, v),
            _ => r is None,
        },
{
    match raw(env, name) {
        Some(v) => if v.as_str().is_empty() {
            None
        } else {
            Some(log::mask(v.as_str()))
        },
        None => None,
    }
}

} // verus!
