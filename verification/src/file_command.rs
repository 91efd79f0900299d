//! Environment-file commands (`GITHUB_OUTPUT`, `GITHUB_ENV`, ...).
//!
//! A key/value pair is written as a heredoc, `key<<DELIM\nvalue\nDELIM`,
//! with a random delimiter. The delimiter must not occur in the key or the
//! value: otherwise a crafted value could end the heredoc early and inject
//! further variables (the CVE-2020-15228 class of bug).

use std::collections::hash_map::RandomState;
use std::hash::BuildHasher;

use vstd::prelude::*;

use crate::command::WorkflowCommand;
use crate::error::Error;
use crate::text::{contains_seq, contains_str, push_char};

verus! {

// ---------------------------------------------------------------------------
// Trusted std calls
// ---------------------------------------------------------------------------

/// Calls `RandomState::new`, which returns a freshly seeded hasher state.
/// Nothing is claimed of its seed.
#[verifier::external_body]
fn new_random_state() -> RandomState {
    RandomState::new()
}

/// Calls `BuildHasher::hash_one` on a `RandomState`. The result depends on
/// the random seed, so nothing is claimed of it.
#[verifier::external_body]
fn random_hash(state: &RandomState, x: u64) -> u64 {
    state.hash_one(x)
}

// ---------------------------------------------------------------------------
// Delimiter tokens
// ---------------------------------------------------------------------------

/// The lowercase hexadecimal digit for `d < 16`.
pub open spec fn hex_char(d: nat) -> char {
    if d < 10 {
        crate::text::digit_char(d)
    } else if d == 10 {
        'a'
    } else if d == 11 {
        'b'
    } else if d == 12 {
        'c'
    } else if d == 13 {
        'd'
    } else if d == 14 {
        'e'
    } else {
        'f'
    }
}

/// The last `k` hexadecimal digits of `n`, most significant first.
pub open spec fn hex_spec(n: nat, k: nat) -> Seq<char>
    decreases k,
{
    if k == 0 {
        Seq::empty()
    } else {
        hex_spec(n / 16, (k - 1) as nat).push(hex_char(n % 16))
    }
}

/// The prefix of every delimiter token.
pub open spec fn token_prefix() -> Seq<char> {
    seq!['g', 'h', 'a', 'd', 'e', 'l', 'i', 'm', 'i', 't', 'e', 'r', '_']
}

/// The token made from two random words: `ghadelimiter_` followed by 32
/// lowercase hexadecimal digits.
pub open spec fn token_spec(a: u64, b: u64) -> Seq<char> {
    token_prefix() + hex_spec(a as nat, 16) + hex_spec(b as nat, 16)
}

fn hex_digit(d: u64) -> (c: char)
    requires
        d < 16,
    ensures
        c == hex_char(d as nat),
{
    if d == 0 {
        '0'
    } else if d == 1 {
        '1'
    } else if d == 2 {
        '2'
    } else if d == 3 {
        '3'
    } else if d == 4 {
        '4'
    } else if d == 5 {
        '5'
    } else if d == 6 {
        '6'
    } else if d == 7 {
        '7'
    } else if d == 8 {
        '8'
    } else if d == 9 {
        '9'
    } else if d == 10 {
        'a'
    } else if d == 11 {
        'b'
    } else if d == 12 {
        'c'
    } else if d == 13 {
        'd'
    } else if d == 14 {
        'e'
    } else {
        'f'
    }
}

/// Append the 16 hexadecimal digits of `n` to `out`.
fn push_hex16(out: &mut String, n: u64)
    ensures
        final(out)@ == old(out)@ + hex_spec(n as nat, 16),
{
    let mut digits: Vec<char> = Vec::new();
    let mut x: u64 = n;
    let mut k: usize = 0;
    while k < 16
        invariant
            k <= 16,
            hex_spec(n as nat, 16) == hex_spec(x as nat, (16 - k) as nat) + digits@,
        decreases 16 - k,
    {
        let d = hex_digit(x % 16);
        proof {
            let rest = (16 - k - 1) as nat;
            assert(hex_spec(x as nat, (16 - k) as nat) == hex_spec((x / 16) as nat, rest).push(
                hex_char((x % 16) as nat),
            ));
            assert(hex_spec((x / 16) as nat, rest).push(hex_char((x % 16) as nat)) + digits@
                =~= hex_spec((x / 16) as nat, rest) + seq![d].add(digits@));
        }
        digits.insert(0, d);
        x = x / 16;
        k = k + 1;
    }
    proof {
        assert(hex_spec(x as nat, 0) =~= Seq::<char>::empty());
        assert(hex_spec(n as nat, 16) =~= digits@);
    }
    let len: usize = digits.len();
    crate::text::push_chars(out, &digits, 0, len);
    proof {
        assert(digits@.subrange(0, len as int) =~= digits@);
    }
}

/// The delimiter token made from the two words `a` and `b`.
pub fn token_from(a: u64, b: u64) -> (r: String)
    ensures
        r@ == token_spec(a, b),
{
    let mut out = String::new();
    for c in iter: "ghadelimiter_".chars()
        invariant
            out@ == iter.seq().take(iter.index() as int),
    {
        proof {
            assert(iter.seq().take(iter.index() + 1) =~= iter.seq().take(iter.index() as int).push(c));
        }
        push_char(&mut out, c);
    }
    proof {
        reveal_strlit("ghadelimiter_");
        assert(out@ =~= token_prefix());
    }
    push_hex16(&mut out, a);
    push_hex16(&mut out, b);
    out
}

/// A fresh random token, `ghadelimiter_` followed by 32 hexadecimal digits
/// drawn from the process's random hasher seed.
pub fn random_token() -> (r: String)
    ensures
        exists|a: u64, b: u64| r@ == #[trigger] token_spec(a, b),
{
    let state = new_random_state();
    let a: u64 = random_hash(&state, 0);
    let b: u64 = random_hash(&state, 1);
    let r = token_from(a, b);
    assert(r@ == token_spec(a, b));
    r
}

// ---------------------------------------------------------------------------
// Heredoc messages
// ---------------------------------------------------------------------------

/// `key<<delimiter\nvalue\ndelimiter`.
pub open spec fn heredoc_spec(key: Seq<char>, delimiter: Seq<char>, value: Seq<char>) -> Seq<
    char,
> {
    key + seq!['<', '<'] + delimiter + seq!['\n'] + value + seq!['\n'] + delimiter
}

/// Whether `delimiter` occurs in the key or in the value.
pub open spec fn collides(key: Seq<char>, value: Seq<char>, delimiter: Seq<char>) -> bool {
    contains_seq(key, delimiter) || contains_seq(value, delimiter)
}

/// What [`key_value_message_with`] returns for these arguments.
pub open spec fn key_value_result(
    key: Seq<char>,
    value: Seq<char>,
    delimiter: Seq<char>,
    r: Result<String, Error>,
) -> bool {
    match r {
        Ok(m) => !collides(key, value, delimiter) && m@ == heredoc_spec(key, delimiter, value),
        Err(e) => collides(key, value, delimiter) && (e matches Error::DelimiterCollision(k)
            && k@ == key),
    }
}

/// The heredoc for `key` and `value` with the given delimiter, or
/// [`Error::DelimiterCollision`] when the delimiter occurs in either.
pub fn key_value_message_with(key: &str, value: &str, delimiter: &str) -> (r: Result<
    String,
    Error,
>)
    ensures
        key_value_result(key@, value@, delimiter@, r),
{
    if contains_str(key, delimiter) || contains_str(value, delimiter) {
        return Err(Error::DelimiterCollision(String::from_str(key)));
    }
    let mut out = String::from_str(key);
    push_char(&mut out, '<');
    push_char(&mut out, '<');
    out.append(delimiter);
    push_char(&mut out, '\n');
    out.append(value);
    push_char(&mut out, '\n');
    out.append(delimiter);
    proof {
        assert(out@ =~= heredoc_spec(key@, delimiter@, value@));
    }
    Ok(out)
}

/// A heredoc message fails exactly when the delimiter occurs in the key or
/// in the value, and for no other reason (an empty value included); when it
/// succeeds it is `key<<delimiter`, a line break, the value, a line break
/// and the delimiter.
pub proof fn law_heredoc_fails_only_on_collision(
    key: Seq<char>,
    value: Seq<char>,
    delimiter: Seq<char>,
    r: Result<String, Error>,
)
    requires
        key_value_result(key, value, delimiter, r),
    ensures
        r is Err <==> {
            ||| exists|i: int|
                0 <= i && i + delimiter.len() <= key.len() && #[trigger] key.subrange(
                    i,
                    i + delimiter.len(),
                ) == delimiter
            ||| exists|i: int|
                0 <= i && i + delimiter.len() <= value.len() && #[trigger] value.subrange(
                    i,
                    i + delimiter.len(),
                ) == delimiter
        },
        r matches Ok(m) ==> m@ == key + seq!['<', '<'] + delimiter + seq!['\n'] + value + seq!['\n']
            + delimiter,
        r matches Err(e) ==> e matches Error::DelimiterCollision(k) && k@ == key,
{
}

/// The heredoc for `key` and `value` with a fresh random delimiter.
pub fn key_value_message(key: &str, value: &str) -> (r: Result<String, Error>)
    ensures
        exists|a: u64, b: u64| #[trigger] key_value_result(key@, value@, token_spec(a, b), r),
{
    let delimiter = random_token();
    let r = key_value_message_with(key, value, delimiter.as_str());
    let ghost d = delimiter@;
    proof {
        let (a, b) = choose|a: u64, b: u64| d == #[trigger] token_spec(a, b);
        assert(key_value_result(key@, value@, token_spec(a, b), r));
    }
    r
}

/// Whether the first line break followed by `delimiter` in `body` begins at
/// position `p`: that is where a reader of the heredoc stops.
pub open spec fn first_terminator(body: Seq<char>, delimiter: Seq<char>, p: int) -> bool {
    let t = seq!['\n'] + delimiter;
    &&& 0 <= p && p + t.len() <= body.len()
    &&& body.subrange(p, p + t.len()) == t
    &&& forall|q: int|
        0 <= q < p && q + t.len() <= body.len() ==> #[trigger] body.subrange(q, q + t.len()) != t
}

/// A heredoc whose delimiter holds no line break and occurs in neither the
/// key nor the value reads back as exactly the value: after the header
/// `key<<delimiter` and its line break, the first line break followed by the
/// delimiter comes right after the value, so no value can end the heredoc
/// early.
pub proof fn law_heredoc_reads_back(key: Seq<char>, delimiter: Seq<char>, value: Seq<char>)
    requires
        !collides(key, value, delimiter),
        !delimiter.contains('\n'),
    ensures
        ({
            let header = key + seq!['<', '<'] + delimiter + seq!['\n'];
            let m = heredoc_spec(key, delimiter, value);
            let body = m.skip(header.len() as int);
            &&& m == header + body
            &&& first_terminator(body, delimiter, value.len() as int)
            &&& body.take(value.len() as int) == value
        }),
{
    let header = key + seq!['<', '<'] + delimiter + seq!['\n'];
    let m = heredoc_spec(key, delimiter, value);
    let t = seq!['\n'] + delimiter;
    let body = value + t;
    assert(m =~= header + body);
    assert(m.skip(header.len() as int) =~= body);
    assert(body.take(value.len() as int) =~= value);
    assert(body.subrange(value.len() as int, (value.len() + t.len()) as int) =~= t);
    if delimiter.len() == 0 {
        assert(value.subrange(0, 0 + delimiter.len() as int) =~= delimiter);
        assert(contains_seq(value, delimiter));
    }
    assert forall|q: int|
        0 <= q < value.len() && q + t.len() <= body.len() implies #[trigger] body.subrange(
        q,
        q + t.len(),
    ) != t by {
        if body.subrange(q, q + t.len()) == t {
            let dl = delimiter.len() as int;
            if q + 1 + dl <= value.len() {
                assert forall|j: int| 0 <= j < dl implies value.subrange(q + 1, q + 1 + dl)[j]
                    == delimiter[j] by {
                    assert(body.subrange(q, q + t.len())[j + 1] == t[j + 1]);
                }
                assert(value.subrange(q + 1, q + 1 + dl) =~= delimiter);
                assert(contains_seq(value, delimiter));
            } else {
                let j = value.len() - q - 1;
                assert(0 <= j < dl);
                assert(body.subrange(q, q + t.len())[j + 1] == t[j + 1]);
                assert(body[value.len() as int] == '\n');
                assert(delimiter[j] == '\n');
                assert(delimiter.contains('\n'));
            }
        }
    }
}

/// Whether `c` is a letter, digit or `_`: no line break, no `:` and no `%`.
pub open spec fn plain_char(c: char) -> bool {
    ('a' <= c && c <= 'z') || ('0' <= c && c <= '9') || c == '_'
}

/// The hexadecimal digits of a number are plain characters.
proof fn lemma_hex_plain(n: nat, k: nat)
    ensures
        forall|i: int| 0 <= i < hex_spec(n, k).len() ==> plain_char(#[trigger] hex_spec(n, k)[i]),
    decreases k,
{
    if k > 0 {
        lemma_hex_plain(n / 16, (k - 1) as nat);
        let h = hex_spec(n, k);
        assert forall|i: int| 0 <= i < h.len() implies plain_char(#[trigger] h[i]) by {
            if i < h.len() - 1 {
                assert(h[i] == hex_spec(n / 16, (k - 1) as nat)[i]);
            }
        }
    }
}

/// A delimiter token is made of plain characters only: it holds no line
/// break, no `:` and no `%`, so it needs no escaping anywhere in a command
/// line.
pub proof fn law_token_plain(a: u64, b: u64)
    ensures
        forall|i: int|
            0 <= i < token_spec(a, b).len() ==> plain_char(#[trigger] token_spec(a, b)[i]),
        token_spec(a, b).len() == 45,
{
    let d = token_spec(a, b);
    let p = token_prefix();
    let x = hex_spec(a as nat, 16);
    let y = hex_spec(b as nat, 16);
    lemma_hex_plain(a as nat, 16);
    lemma_hex_plain(b as nat, 16);
    lemma_hex_len(a as nat, 16);
    lemma_hex_len(b as nat, 16);
    assert forall|i: int| 0 <= i < d.len() implies plain_char(#[trigger] d[i]) by {
        if i < p.len() {
            assert(d[i] == p[i]);
        } else if i < p.len() + x.len() {
            assert(d[i] == x[i - p.len()]);
        } else {
            assert(d[i] == y[i - p.len() - x.len()]);
        }
    }
}

proof fn lemma_hex_len(n: nat, k: nat)
    ensures
        hex_spec(n, k).len() == k,
    decreases k,
{
    if k > 0 {
        lemma_hex_len(n / 16, (k - 1) as nat);
    }
}

/// A delimiter token holds no line break, so a heredoc written with one
/// reads back as its value whenever the token occurs in neither the key nor
/// the value.
pub proof fn law_token_reads_back(a: u64, b: u64, key: Seq<char>, value: Seq<char>)
    requires
        !collides(key, value, token_spec(a, b)),
    ensures
        !token_spec(a, b).contains('\n'),
        ({
            let d = token_spec(a, b);
            let header = key + seq!['<', '<'] + d + seq!['\n'];
            let m = heredoc_spec(key, d, value);
            let body = m.skip(header.len() as int);
            &&& m == header + body
            &&& first_terminator(body, d, value.len() as int)
            &&& body.take(value.len() as int) == value
        }),
{
    let d = token_spec(a, b);
    law_token_plain(a, b);
    assert forall|i: int| 0 <= i < d.len() implies d[i] != '\n' by {
        assert(plain_char(d[i]));
    }
    law_heredoc_reads_back(key, d, value);
}

// ---------------------------------------------------------------------------
// File commands
// ---------------------------------------------------------------------------

/// A line for an environment file, and the deprecated stdout command that
/// stands in for it when the file is not available, where GitHub still
/// honours one.
///
/// The caller appends `message` and a newline to the file named by the
/// environment variable `file_var`; when that variable is unset it issues
/// `fallback`, if there is one, and otherwise does nothing. Only step
/// outputs (`::set-output::`) and saved state (`::save-state::`) have a
/// fallback: the runner no longer honours `::set-env::` and `::add-path::`.
#[derive(Debug)]
pub struct FileCommand {
    pub file_var: String,
    pub message: String,
    pub fallback: Option<WorkflowCommand>,
}

} // verus!
