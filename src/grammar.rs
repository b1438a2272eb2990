//! The commit subject grammar: `kind [ "(" scope ")" ] ": " text`.
//!
//! `kind`, `scope` and `text` are runs of one or more text characters (word
//! characters, space, `-`, `.`, `/` and `\`). The grammar is searched for
//! anywhere in the subject; the leftmost start that parses wins, and at that
//! start each run is as long as possible.
use vstd::prelude::*;

verus! {

/// What `char::is_alphanumeric` answers for a character.
pub uninterp spec fn alphanumeric_of(c: char) -> bool;

/// Relies on std's `char::is_alphanumeric` (alphabetic or numeric in the
/// Unicode sense), used for characters outside ASCII only.
#[verifier::external_body]
fn alphanumeric(c: char) -> (r: bool)
    ensures
        r == alphanumeric_of(c),
{
    c.is_alphanumeric()
}

/// A word character: ASCII letters, digits and `_`, and any other character
/// that is alphanumeric.
pub open spec fn is_word_char(c: char) -> bool {
    if (c as u32) < 128 {
        ('a' <= c && c <= 'z') || ('A' <= c && c <= 'Z') || ('0' <= c && c <= '9') || c == '_'
    } else {
        alphanumeric_of(c)
    }
}

/// A character that may stand in a kind, a scope or the text.
pub open spec fn is_text_char(c: char) -> bool {
    is_word_char(c) || c == ' ' || c == '-' || c == '.' || c == '/' || c == '\\'
}

/// The end of the longest run of text characters that starts at `i`.
pub open spec fn run_end(m: Seq<char>, i: int) -> int
    decreases m.len() - i,
{
    if 0 <= i < m.len() && is_text_char(m[i]) {
        run_end(m, i + 1)
    } else {
        i
    }
}

/// `": "` followed by a text character, at position `p`.
pub open spec fn colon_text_at(m: Seq<char>, p: int) -> bool {
    0 <= p && p + 2 < m.len() && m[p] == ':' && m[p + 1] == ' ' && is_text_char(m[p + 2])
}

/// What may follow a kind that ends at `k`: `Some(None)` for `": " text`,
/// `Some(Some((a, b)))` for a scope at `a..b` and then `": " text`, `None` if
/// neither parses.
pub open spec fn tail_at(m: Seq<char>, k: int) -> Option<Option<(int, int)>> {
    if 0 <= k < m.len() && m[k] == '(' {
        let e = run_end(m, k + 1);
        if e > k + 1 && e < m.len() && m[e] == ')' && colon_text_at(m, e + 1) {
            Some(Some((k + 1, e)))
        } else {
            None
        }
    } else if colon_text_at(m, k) {
        Some(None)
    } else {
        None
    }
}

/// Whether the grammar parses with its kind starting at `s`.
pub open spec fn parses_at(m: Seq<char>, s: int) -> bool {
    0 <= s < m.len() && is_text_char(m[s]) && tail_at(m, run_end(m, s)) is Some
}

/// The kind and the optional scope of the leftmost parse at or after `s`.
pub open spec fn parse_from(m: Seq<char>, s: int) -> Option<(Seq<char>, Option<Seq<char>>)>
    decreases m.len() - s,
{
    if s < 0 || s >= m.len() {
        None
    } else if parses_at(m, s) {
        let k = run_end(m, s);
        let scope = match tail_at(m, k) {
            Some(Some((a, b))) => Some(m.subrange(a, b)),
            _ => None,
        };
        Some((m.subrange(s, k), scope))
    } else {
        parse_from(m, s + 1)
    }
}

/// The kind and the optional scope of a subject, if the grammar parses.
pub open spec fn parse(m: Seq<char>) -> Option<(Seq<char>, Option<Seq<char>>)> {
    parse_from(m, 0)
}

/// A kind and its optional scope, read from a commit subject.
#[derive(Clone, Debug)]
pub struct Subject {
    pub kind: String,
    pub scope: Option<String>,
}

pub open spec fn opt_view(o: Option<String>) -> Option<Seq<char>> {
    match o {
        Some(s) => Some(s@),
        None => None,
    }
}

fn text_char(c: char) -> (r: bool)
    ensures
        r == is_text_char(c),
{
    if (c as u32) < 128 {
        ('a' <= c && c <= 'z') || ('A' <= c && c <= 'Z') || ('0' <= c && c <= '9') || c == '_'
            || c == ' ' || c == '-' || c == '.' || c == '/' || c == '\\'
    } else {
        alphanumeric(c)
    }
}

/// The characters of a string, one by one.
pub fn chars_of(s: &str) -> (r: Vec<char>)
    ensures
        r@ == s@,
{
    let n = s.unicode_len();
    let mut r: Vec<char> = Vec::new();
    let mut i: usize = 0;
    while i < n
        invariant
            n == s@.len(),
            i <= n,
            r@ == s@.subrange(0, i as int),
        decreases n - i,
    {
        r.push(s.get_char(i));
        i = i + 1;
    }
    assert(r@ =~= s@);
    r
}

fn run_end_exec(m: &Vec<char>, i: usize) -> (r: usize)
    requires
        i <= m@.len(),
    ensures
        r as int == run_end(m@, i as int),
        i <= r <= m@.len(),
{
    let mut j = i;
    while j < m.len() && text_char(m[j])
        invariant
            i <= j <= m@.len(),
            run_end(m@, j as int) == run_end(m@, i as int),
        decreases m@.len() - j,
    {
        j = j + 1;
    }
    j
}

fn colon_text_exec(m: &Vec<char>, p: usize) -> (r: bool)
    ensures
        r == colon_text_at(m@, p as int),
{
    p < m.len() && m.len() - p > 2 && m[p] == ':' && m[p + 1] == ' ' && text_char(m[p + 2])
}

/// Where the kind ends at `k`: the scope bounds, as `tail_at` gives them.
fn tail_exec(m: &Vec<char>, k: usize) -> (r: Option<Option<(usize, usize)>>)
    requires
        k <= m@.len(),
    ensures
        match (r, tail_at(m@, k as int)) {
            (Some(Some((a, b))), Some(Some((x, y)))) => a as int == x && b as int == y,
            (Some(None), Some(None)) => true,
            (None, None) => true,
            _ => false,
        },
{
    if k < m.len() && m[k] == '(' {
        let e = run_end_exec(m, k + 1);
        if e > k + 1 && e < m.len() && m[e] == ')' && colon_text_exec(m, e + 1) {
            Some(Some((k + 1, e)))
        } else {
            None
        }
    } else if colon_text_exec(m, k) {
        Some(None)
    } else {
        None
    }
}

/// Reads the kind and the optional scope of a commit subject.
pub fn parse_subject(message: &str) -> (r: Option<Subject>)
    ensures
        match (r, parse(message@)) {
            (Some(sub), Some((kind, scope))) => sub.kind@ == kind && opt_view(sub.scope) == scope,
            (None, None) => true,
            _ => false,
        },
{
    let m = chars_of(message);
    let n = m.len();
    let mut s: usize = 0;
    while s < n
        invariant
            n == m@.len(),
            m@ == message@,
            s <= n,
            parse_from(m@, s as int) == parse(m@),
        decreases n - s,
    {
        if text_char(m[s]) {
            let k = run_end_exec(&m, s);
            match tail_exec(&m, k) {
                Some(t) => {
                    let kind = message.substring_char(s, k).to_owned();
                    let scope = match t {
                        Some((a, b)) => Some(message.substring_char(a, b).to_owned()),
                        None => None,
                    };
                    return Some(Subject { kind, scope });
                },
                None => {},
            }
        }
        s = s + 1;
    }
    None
}

} // verus!
