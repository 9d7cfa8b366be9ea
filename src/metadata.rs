//! The metadata grammar: one `key: value` or `key = "value"` pair per line.
//! Blank lines are skipped; values are trimmed, and a value wrapped in
//! double quotes loses them.
use vstd::prelude::*;
use crate::front_matter::BuildError;
use crate::text::string_of;

verus! {

/// A key and its value, as characters.
pub type Pair = (Seq<char>, Seq<char>);

pub open spec fn is_space(c: char) -> bool {
    c == ' ' || c == '\t' || c == '\r'
}

pub open spec fn is_key_char(c: char) -> bool {
    ('a' <= c && c <= 'z') || ('A' <= c && c <= 'Z') || ('0' <= c && c <= '9') || c == '_'
        || c == '-'
}

pub open spec fn trim_start(s: Seq<char>) -> Seq<char>
    decreases s.len(),
{
    if s.len() > 0 && is_space(s[0]) {
        trim_start(s.drop_first())
    } else {
        s
    }
}

pub open spec fn trim_end(s: Seq<char>) -> Seq<char>
    decreases s.len(),
{
    if s.len() > 0 && is_space(s.last()) {
        trim_end(s.drop_last())
    } else {
        s
    }
}

pub open spec fn trim(s: Seq<char>) -> Seq<char> {
    trim_end(trim_start(s))
}

/// The end of the run of key characters that starts at `i`.
pub open spec fn key_end(s: Seq<char>, i: int) -> int
    decreases s.len() - i,
{
    if 0 <= i < s.len() && is_key_char(s[i]) {
        key_end(s, i + 1)
    } else {
        i
    }
}

pub open spec fn unquote(v: Seq<char>) -> Seq<char> {
    if v.len() >= 2 && v[0] == '"' && v.last() == '"' {
        v.subrange(1, v.len() - 1)
    } else {
        v
    }
}

/// One line of metadata: `None` if it breaks the grammar, `Some(None)` if it
/// is blank, else the pair it holds.
pub open spec fn parse_line(l: Seq<char>) -> Option<Option<Pair>> {
    let u = trim(l);
    if u.len() == 0 {
        Some(None)
    } else {
        let k = key_end(u, 0);
        let rest = trim_start(u.subrange(k, u.len() as int));
        if k > 0 && rest.len() > 0 && (rest[0] == ':' || rest[0] == '=') {
            Some(Some((u.subrange(0, k), unquote(trim(rest.drop_first())))))
        } else {
            None
        }
    }
}

pub open spec fn add_line(l: Option<Option<Pair>>, rest: Option<Seq<Pair>>) -> Option<Seq<Pair>> {
    match (l, rest) {
        (Some(Some(kv)), Some(r)) => Some(seq![kv] + r),
        (Some(None), Some(r)) => Some(r),
        _ => None,
    }
}

/// The pairs of the lines of `t` from the line that starts at `s`, where
/// `i` scans that line for its end.
pub open spec fn metadata_from(t: Seq<char>, s: int, i: int) -> Option<Seq<Pair>>
    decreases t.len() - i,
{
    if i >= t.len() {
        add_line(parse_line(t.subrange(s, t.len() as int)), Some(Seq::empty()))
    } else if t[i] == '\n' {
        add_line(parse_line(t.subrange(s, i)), metadata_from(t, i + 1, i + 1))
    } else {
        metadata_from(t, s, i + 1)
    }
}

/// The pairs of a metadata text, in order, or `None` if a line breaks the
/// grammar.
pub open spec fn parse_metadata(t: Seq<char>) -> Option<Seq<Pair>> {
    metadata_from(t, 0, 0)
}

pub open spec fn pairs_view(v: Seq<(String, String)>) -> Seq<Pair> {
    v.map_values(|p: (String, String)| (p.0@, p.1@))
}

fn is_space_exec(c: char) -> (r: bool)
    ensures
        r == is_space(c),
{
    c == ' ' || c == '\t' || c == '\r'
}

fn is_key_char_exec(c: char) -> (r: bool)
    ensures
        r == is_key_char(c),
{
    ('a' <= c && c <= 'z') || ('A' <= c && c <= 'Z') || ('0' <= c && c <= '9') || c == '_'
        || c == '-'
}

/// The start of `t[a..b]` once its leading spaces are skipped.
fn skip_space(t: &Vec<char>, a: usize, b: usize) -> (r: usize)
    requires
        a <= b <= t@.len(),
    ensures
        a <= r <= b,
        trim_start(t@.subrange(a as int, b as int)) == t@.subrange(r as int, b as int),
{
    let mut i = a;
    while i < b && is_space_exec(t[i])
        invariant
            a <= i <= b <= t@.len(),
            trim_start(t@.subrange(a as int, b as int)) == trim_start(
                t@.subrange(i as int, b as int),
            ),
        decreases b - i,
    {
        assert(t@.subrange(i as int, b as int).drop_first() =~= t@.subrange(i + 1, b as int));
        i = i + 1;
    }
    i
}

/// The end of `t[a..b]` once its trailing spaces are dropped.
fn back_space(t: &Vec<char>, a: usize, b: usize) -> (r: usize)
    requires
        a <= b <= t@.len(),
    ensures
        a <= r <= b,
        trim_end(t@.subrange(a as int, b as int)) == t@.subrange(a as int, r as int),
{
    let mut j = b;
    while j > a && is_space_exec(t[j - 1])
        invariant
            a <= j <= b <= t@.len(),
            trim_end(t@.subrange(a as int, b as int)) == trim_end(
                t@.subrange(a as int, j as int),
            ),
        decreases j - a,
    {
        assert(t@.subrange(a as int, j as int).drop_last() =~= t@.subrange(a as int, j - 1));
        j = j - 1;
    }
    j
}

/// The end of the key that starts `t[a..b]`.
fn find_key_end(t: &Vec<char>, a: usize, b: usize) -> (r: usize)
    requires
        a <= b <= t@.len(),
    ensures
        a <= r <= b,
        key_end(t@.subrange(a as int, b as int), 0) == r - a,
{
    let ghost u = t@.subrange(a as int, b as int);
    let mut i = a;
    while i < b && is_key_char_exec(t[i])
        invariant
            a <= i <= b <= t@.len(),
            u == t@.subrange(a as int, b as int),
            key_end(u, 0) == key_end(u, i - a),
        decreases b - i,
    {
        i = i + 1;
    }
    i
}

/// Parses the line `t[a..b]`.
fn parse_line_exec(t: &Vec<char>, a: usize, b: usize) -> (r: Result<
    Option<(String, String)>,
    BuildError,
>)
    requires
        a <= b <= t@.len(),
    ensures
        r matches Ok(Some(p)) ==> parse_line(t@.subrange(a as int, b as int)) == Some(
            Some((p.0@, p.1@)),
        ),
        r matches Ok(None) ==> parse_line(t@.subrange(a as int, b as int)) == Some(
            None::<Pair>,
        ),
        r matches Err(e) ==> parse_line(t@.subrange(a as int, b as int)) is None && e
            == BuildError::MalformedFrontMatter,
{
    let ghost l = t@.subrange(a as int, b as int);
    let a1 = skip_space(t, a, b);
    let b1 = back_space(t, a1, b);
    let ghost u = t@.subrange(a1 as int, b1 as int);
    assert(trim(l) == u);
    if a1 == b1 {
        assert(u.len() == 0);
        return Ok(None);
    }
    let k = find_key_end(t, a1, b1);
    assert(u.subrange(k - a1, u.len() as int) =~= t@.subrange(k as int, b1 as int));
    let r = skip_space(t, k, b1);
    let ghost rest = t@.subrange(r as int, b1 as int);
    if k == a1 || r == b1 || !(t[r] == ':' || t[r] == '=') {
        assert(rest.len() > 0 ==> rest[0] == t@[r as int]);
        return Err(BuildError::MalformedFrontMatter);
    }
    assert(rest[0] == t@[r as int]);
    assert(rest.drop_first() =~= t@.subrange(r + 1, b1 as int));
    let v0 = skip_space(t, r + 1, b1);
    let v1 = back_space(t, v0, b1);
    let ghost v = t@.subrange(v0 as int, v1 as int);
    assert(trim(rest.drop_first()) == v);
    assert(u.subrange(0, k - a1) =~= t@.subrange(a1 as int, k as int));
    let key = string_of(t.as_slice(), a1, k);
    if v1 - v0 >= 2 && t[v0] == '"' && t[v1 - 1] == '"' {
        assert(v.subrange(1, v.len() - 1) =~= t@.subrange(v0 + 1, v1 - 1));
        Ok(Some((key, string_of(t.as_slice(), v0 + 1, v1 - 1))))
    } else {
        Ok(Some((key, string_of(t.as_slice(), v0, v1))))
    }
}

pub open spec fn join(a: Seq<Pair>, rest: Option<Seq<Pair>>) -> Option<Seq<Pair>> {
    match rest {
        Some(r) => Some(a + r),
        None => None,
    }
}

/// Parses a metadata text into its pairs, in the order of the lines.
pub fn parse_metadata_chars(t: &Vec<char>) -> (r: Result<Vec<(String, String)>, BuildError>)
    ensures
        r matches Ok(v) ==> parse_metadata(t@) == Some(pairs_view(v@)),
        r matches Err(e) ==> parse_metadata(t@) is None && e == BuildError::MalformedFrontMatter,
{
    let mut out: Vec<(String, String)> = Vec::new();
    let mut s: usize = 0;
    let mut i: usize = 0;
    loop
        invariant
            s <= i <= t@.len(),
            parse_metadata(t@) == join(pairs_view(out@), metadata_from(t@, s as int, i as int)),
        decreases t@.len() - i,
    {
        if i == t.len() || t[i] == '\n' {
            let ghost before = pairs_view(out@);
            let line = parse_line_exec(t, s, i);
            match line {
                Err(e) => {
                    return Err(e);
                },
                Ok(Some(p)) => {
                    out.push(p);
                    assert(pairs_view(out@) =~= before + seq![(p.0@, p.1@)]);
                    proof {
                        let rest = if i == t@.len() {
                            Some(Seq::<Pair>::empty())
                        } else {
                            metadata_from(t@, i + 1, i + 1)
                        };
                        if let Some(r) = rest {
                            assert(before + (seq![(p.0@, p.1@)] + r) =~= pairs_view(out@) + r);
                        }
                    }
                },
                Ok(None) => {},
            }
            if i == t.len() {
                assert(pairs_view(out@) + Seq::<Pair>::empty() =~= pairs_view(out@));
                return Ok(out);
            }
            s = i + 1;
        }
        i = i + 1;
    }
}

} // verus!
