//! The document grammar: a front-matter block between two `---` marker
//! lines, followed by the body.
use vstd::prelude::*;
use crate::text::{chars_of, string_of};

verus! {

/// What went wrong while building the blog from its sources.
#[derive(Debug, Clone, Copy, PartialEq, Eq, Structural)]
pub enum BuildError {
    /// The document lacks the opening or the closing marker, or a metadata
    /// line does not follow the grammar.
    MalformedFrontMatter,
    /// A source could not be opened, read or decoded as UTF-8.
    UnreadableSource,
    /// A `date` value is not an RFC 3339 timestamp.
    InvalidDateFormat,
    /// The metadata has no `title`.
    MissingRequiredField,
    /// A `cover_image` value is not an absolute URL.
    InvalidCoverImage,
    /// Two sources derive the same slug.
    DuplicateSlug,
}

/// The four characters `---\n` that open and close the front matter.
pub open spec fn marker() -> Seq<char> {
    seq!['-', '-', '-', '\n']
}

/// The marker stands at position `i` of `t`.
pub open spec fn marker_at(t: Seq<char>, i: int) -> bool {
    0 <= i && i + 4 <= t.len() && t.subrange(i, i + 4) == marker()
}

/// The first position at or after `i` where the marker stands.
pub open spec fn marker_from(t: Seq<char>, i: int) -> Option<int>
    decreases t.len() - i,
{
    if i < 0 || i + 4 > t.len() {
        None
    } else if marker_at(t, i) {
        Some(i)
    } else {
        marker_from(t, i + 1)
    }
}

/// Where the metadata starts, where it ends and where the body starts: the
/// document opens with the marker and the closing marker is its next
/// occurrence after the opening one.
pub open spec fn yaml_block(t: Seq<char>) -> Option<(int, int, int)> {
    if marker_at(t, 0) {
        match marker_from(t, 4) {
            Some(j) => Some((4, j, j + 4)),
            None => None,
        }
    } else {
        None
    }
}

/// The metadata text and the body of a document.
pub open spec fn split_document(t: Seq<char>) -> Option<(Seq<char>, Seq<char>)> {
    match yaml_block(t) {
        Some((a, b, c)) => Some((t.subrange(a, b), t.subrange(c, t.len() as int))),
        None => None,
    }
}

/// `marker_from` finds the first occurrence at or after `i`, and `None`
/// means there is none.
pub proof fn lemma_marker_from(t: Seq<char>, i: int)
    requires
        0 <= i,
    ensures
        marker_from(t, i) matches Some(j) ==> i <= j && marker_at(t, j) && forall|k: int|
            i <= k < j ==> !marker_at(t, k),
        marker_from(t, i) is None ==> forall|k: int| i <= k ==> !marker_at(t, k),
    decreases t.len() - i,
{
    if i + 4 <= t.len() && !marker_at(t, i) {
        lemma_marker_from(t, i + 1);
    }
}

fn marker_at_exec(t: &Vec<char>, i: usize) -> (r: bool)
    ensures
        r == marker_at(t@, i as int),
{
    if i > t.len() || t.len() - i < 4 {
        return false;
    }
    let r = t[i] == '-' && t[i + 1] == '-' && t[i + 2] == '-' && t[i + 3] == '\n';
    assert(r == (t@.subrange(i as int, i + 4) =~= marker()));
    r
}

/// Locates the front matter in `text`: the character positions where the
/// metadata starts and ends and where the body starts.
pub fn find_yaml_block(text: &str) -> (r: Option<(usize, usize, usize)>)
    ensures
        r matches Some((a, b, c)) ==> yaml_block(text@) == Some((a as int, b as int, c as int)),
        r is None ==> yaml_block(text@) is None,
{
    let t = chars_of(text);
    find_block(&t)
}

fn find_block(t: &Vec<char>) -> (r: Option<(usize, usize, usize)>)
    ensures
        r matches Some((a, b, c)) ==> yaml_block(t@) == Some((a as int, b as int, c as int)),
        r is None ==> yaml_block(t@) is None,
{
    if !marker_at_exec(t, 0) {
        return None;
    }
    let mut j: usize = 4;
    while j <= t.len() && t.len() - j >= 4
        invariant
            4 <= j,
            j <= t@.len() + 4,
            marker_at(t@, 0),
            marker_from(t@, 4) == marker_from(t@, j as int),
        decreases t@.len() + 4 - j,
    {
        if marker_at_exec(t, j) {
            return Some((4, j, j + 4));
        }
        j = j + 1;
    }
    None
}

/// Splits a document into its metadata text and its body. The body is kept
/// exactly as written, from the first character after the closing marker.
pub fn parse_and_find_content(text: &str) -> (r: Result<(String, String), BuildError>)
    ensures
        r matches Ok((m, b)) ==> split_document(text@) == Some((m@, b@)),
        r matches Err(e) ==> split_document(text@) is None && e == BuildError::MalformedFrontMatter,
{
    let t = chars_of(text);
    split_chars(&t)
}

pub(crate) fn split_chars(t: &Vec<char>) -> (r: Result<(String, String), BuildError>)
    ensures
        r matches Ok((m, b)) ==> split_document(t@) == Some((m@, b@)),
        r matches Err(e) ==> split_document(t@) is None && e == BuildError::MalformedFrontMatter,
{
    match find_block(t) {
        Some((a, b, c)) => {
            proof {
                lemma_marker_from(t@, 4);
            }
            Ok((string_of(t.as_slice(), a, b), string_of(t.as_slice(), c, t.len())))
        },
        None => Err(BuildError::MalformedFrontMatter),
    }
}

/// A document that opens with the marker and holds a closing marker after
/// it splits into metadata and body, and the marker, the metadata, the
/// marker again and the body put back together give the document.
pub proof fn lemma_front_matter_round_trip(d: Seq<char>)
    requires
        marker_at(d, 0),
        exists|j: int| 4 <= j && marker_at(d, j),
    ensures
        split_document(d) is Some,
        split_document(d) matches Some((m, b)) ==> marker() + m + marker() + b == d,
{
    lemma_marker_from(d, 4);
    let j = choose|j: int| 4 <= j && marker_at(d, j);
    assert(marker_from(d, 4) is Some);
    let k = marker_from(d, 4)->0;
    let m = d.subrange(4, k);
    let b = d.subrange(k + 4, d.len() as int);
    assert(marker() + m + marker() + b =~= d);
}

/// A document that does not open with the marker does not split.
pub proof fn lemma_missing_opening_marker(d: Seq<char>)
    requires
        !marker_at(d, 0),
    ensures
        split_document(d) is None,
{
}

} // verus!
