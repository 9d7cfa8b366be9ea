//! Code blocks: how many lines a block of code shows.
use vstd::prelude::*;
use crate::text::chars_of;

verus! {

pub open spec fn count_char(s: Seq<char>, c: char) -> int
    decreases s.len(),
{
    if s.len() == 0 {
        0
    } else {
        count_char(s.drop_last(), c) + if s.last() == c {
            1int
        } else {
            0int
        }
    }
}

/// The number of lines of a text: the pieces between newlines, not counting
/// the empty piece after a final newline.
pub open spec fn line_count(s: Seq<char>) -> int {
    if s.len() > 0 && s.last() == '\n' {
        count_char(s, '\n')
    } else {
        count_char(s, '\n') + 1
    }
}

proof fn lemma_count_char_bound(s: Seq<char>, c: char)
    ensures
        0 <= count_char(s, c) <= s.len(),
    decreases s.len(),
{
    if s.len() > 0 {
        lemma_count_char_bound(s.drop_last(), c);
    }
}

/// Counts the lines of a text.
pub fn count_lines(text: &str) -> (r: usize)
    ensures
        r == line_count(text@),
{
    let t = chars_of(text);
    let mut n: usize = 0;
    let mut i: usize = 0;
    while i < t.len()
        invariant
            t@ == text@,
            i <= t@.len(),
            n == count_char(t@.take(i as int), '\n'),
        decreases t@.len() - i,
    {
        assert(t@.take(i + 1).drop_last() =~= t@.take(i as int));
        proof {
            lemma_count_char_bound(t@.take(i as int), '\n');
        }
        if t[i] == '\n' {
            n = n + 1;
        }
        i = i + 1;
    }
    assert(t@.take(i as int) =~= t@);
    proof {
        lemma_count_char_bound(t@, '\n');
    }
    if t.len() > 0 && t[t.len() - 1] == '\n' {
        n
    } else {
        proof {
            if t@.len() > 0 {
                lemma_count_char_bound(t@.drop_last(), '\n');
            }
        }
        n + 1
    }
}

} // verus!
