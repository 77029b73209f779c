//! The frontmatter parser: a post file begins with a `+++` line, holds its
//! metadata up to the next `+++` line, and its body after that.

use vstd::prelude::*;
use crate::callout::newline;
use crate::text::{append_range, chars_of, find, find_from, lemma_find_from_bounds, occurs_at, string_of};

verus! {

/// The text of a delimiter line.
pub open spec fn delimiter() -> Seq<char> {
    seq!['+', '+', '+']
}

/// The index of the line break that ends the line beginning at `from`, or
/// the length of the text where no line break follows.
pub open spec fn line_end(s: Seq<char>, from: int) -> int {
    match find_from(s, newline(), from) {
        Some(n) => n,
        None => s.len() as int,
    }
}

/// The line beginning at `from`, without its line break and without a
/// carriage return just before that line break.
pub open spec fn line_text(s: Seq<char>, from: int) -> Seq<char> {
    let e = line_end(s, from);
    if e < s.len() && from < e && s[e - 1] == '\r' {
        s.subrange(from, e - 1)
    } else {
        s.subrange(from, e)
    }
}

/// Where the line after the one beginning at `from` begins.
pub open spec fn next_line(s: Seq<char>, from: int) -> int {
    let e = line_end(s, from);
    if e < s.len() {
        e + 1
    } else {
        e
    }
}

pub proof fn lemma_next_line_advances(s: Seq<char>, from: int)
    requires
        0 <= from < s.len(),
    ensures
        from <= line_end(s, from) <= s.len(),
        from < next_line(s, from) <= s.len(),
{
    lemma_find_from_bounds(s, newline(), from);
}

/// The metadata block read from `from` on: each line up to the closing
/// delimiter, or to the end of the text where none closes it, followed by
/// a line break.
pub open spec fn metadata_from(s: Seq<char>, from: int) -> Seq<char>
    decreases s.len() - from,
    via metadata_from_decreases
{
    if from < 0 || from >= s.len() || line_text(s, from) == delimiter() {
        Seq::empty()
    } else {
        line_text(s, from) + newline() + metadata_from(s, next_line(s, from))
    }
}

#[via_fn]
proof fn metadata_from_decreases(s: Seq<char>, from: int) {
    if 0 <= from < s.len() {
        lemma_next_line_advances(s, from);
    }
}

/// Where the body begins: just after the first delimiter line at or after
/// `from`, or at the end of the text where there is none.
pub open spec fn body_start(s: Seq<char>, from: int) -> int
    decreases s.len() - from,
    via body_start_decreases
{
    if from < 0 || from >= s.len() {
        s.len() as int
    } else if line_text(s, from) == delimiter() {
        next_line(s, from)
    } else {
        body_start(s, next_line(s, from))
    }
}

#[via_fn]
proof fn body_start_decreases(s: Seq<char>, from: int) {
    if 0 <= from < s.len() {
        lemma_next_line_advances(s, from);
    }
}

/// The lines from `from` on, joined by line breaks.
pub open spec fn joined_lines(s: Seq<char>, from: int) -> Seq<char>
    decreases s.len() - from,
    via joined_lines_decreases
{
    if from < 0 || from >= s.len() {
        Seq::empty()
    } else if next_line(s, from) >= s.len() {
        line_text(s, from)
    } else {
        line_text(s, from) + newline() + joined_lines(s, next_line(s, from))
    }
}

#[via_fn]
proof fn joined_lines_decreases(s: Seq<char>, from: int) {
    if 0 <= from < s.len() {
        lemma_next_line_advances(s, from);
    }
}

/// The metadata block and the body of a post file, or `None` for a text
/// whose first line is not a delimiter. Without a closing delimiter the
/// whole rest is metadata and the body is empty.
pub open spec fn split_frontmatter(s: Seq<char>) -> Option<(Seq<char>, Seq<char>)> {
    if s.len() == 0 || line_text(s, 0) != delimiter() {
        None
    } else {
        Some(
            (
                metadata_from(s, next_line(s, 0)),
                joined_lines(s, body_start(s, next_line(s, 0))),
            ),
        )
    }
}

/// A text whose first line is not `+++` is no post.
pub proof fn lemma_undelimited_is_skipped(s: Seq<char>)
    requires
        s.len() == 0 || line_text(s, 0) != delimiter(),
    ensures
        split_frontmatter(s) is None,
{
}

/// The bounds of the line that begins at `from`, and where the next begins.
fn line_at(s: &Vec<char>, nl: &Vec<char>, from: usize) -> (r: (usize, usize))
    requires
        from < s.len(),
        nl@ == newline(),
    ensures
        from <= r.0 <= s.len(),
        from < r.1 <= s.len(),
        s@.subrange(from as int, r.0 as int) == line_text(s@, from as int),
        r.1 == next_line(s@, from as int),
{
    proof {
        lemma_find_from_bounds(s@, newline(), from as int);
    }
    match find(s, nl, from) {
        Some(e) => {
            assert(newline().len() == 1);
            assert(e + 1 <= s@.len());
            if from < e && s[e - 1] == '\r' {
                (e - 1, e + 1)
            } else {
                (e, e + 1)
            }
        },
        None => (s.len(), s.len()),
    }
}

fn is_delimiter(s: &Vec<char>, delim: &Vec<char>, lo: usize, hi: usize) -> (b: bool)
    requires
        lo <= hi <= s.len(),
        delim@ == delimiter(),
    ensures
        b == (s@.subrange(lo as int, hi as int) == delimiter()),
{
    if hi - lo == 3 {
        occurs_at(s, delim, lo)
    } else {
        assert(s@.subrange(lo as int, hi as int).len() != delimiter().len());
        false
    }
}

/// Splits a post file into its metadata block and its body.
pub fn split_post(content: &str) -> (r: Option<(String, String)>)
    ensures
        match r {
            Some((meta, body)) => split_frontmatter(content@) == Some((meta@, body@)),
            None => split_frontmatter(content@) is None,
        },
{
    let s = chars_of(content);
    let nl: Vec<char> = vec!['\n'];
    let delim: Vec<char> = vec!['+', '+', '+'];
    assert(nl@ =~= newline());
    assert(delim@ =~= delimiter());
    if s.len() == 0 {
        return None;
    }
    let first = line_at(&s, &nl, 0);
    if !is_delimiter(&s, &delim, 0, first.0) {
        return None;
    }
    let start: usize = first.1;
    let mut meta: Vec<char> = Vec::new();
    let mut pos: usize = start;
    let mut body_pos: usize = s.len();
    let mut closed = false;
    while pos < s.len() && !closed
        invariant
            pos <= s.len(),
            body_pos <= s.len(),
            nl@ == newline(),
            delim@ == delimiter(),
            !closed ==> meta@ + metadata_from(s@, pos as int) == metadata_from(s@, start as int),
            !closed ==> body_start(s@, pos as int) == body_start(s@, start as int),
            !closed ==> body_pos == s.len(),
            closed ==> meta@ == metadata_from(s@, start as int),
            closed ==> body_pos == body_start(s@, start as int),
        decreases s.len() - pos + (if closed { 0int } else { 1int }),
    {
        let line = line_at(&s, &nl, pos);
        if is_delimiter(&s, &delim, pos, line.0) {
            body_pos = line.1;
            closed = true;
            assert(meta@ + Seq::<char>::empty() =~= meta@);
        } else {
            let ghost before = meta@;
            append_range(&mut meta, &s, pos, line.0);
            meta.push('\n');
            assert(meta@ + metadata_from(s@, line.1 as int) =~= before + (line_text(s@, pos as int)
                + newline() + metadata_from(s@, line.1 as int)));
            pos = line.1;
        }
    }
    assert(meta@ == metadata_from(s@, start as int)) by {
        if !closed {
            assert(meta@ + Seq::<char>::empty() =~= meta@);
        }
    }
    let mut body: Vec<char> = Vec::new();
    let mut at: usize = body_pos;
    while at < s.len()
        invariant
            at <= s.len(),
            nl@ == newline(),
            body@ + joined_lines(s@, at as int) == joined_lines(s@, body_pos as int),
        decreases s.len() - at,
    {
        let line = line_at(&s, &nl, at);
        let ghost before = body@;
        append_range(&mut body, &s, at, line.0);
        if line.1 < s.len() {
            body.push('\n');
            assert(body@ + joined_lines(s@, line.1 as int) =~= before + (line_text(s@, at as int)
                + newline() + joined_lines(s@, line.1 as int)));
        } else {
            assert(body@ + joined_lines(s@, line.1 as int) =~= before + line_text(s@, at as int));
        }
        at = line.1;
    }
    assert(body@ + Seq::<char>::empty() =~= body@);
    let meta_text = string_of(&meta, 0, meta.len());
    let body_text = string_of(&body, 0, body.len());
    assert(meta@.subrange(0, meta@.len() as int) =~= meta@);
    assert(body@.subrange(0, body@.len() as int) =~= body@);
    Some((meta_text, body_text))
}

} // verus!
