//! The callout post-processor: `{{{kind ... }}}` blocks in rendered HTML
//! become styled notice boxes.

use vstd::prelude::*;
use crate::text::{append_range, append_str, chars_of, find, find_from, lemma_find_from_bounds, string_of, trim_range, trimmed};

verus! {

pub open spec fn begin_marker() -> Seq<char> {
    seq!['{', '{', '{']
}

pub open spec fn end_marker() -> Seq<char> {
    seq!['}', '}', '}']
}

pub open spec fn newline() -> Seq<char> {
    seq!['\n']
}

/// The HTML of one callout of the given kind and content.
pub open spec fn callout_html(kind: Seq<char>, content: Seq<char>) -> Seq<char> {
    "<div class=\"callout "@ + kind + "-callout\"><span class=\"callout-icon "@ + kind
        + "-callout-icon\"></span><span>"@ + content + "</span></div>\n"@
}

/// Where the kind of a callout that begins at `start` ends: at the first
/// line break after the begin marker, or at the end of the text.
pub open spec fn kind_end(s: Seq<char>, start: int) -> int {
    match find_from(s, newline(), start + 3) {
        Some(n) => n,
        None => s.len() as int,
    }
}

/// The text from `pos` on with every terminated callout expanded. A begin
/// marker without an end marker after its first line stays as it is, with
/// everything that follows it.
pub open spec fn expand_from(s: Seq<char>, pos: int) -> Seq<char>
    decreases s.len() - pos,
    via expand_from_decreases
{
    if pos < 0 || pos > s.len() {
        Seq::empty()
    } else {
        match find_from(s, begin_marker(), pos) {
            None => s.subrange(pos, s.len() as int),
            Some(start) => match find_from(s, end_marker(), kind_end(s, start)) {
                None => s.subrange(pos, s.len() as int),
                Some(end) => s.subrange(pos, start) + callout_html(
                    trimmed(s, start + 3, kind_end(s, start)),
                    trimmed(s, kind_end(s, start), end),
                ) + expand_from(s, end + 3),
            },
        }
    }
}

#[via_fn]
proof fn expand_from_decreases(s: Seq<char>, pos: int) {
    if 0 <= pos <= s.len() {
        lemma_find_from_bounds(s, begin_marker(), pos);
        if let Some(start) = find_from(s, begin_marker(), pos) {
            lemma_find_from_bounds(s, newline(), start + 3);
            lemma_find_from_bounds(s, end_marker(), kind_end(s, start));
        }
    }
}

/// The whole text with its callouts expanded.
pub open spec fn expand_callouts(s: Seq<char>) -> Seq<char> {
    expand_from(s, 0)
}

/// A text that holds no end marker is its own expansion: a callout that is
/// never closed stays as it was written.
pub proof fn lemma_unterminated_is_unchanged(s: Seq<char>)
    requires
        find_from(s, end_marker(), 0) is None,
    ensures
        expand_callouts(s) == s,
{
    lemma_find_from_bounds(s, end_marker(), 0);
    lemma_find_from_bounds(s, begin_marker(), 0);
    assert(s.subrange(0, s.len() as int) =~= s);
    if let Some(start) = find_from(s, begin_marker(), 0) {
        lemma_find_from_bounds(s, newline(), start + 3);
        lemma_find_from_bounds(s, end_marker(), kind_end(s, start));
    }
}

/// A text that holds no begin marker is its own expansion.
pub proof fn lemma_unmarked_is_unchanged(s: Seq<char>)
    requires
        find_from(s, begin_marker(), 0) is None,
    ensures
        expand_callouts(s) == s,
{
    assert(s.subrange(0, s.len() as int) =~= s);
}

/// Rewrites each `{{{kind`, first line, content, `}}}` into a callout box,
/// left to right and without nesting; an unterminated callout is left as
/// it stands.
pub fn convert_callout_markdown(html: String) -> (out: String)
    ensures
        out@ == expand_callouts(html@),
{
    let s = chars_of(html.as_str());
    let begin: Vec<char> = vec!['{', '{', '{'];
    let end_pat: Vec<char> = vec!['}', '}', '}'];
    let nl: Vec<char> = vec!['\n'];
    assert(begin@ =~= begin_marker());
    assert(end_pat@ =~= end_marker());
    assert(nl@ =~= newline());
    let mut out: Vec<char> = Vec::new();
    let mut pos: usize = 0;
    let mut done = false;
    while !done
        invariant
            pos <= s.len(),
            begin@ == begin_marker(),
            end_pat@ == end_marker(),
            nl@ == newline(),
            !done ==> out@ + expand_from(s@, pos as int) == expand_callouts(s@),
            done ==> out@ == expand_callouts(s@),
        decreases s.len() - pos + (if done { 0int } else { 1int }),
    {
        proof {
            lemma_find_from_bounds(s@, begin_marker(), pos as int);
        }
        match find(&s, &begin, pos) {
            None => {
                append_range(&mut out, &s, pos, s.len());
                done = true;
            },
            Some(start) => {
                proof {
                    lemma_find_from_bounds(s@, newline(), start + 3);
                }
                let kind_to: usize = match find(&s, &nl, start + 3) {
                    Some(n) => n,
                    None => s.len(),
                };
                proof {
                    lemma_find_from_bounds(s@, end_marker(), kind_to as int);
                }
                match find(&s, &end_pat, kind_to) {
                    None => {
                        append_range(&mut out, &s, pos, s.len());
                        done = true;
                    },
                    Some(end) => {
                        let kind = trim_range(&s, start + 3, kind_to);
                        let content = trim_range(&s, kind_to, end);
                        let ghost before = out@;
                        append_range(&mut out, &s, pos, start);
                        append_str(&mut out, "<div class=\"callout ");
                        append_range(&mut out, &s, kind.0, kind.1);
                        append_str(&mut out, "-callout\"><span class=\"callout-icon ");
                        append_range(&mut out, &s, kind.0, kind.1);
                        append_str(&mut out, "-callout-icon\"></span><span>");
                        append_range(&mut out, &s, content.0, content.1);
                        append_str(&mut out, "</span></div>\n");
                        assert(out@ =~= before + (s@.subrange(pos as int, start as int)
                            + callout_html(
                            trimmed(s@, start + 3, kind_to as int),
                            trimmed(s@, kind_to as int, end as int),
                        )));
                        assert(before + (s@.subrange(pos as int, start as int) + callout_html(
                            trimmed(s@, start + 3, kind_to as int),
                            trimmed(s@, kind_to as int, end as int),
                        ) + expand_from(s@, end + 3)) =~= out@ + expand_from(s@, end + 3));
                        pos = end + 3;
                    },
                }
            },
        }
    }
    string_of(&out, 0, out.len())
}

} // verus!
