use blog_posts::callout::convert_callout_markdown;
use blog_posts::text::{chars_of, find, is_space, string_of, trim_range};

fn expand(s: &str) -> String {
    convert_callout_markdown(s.to_string())
}

#[test]
fn terminated_callout_is_expanded() {
    assert_eq!(
        expand("<p>{{{note\nHello\n}}}</p>"),
        "<p><div class=\"callout note-callout\"><span class=\"callout-icon note-callout-icon\"></span><span>Hello</span></div>\n</p>"
    );
}

#[test]
fn expanded_callout_is_stable_under_a_second_pass() {
    let once = expand("<p>{{{note\nHello\n}}}</p>");
    assert_eq!(expand(&once), once);
}

#[test]
fn unterminated_callout_is_unchanged() {
    assert_eq!(expand("<p>{{{note\nHello</p>"), "<p>{{{note\nHello</p>");
}

#[test]
fn text_without_markers_is_unchanged() {
    assert_eq!(expand("<p>plain { text }</p>\n"), "<p>plain { text }</p>\n");
    assert_eq!(expand(""), "");
}

#[test]
fn callout_without_line_break_is_unchanged() {
    assert_eq!(expand("a {{{note Hello }}} b"), "a {{{note Hello }}} b");
}

#[test]
fn end_marker_on_the_kind_line_does_not_close() {
    assert_eq!(
        expand("{{{a}}}\nbody}}}tail"),
        "<div class=\"callout a}}}-callout\"><span class=\"callout-icon a}}}-callout-icon\"></span><span>body</span></div>\ntail"
    );
}

#[test]
fn kind_and_content_are_trimmed() {
    assert_eq!(
        expand("x{{{  warn \t\n\n  Take care \u{a0}\n}}}y"),
        "x<div class=\"callout warn-callout\"><span class=\"callout-icon warn-callout-icon\"></span><span>Take care</span></div>\ny"
    );
}

#[test]
fn callouts_are_expanded_left_to_right() {
    assert_eq!(
        expand("{{{a\n1}}}-{{{b\n2}}}-{{{c\n3"),
        "<div class=\"callout a-callout\"><span class=\"callout-icon a-callout-icon\"></span><span>1</span></div>\n-<div class=\"callout b-callout\"><span class=\"callout-icon b-callout-icon\"></span><span>2</span></div>\n-{{{c\n3"
    );
}

#[test]
fn nested_callout_closes_at_the_first_end_marker() {
    assert_eq!(
        expand("{{{a\nx {{{b\ny }}} z }}}"),
        "<div class=\"callout a-callout\"><span class=\"callout-icon a-callout-icon\"></span><span>x {{{b\ny</span></div>\n z }}}"
    );
}

#[test]
fn callout_with_characters_outside_ascii() {
    assert_eq!(
        expand("é{{{nöte\nHéllo wörld\n}}}ü"),
        "é<div class=\"callout nöte-callout\"><span class=\"callout-icon nöte-callout-icon\"></span><span>Héllo wörld</span></div>\nü"
    );
}

#[test]
fn whitespace_is_what_std_calls_whitespace() {
    let mut n: u32 = 0;
    while n <= 0x10FFFF {
        if let Some(c) = char::from_u32(n) {
            assert_eq!(is_space(c), c.is_whitespace(), "U+{:04X}", n);
        }
        n += 1;
    }
}

#[test]
fn chars_and_strings_convert_both_ways() {
    let v = chars_of("aß€😀");
    assert_eq!(v, vec!['a', 'ß', '€', '😀']);
    assert_eq!(string_of(&v, 1, 3), "ß€");
    assert_eq!(string_of(&v, 0, 4), "aß€😀");
    assert_eq!(string_of(&v, 2, 2), "");
}

#[test]
fn find_gives_the_first_match_from_the_start_index() {
    let s = chars_of("ab}}}cd}}}");
    let pat = chars_of("}}}");
    assert_eq!(find(&s, &pat, 0), Some(2));
    assert_eq!(find(&s, &pat, 3), Some(7));
    assert_eq!(find(&s, &pat, 8), None);
    assert_eq!(find(&s, &pat, 10), None);
    assert_eq!(find(&s, &pat, 11), None);
    assert_eq!(find(&chars_of("}}"), &pat, 0), None);
}

#[test]
fn trim_range_matches_str_trim() {
    let text = " \t hello world \n ";
    let s = chars_of(text);
    let (a, b) = trim_range(&s, 0, s.len());
    assert_eq!(string_of(&s, a, b), text.trim());
    let blank = chars_of(" \n\t ");
    let (a, b) = trim_range(&blank, 0, blank.len());
    assert_eq!(a, b);
    assert_eq!(trim_range(&s, 5, 5), (5, 5));
}
