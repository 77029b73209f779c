use blog_posts::callout::convert_callout_markdown;
use blog_posts::feed::xml_escape;
use blog_posts::frontmatter::split_post;
use blog_posts::markdown::{anchor_id_of, count_words};
use blog_posts::post::make_slug;

/// Every text over `alphabet` of at most `max_len` characters.
fn texts(alphabet: &[char], max_len: usize) -> Vec<String> {
    let mut all = vec![String::new()];
    let mut from = 0;
    for _ in 0..max_len {
        let upto = all.len();
        for i in from..upto {
            for c in alphabet {
                let mut t = all[i].clone();
                t.push(*c);
                all.push(t);
            }
        }
        from = upto;
    }
    all
}

fn expand_with_std(text: &str) -> String {
    let mut out = String::new();
    let mut rest = text;
    while let Some((before, after)) = rest.split_once("{{{") {
        let (kind, tail) = match after.find('\n') {
            Some(n) => after.split_at(n),
            None => (after, ""),
        };
        match tail.split_once("}}}") {
            Some((content, later)) => {
                out.push_str(before);
                out.push_str(&format!(
                    "<div class=\"callout {0}-callout\"><span class=\"callout-icon {0}-callout-icon\"></span><span>{1}</span></div>\n",
                    kind.trim(),
                    content.trim()
                ));
                rest = later;
            }
            None => break,
        }
    }
    out.push_str(rest);
    out
}

fn split_with_std(content: &str) -> Option<(String, String)> {
    let mut lines = content.lines();
    if lines.next() != Some("+++") {
        return None;
    }
    let mut block = String::new();
    for line in lines.by_ref() {
        if line == "+++" {
            break;
        }
        block.push_str(line);
        block.push('\n');
    }
    Some((block, lines.collect::<Vec<&str>>().join("\n")))
}

#[test]
fn callouts_agree_with_std_search_and_trim() {
    for text in texts(&['{', '}', '\n', ' ', 'é'], 6) {
        assert_eq!(convert_callout_markdown(text.clone()), expand_with_std(&text), "{:?}", text);
    }
    for tail in texts(&['{', '}', '\n', 'a', '\u{2003}'], 4) {
        let text = format!("x{{{{{{k\n{}}}}}}}{}", tail, tail);
        assert_eq!(convert_callout_markdown(text.clone()), expand_with_std(&text), "{:?}", text);
    }
}

#[test]
fn frontmatter_agrees_with_std_lines() {
    for text in texts(&['+', '\n', '\r', 'a'], 7) {
        assert_eq!(split_post(&text), split_with_std(&text), "{:?}", text);
    }
    for tail in texts(&['+', '\n', '\r', 'a'], 6) {
        let text = format!("+++\n{}", tail);
        assert_eq!(split_post(&text), split_with_std(&text), "{:?}", text);
        let text = format!("+++\r\na\n+++{}", tail);
        assert_eq!(split_post(&text), split_with_std(&text), "{:?}", text);
    }
}

#[test]
fn word_count_agrees_with_std_split() {
    for text in texts(&[' ', 'a', '\n', '\u{a0}', 'é'], 6) {
        assert_eq!(count_words(&text), text.split_whitespace().count(), "{:?}", text);
    }
}

#[test]
fn escape_agrees_with_std_replace() {
    for text in texts(&['&', '<', '>', '"', '\'', 'a', ';'], 4) {
        let expected = text
            .replace('&', "&amp;")
            .replace('<', "&lt;")
            .replace('>', "&gt;")
            .replace('"', "&quot;")
            .replace('\'', "&apos;");
        assert_eq!(xml_escape(&text), expected, "{:?}", text);
    }
}

#[test]
fn anchor_and_slug_agree_with_std_replace() {
    for text in texts(&[' ', 'a', 'Z', '7', '-', '_', 'é'], 4) {
        let kept: String = text.chars().filter(|c| c.is_ascii_alphanumeric() || *c == ' ').collect();
        assert_eq!(anchor_id_of(&text), kept.replace(' ', "-"), "{:?}", text);
        assert_eq!(make_slug(&text), text.replace('_', "-"), "{:?}", text);
    }
}
