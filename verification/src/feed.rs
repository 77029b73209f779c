//! The RSS feed of the newest posts.

use vstd::prelude::*;
use crate::markdown::{markdown_html, markdown_to_html};
use crate::metadata::{feed_date, feed_date_text, Date};
use crate::post::{post_views, Post, PostView};
use crate::text::{append_str, chars_of, string_of};

verus! {

/// What stands for one character in XML text.
pub open spec fn escape_of(c: char) -> Seq<char> {
    if c == '&' {
        "&amp;"@
    } else if c == '<' {
        "&lt;"@
    } else if c == '>' {
        "&gt;"@
    } else if c == '"' {
        "&quot;"@
    } else if c == '\'' {
        "&apos;"@
    } else {
        seq![c]
    }
}

/// A text with each of `&`, `<`, `>`, `"` and `'` replaced by its entity.
pub open spec fn xml_escaped(s: Seq<char>) -> Seq<char>
    decreases s.len(),
{
    if s.len() == 0 {
        Seq::empty()
    } else {
        xml_escaped(s.drop_last()) + escape_of(s.last())
    }
}

/// Escapes a text for XML.
pub fn xml_escape(input: &str) -> (escaped: String)
    ensures
        escaped@ == xml_escaped(input@),
{
    let s = chars_of(input);
    let mut out: Vec<char> = Vec::new();
    let mut i: usize = 0;
    while i < s.len()
        invariant
            i <= s.len(),
            out@ == xml_escaped(s@.take(i as int)),
        decreases s.len() - i,
    {
        let c: char = s[i];
        assert(s@.take(i + 1).drop_last() =~= s@.take(i as int));
        if c == '&' {
            append_str(&mut out, "&amp;");
        } else if c == '<' {
            append_str(&mut out, "&lt;");
        } else if c == '>' {
            append_str(&mut out, "&gt;");
        } else if c == '"' {
            append_str(&mut out, "&quot;");
        } else if c == '\'' {
            append_str(&mut out, "&apos;");
        } else {
            let ghost before = out@;
            out.push(c);
            assert(out@ =~= before + seq![c]);
        }
        i += 1;
    }
    assert(s@.take(s@.len() as int) =~= s@);
    assert(out@.subrange(0, out@.len() as int) =~= out@);
    string_of(&out, 0, out.len())
}

/// The most items that a feed holds.
pub const FEED_ITEMS: usize = 10;

/// The publication date of a feed item, empty where the date has no
/// written form.
pub open spec fn pub_date_text(date: Date) -> Seq<char> {
    match feed_date_text(date) {
        Some(t) => t,
        None => Seq::empty(),
    }
}

/// The feed item of one post.
pub open spec fn feed_item(p: PostView) -> Seq<char> {
    "<item><title>"@ + xml_escaped(p.title) + "</title><link>https://bl.elg.gg/"@ + xml_escaped(
        p.slug,
    ) + "</link><description>"@ + xml_escaped(p.title) + "</description><pubDate>"@
        + pub_date_text(p.date) + " 00:00:00 GMT</pubDate><guid>https://bl.elg.gg/"@
        + xml_escaped(p.slug) + "</guid><content:encoded><![CDATA["@ + markdown_html(p.body)
        + "]]></content:encoded></item>"@
}

/// How many of the first `n` posts are not hidden.
pub open spec fn shown_in(posts: Seq<PostView>, n: int) -> nat
    decreases n,
{
    if n <= 0 {
        0
    } else {
        shown_in(posts, n - 1) + if posts[n - 1].hidden {
            0nat
        } else {
            1nat
        }
    }
}

/// The items that the first `n` posts give: one for each post that is not
/// hidden, up to the first ten of them.
pub open spec fn feed_items(posts: Seq<PostView>, n: int) -> Seq<char>
    decreases n,
{
    if n <= 0 {
        Seq::empty()
    } else if !posts[n - 1].hidden && shown_in(posts, n - 1) < FEED_ITEMS {
        feed_items(posts, n - 1) + feed_item(posts[n - 1])
    } else {
        feed_items(posts, n - 1)
    }
}

pub open spec fn feed_head() -> Seq<char> {
    "<?xml version=\"1.0\" encoding=\"UTF-8\" ?><rss version=\"2.0\" xmlns:content=\"http://purl.org/rss/1.0/modules/content/\" xmlns:atom=\"http://www.w3.org/2005/Atom\"><channel><title>bl.elg.gg</title><link>https://bl.elg.gg/</link><description>bl.elg.gg</description><language>en-us</language><atom:link rel=\"self\" href=\"https://bl.elg.gg/rss\" type=\"application/rss+xml\" />"@
}

/// The feed of a collection of posts.
pub open spec fn feed_xml(posts: Seq<PostView>) -> Seq<char> {
    feed_head() + feed_items(posts, posts.len() as int) + "</channel></rss>"@
}

fn append_item(out: &mut Vec<char>, post: &Post)
    ensures
        final(out)@ == old(out)@ + feed_item(post@),
{
    let title = xml_escape(post.title.as_str());
    let slug = xml_escape(post.slug.as_str());
    let date = match feed_date(post.date) {
        Some(t) => t,
        None => String::new(),
    };
    let content = markdown_to_html(post.body.as_str());
    append_str(out, "<item><title>");
    append_str(out, title.as_str());
    append_str(out, "</title><link>https://bl.elg.gg/");
    append_str(out, slug.as_str());
    append_str(out, "</link><description>");
    append_str(out, title.as_str());
    append_str(out, "</description><pubDate>");
    append_str(out, date.as_str());
    append_str(out, " 00:00:00 GMT</pubDate><guid>https://bl.elg.gg/");
    append_str(out, slug.as_str());
    append_str(out, "</guid><content:encoded><![CDATA[");
    append_str(out, content.as_str());
    append_str(out, "]]></content:encoded></item>");
    assert(out@ =~= old(out)@ + feed_item(post@));
}

/// Writes the RSS feed of the first ten posts that are not hidden.
pub fn rss_feed(posts: &Vec<Post>) -> (rss: String)
    ensures
        rss@ == feed_xml(post_views(posts@)),
{
    let ghost pv = post_views(posts@);
    let mut out: Vec<char> = Vec::new();
    append_str(
        &mut out,
        "<?xml version=\"1.0\" encoding=\"UTF-8\" ?><rss version=\"2.0\" xmlns:content=\"http://purl.org/rss/1.0/modules/content/\" xmlns:atom=\"http://www.w3.org/2005/Atom\"><channel><title>bl.elg.gg</title><link>https://bl.elg.gg/</link><description>bl.elg.gg</description><language>en-us</language><atom:link rel=\"self\" href=\"https://bl.elg.gg/rss\" type=\"application/rss+xml\" />",
    );
    let mut shown: usize = 0;
    let mut i: usize = 0;
    while i < posts.len()
        invariant
            i <= posts.len(),
            pv == post_views(posts@),
            shown <= i,
            shown == shown_in(pv, i as int),
            out@ == feed_head() + feed_items(pv, i as int),
        decreases posts.len() - i,
    {
        let ghost before = out@;
        assert(pv[i as int] == posts@[i as int]@);
        if !posts[i].hidden {
            if shown < FEED_ITEMS {
                append_item(&mut out, &posts[i]);
                assert(out@ =~= feed_head() + (feed_items(pv, i as int) + feed_item(pv[i as int])));
            }
            shown += 1;
        }
        i += 1;
    }
    append_str(&mut out, "</channel></rss>");
    assert(out@.subrange(0, out@.len() as int) =~= out@);
    string_of(&out, 0, out.len())
}

} // verus!
