use blog_posts::feed::{rss_feed, xml_escape};
use blog_posts::frontmatter::split_post;
use blog_posts::metadata::{read_metadata, resolve_metadata, Date, RawMetadata};
use blog_posts::post::{
    build_post, collect_posts, find_post, home, latest_post, load_posts, make_slug, not_found,
    postpage, sort_posts, Post, SourceFile,
};
use blog_posts::store::{reload, PostStore, ReloadState, RELOAD_THROTTLE_NANOS, RELOAD_THROTTLE_SECONDS};
use blog_posts::version::version;

fn file(name: &str, content: &str) -> SourceFile {
    SourceFile { name: name.to_string(), content: content.to_string() }
}

fn post(slug: &str, date: (i32, u32, u32), hidden: bool) -> Post {
    Post {
        slug: slug.to_string(),
        title: format!("Title of {}", slug),
        date: Date { year: date.0, month: date.1, day: date.2 },
        friendly_date: String::new(),
        body: format!("<p>{}</p>\n", slug),
        read_time: 1,
        hidden,
    }
}

#[test]
fn frontmatter_and_body_are_split() {
    let r = split_post("+++\ntitle = \"A\"\ndate = \"2024-03-01\"\n+++\nline one\nline two\n");
    assert_eq!(
        r,
        Some(("title = \"A\"\ndate = \"2024-03-01\"\n".to_string(), "line one\nline two".to_string()))
    );
}

#[test]
fn file_without_leading_delimiter_is_no_post() {
    assert_eq!(split_post("title = \"A\"\n+++\nbody"), None);
    assert_eq!(split_post(""), None);
    assert_eq!(split_post("\n+++\n+++\n"), None);
    assert_eq!(split_post("++++\n+++\n"), None);
    assert_eq!(split_post(" +++\n+++\n"), None);
}

#[test]
fn missing_closing_delimiter_leaves_an_empty_body() {
    assert_eq!(
        split_post("+++\ntitle = \"A\"\nmore"),
        Some(("title = \"A\"\nmore\n".to_string(), String::new()))
    );
    assert_eq!(split_post("+++"), Some((String::new(), String::new())));
}

#[test]
fn carriage_returns_before_line_breaks_are_dropped() {
    assert_eq!(
        split_post("+++\r\nhidden = true\r\n+++\r\na\r\n\r\nb\r"),
        Some(("hidden = true\n".to_string(), "a\n\nb\r".to_string()))
    );
}

#[test]
fn body_keeps_later_delimiter_lines() {
    assert_eq!(
        split_post("+++\n+++\na\n+++\nb\n\n"),
        Some((String::new(), "a\n+++\nb\n".to_string()))
    );
}

#[test]
fn metadata_fields_come_back_as_written() {
    let m = read_metadata("title = \"My Post\"\ndate = \"2024-03-01\"\nhidden = true\n", "f.md")
        .expect("a TOML document");
    assert_eq!(m.title, "My Post");
    assert_eq!(m.date, Date { year: 2024, month: 3, day: 1 });
    assert!(m.hidden);
}

#[test]
fn missing_metadata_fields_get_their_defaults() {
    let m = read_metadata("", "my_file.md").expect("a TOML document");
    assert_eq!(m.title, "my_file.md");
    assert_eq!(m.date, Date { year: 1970, month: 1, day: 1 });
    assert!(!m.hidden);
}

#[test]
fn fields_of_the_wrong_type_get_their_defaults() {
    let m = read_metadata("title = 3\ndate = 2024-03-01\nhidden = \"yes\"\n", "n").expect("TOML");
    assert_eq!(m.title, "n");
    assert_eq!(m.date, Date { year: 1970, month: 1, day: 1 });
    assert!(!m.hidden);
}

#[test]
fn a_date_that_is_no_day_falls_back_to_the_epoch() {
    let m = read_metadata("date = \"2024-02-30\"\n", "n").expect("TOML");
    assert_eq!(m.date, Date { year: 1970, month: 1, day: 1 });
    let m = read_metadata("date = \"yesterday\"\n", "n").expect("TOML");
    assert_eq!(m.date, Date { year: 1970, month: 1, day: 1 });
    let m = read_metadata("date = \"2024-02-29\"\n", "n").expect("TOML");
    assert_eq!(m.date, Date { year: 2024, month: 2, day: 29 });
}

#[test]
fn malformed_metadata_gives_no_post() {
    assert!(read_metadata("title = \n", "n").is_none());
    assert!(build_post("n", "+++\ntitle = \n+++\nbody").is_none());
}

#[test]
fn resolver_prefers_what_is_given() {
    let raw = RawMetadata { title: Some("T".to_string()), date: None, hidden: Some(true) };
    let m = resolve_metadata(raw, Some(Date { year: 2001, month: 2, day: 3 }), "file");
    assert_eq!(m.title, "T");
    assert_eq!(m.date, Date { year: 2001, month: 2, day: 3 });
    assert!(m.hidden);
    let raw = RawMetadata { title: None, date: None, hidden: None };
    let m = resolve_metadata(raw, None, "file");
    assert_eq!(m.title, "file");
    assert_eq!(m.date, Date { year: 1970, month: 1, day: 1 });
    assert!(!m.hidden);
}

#[test]
fn dates_are_ordered_by_year_month_day() {
    let d = Date { year: 2024, month: 3, day: 1 };
    assert!(d.later_than(&Date { year: 2024, month: 2, day: 28 }));
    assert!(d.later_than(&Date { year: 2023, month: 12, day: 31 }));
    assert!(Date { year: 2024, month: 3, day: 2 }.later_than(&d));
    assert!(!d.later_than(&d));
    assert!(!d.later_than(&Date { year: 2025, month: 1, day: 1 }));
    assert_eq!(Date::epoch(), Date { year: 1970, month: 1, day: 1 });
}

#[test]
fn post_is_assembled_from_a_file() {
    let p = build_post(
        "my_first_post",
        "+++\ntitle = \"First\"\ndate = \"2024-03-01\"\n+++\n# Hello World!\n\nSome *text* here.\n",
    )
    .expect("a post");
    assert_eq!(p.slug, "my-first-post");
    assert_eq!(p.title, "First");
    assert_eq!(p.date, Date { year: 2024, month: 3, day: 1 });
    assert_eq!(p.friendly_date, "March 01, 2024");
    assert_eq!(
        p.body,
        "<h1 id=\"hello-world\"><a href=\"#hello-world\">Hello World!</a></h1>\n<p>Some <em>text</em> here.</p>\n"
    );
    assert_eq!(p.read_time, 1);
    assert!(!p.hidden);
}

#[test]
fn post_without_metadata_gets_defaults() {
    let p = build_post("a_b.md", "+++\n+++\nbody").expect("a post");
    assert_eq!(p.slug, "a-b.md");
    assert_eq!(p.title, "a_b.md");
    assert_eq!(p.friendly_date, "January 01, 1970");
    assert_eq!(p.body, "<p>body</p>\n");
    assert!(!p.hidden);
}

#[test]
fn slug_replaces_underscores() {
    assert_eq!(make_slug("a_b__c-d"), "a-b--c-d");
    assert_eq!(make_slug(""), "");
}

#[test]
fn files_without_delimiter_are_left_out_of_the_collection() {
    let files = vec![
        file("a", "+++\ndate = \"2024-01-01\"\n+++\nA"),
        file("notes.txt", "just some notes\n+++\n"),
        file("b", "+++\ndate = \"2024-02-01\"\n+++\nB"),
        file("broken", "+++\ndate = \n+++\nC"),
        file("empty", ""),
    ];
    let posts = load_posts(&files);
    assert_eq!(posts.len(), 2);
    assert!(posts.iter().all(|p| p.slug != "notes.txt" && p.slug != "broken" && p.slug != "empty"));
    let unsorted = collect_posts(&files);
    assert_eq!(unsorted.len(), 2);
    assert_eq!(unsorted[0].slug, "a");
    assert_eq!(unsorted[1].slug, "b");
}

#[test]
fn latest_date_is_sorted_first() {
    let files = vec![
        file("old", "+++\ndate = \"2023-12-31\"\n+++\nx"),
        file("newest", "+++\ndate = \"2024-03-01\"\n+++\nx"),
        file("undated", "+++\n+++\nx"),
        file("mid", "+++\ndate = \"2024-02-29\"\n+++\nx"),
    ];
    let posts = load_posts(&files);
    let slugs: Vec<&str> = posts.iter().map(|p| p.slug.as_str()).collect();
    assert_eq!(slugs, vec!["newest", "mid", "old", "undated"]);
    assert_eq!(posts[0].date, Date { year: 2024, month: 3, day: 1 });
}

#[test]
fn sorting_keeps_every_post() {
    let posts = vec![
        post("a", (2020, 1, 1), false),
        post("b", (2022, 5, 5), false),
        post("c", (2020, 1, 1), true),
        post("d", (2021, 12, 31), false),
        post("e", (2022, 5, 6), false),
    ];
    let sorted = sort_posts(posts);
    let slugs: Vec<&str> = sorted.iter().map(|p| p.slug.as_str()).collect();
    assert_eq!(slugs, vec!["e", "b", "d", "a", "c"]);
    assert_eq!(sort_posts(Vec::new()).len(), 0);
}

#[test]
fn post_is_found_by_its_slug_first_match() {
    let mut second = post("a", (2020, 1, 1), false);
    second.title = "second".to_string();
    let posts = vec![post("x", (2021, 1, 1), false), post("a", (2020, 1, 2), false), second];
    assert_eq!(find_post(&posts, "a"), Some(1));
    assert_eq!(find_post(&posts, "x"), Some(0));
    assert_eq!(find_post(&posts, "missing"), None);
    assert_eq!(find_post(&Vec::new(), "a"), None);
}

#[test]
fn home_leads_to_the_first_post_that_is_not_hidden() {
    let posts = vec![post("h", (2024, 1, 2), true), post("v", (2024, 1, 1), false)];
    assert_eq!(latest_post(&posts), Some(1));
    let hidden = vec![post("h1", (2024, 1, 2), true), post("h2", (2024, 1, 1), true)];
    assert_eq!(latest_post(&hidden), Some(0));
    assert_eq!(latest_post(&Vec::new()), None);
    assert_eq!(home(&posts), Some("/v".to_string()));
    assert_eq!(home(&hidden), Some("/h1".to_string()));
    assert_eq!(home(&Vec::new()), None);
}

#[test]
fn page_shows_the_first_post_with_the_slug() {
    let mut second = post("a", (2020, 1, 1), false);
    second.title = "second".to_string();
    let posts = vec![post("x", (2021, 1, 1), false), post("a", (2020, 1, 2), true), second];
    let p = postpage("a", &posts).expect("a post");
    assert_eq!(p.title, "Title of a");
    assert_eq!(p.date, Date { year: 2020, month: 1, day: 2 });
    assert_eq!(p.body, "<p>a</p>\n");
    assert!(p.hidden);
    assert!(postpage("A", &posts).is_none());
    assert!(postpage("", &posts).is_none());
}

#[test]
fn not_found_post_is_fixed() {
    let p = not_found();
    assert_eq!(p.slug, "404");
    assert_eq!(p.title, "Not Found");
    assert_eq!(p.date, Date { year: 1970, month: 1, day: 1 });
    assert_eq!(p.friendly_date, "404");
    assert_eq!(p.body, "<p>The requested post does not exist.</p>");
    assert_eq!(p.read_time, 0);
    assert!(p.hidden);
}

#[test]
fn xml_escape_replaces_the_five_characters() {
    assert_eq!(xml_escape("a & b"), "a &amp; b");
    assert_eq!(xml_escape("<a href=\"x\">'q'</a>"), "&lt;a href=&quot;x&quot;&gt;&apos;q&apos;&lt;/a&gt;");
    assert_eq!(xml_escape("&amp;"), "&amp;amp;");
    assert_eq!(xml_escape("plain é"), "plain é");
    assert_eq!(xml_escape(""), "");
}

#[test]
fn feed_holds_the_posts_that_are_not_hidden() {
    let mut shown = post("a&b", (2024, 3, 1), false);
    shown.title = "Tom & \"Jerry\"".to_string();
    shown.body = "Hello *there*".to_string();
    let posts = vec![post("secret", (2024, 3, 2), true), shown];
    let rss = rss_feed(&posts);
    let head = "<?xml version=\"1.0\" encoding=\"UTF-8\" ?><rss version=\"2.0\" xmlns:content=\"http://purl.org/rss/1.0/modules/content/\" xmlns:atom=\"http://www.w3.org/2005/Atom\"><channel><title>bl.elg.gg</title><link>https://bl.elg.gg/</link><description>bl.elg.gg</description><language>en-us</language><atom:link rel=\"self\" href=\"https://bl.elg.gg/rss\" type=\"application/rss+xml\" />";
    let item = "<item><title>Tom &amp; &quot;Jerry&quot;</title><link>https://bl.elg.gg/a&amp;b</link><description>Tom &amp; &quot;Jerry&quot;</description><pubDate>Fri, 01 Mar 2024 00:00:00 GMT</pubDate><guid>https://bl.elg.gg/a&amp;b</guid><content:encoded><![CDATA[<p>Hello <em>there</em></p>\n]]></content:encoded></item>";
    assert_eq!(rss, format!("{}{}</channel></rss>", head, item));
}

#[test]
fn feed_stops_at_ten_items() {
    let mut posts = Vec::new();
    for i in 0..14 {
        posts.push(post(&format!("p{}", i), (2024, 1, 20 - i), i % 4 == 0));
    }
    let rss = rss_feed(&posts);
    assert_eq!(rss.matches("<item>").count(), 10);
    assert!(!rss.contains("/p0<"));
    assert!(rss.contains("/p13<"));
    let empty = rss_feed(&Vec::new());
    assert!(empty.ends_with("type=\"application/rss+xml\" /></channel></rss>"));
}

#[test]
fn second_reload_within_the_window_is_throttled() {
    let files = vec![file("a", "+++\n+++\nA")];
    let more = vec![file("a", "+++\n+++\nA"), file("b", "+++\n+++\nB")];
    let mut state = ReloadState::new();
    let mut store = PostStore::new();
    assert_eq!(reload(&mut state, &mut store, 5, &files), "Posts reloaded.");
    assert_eq!(store.posts.len(), 1);
    assert_eq!(state.last_reload, Some(5));
    assert_eq!(reload(&mut state, &mut store, 5 + RELOAD_THROTTLE_NANOS - 1, &more), "Reload throttled.");
    assert_eq!(store.posts.len(), 1);
    assert_eq!(state.last_reload, Some(5));
    assert_eq!(reload(&mut state, &mut store, 3, &more), "Reload throttled.");
    assert_eq!(reload(&mut state, &mut store, 5 + RELOAD_THROTTLE_NANOS, &more), "Posts reloaded.");
    assert_eq!(store.posts.len(), 2);
    assert_eq!(state.last_reload, Some(5 + RELOAD_THROTTLE_NANOS));
    assert_eq!(RELOAD_THROTTLE_NANOS, RELOAD_THROTTLE_SECONDS * 1_000_000_000);
}

#[test]
fn throttle_check_does_not_change_the_state() {
    let state = ReloadState { last_reload: Some(100) };
    assert!(state.is_throttled(100));
    assert!(state.is_throttled(99));
    assert!(!state.is_throttled(100 + RELOAD_THROTTLE_NANOS));
    assert!(!ReloadState::new().is_throttled(0));
    assert_eq!(state.last_reload, Some(100));
}

#[test]
fn store_hands_out_copies_and_is_replaced_whole() {
    let mut store = PostStore::new();
    assert_eq!(store.snapshot().len(), 0);
    store.replace(vec![post("a", (2024, 1, 1), false), post("b", (2023, 1, 1), true)]);
    let mut copy = store.snapshot();
    assert_eq!(copy.len(), 2);
    assert_eq!(copy[1].slug, "b");
    assert!(copy[1].hidden);
    copy[0].slug = "changed".to_string();
    assert_eq!(store.posts[0].slug, "a");
    assert_eq!(store.posts[0].duplicate().title, "Title of a");
    store.load(&vec![file("z", "+++\n+++\nZ")]);
    assert_eq!(store.posts.len(), 1);
    assert_eq!(store.posts[0].slug, "z");
}

#[test]
fn version_is_reported() {
    assert_eq!(version().version, "0.1.0");
}

#[test]
fn posts_of_one_date_keep_the_order_of_their_files() {
    let files = vec![
        file("first", "+++\ndate = \"2024-01-01\"\n+++\nx"),
        file("later", "+++\ndate = \"2024-05-01\"\n+++\nx"),
        file("second", "+++\ndate = \"2024-01-01\"\n+++\nx"),
        file("third", "+++\ndate = \"2024-01-01\"\n+++\nx"),
    ];
    let posts = load_posts(&files);
    let slugs: Vec<&str> = posts.iter().map(|p| p.slug.as_str()).collect();
    assert_eq!(slugs, vec!["later", "first", "second", "third"]);
}
