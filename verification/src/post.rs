//! Posts: how one is assembled from a file, how a directory of files
//! becomes a collection sorted newest first, and how a post is looked up.

use vstd::prelude::*;
use vstd::multiset::Multiset;
use crate::frontmatter::{delimiter, line_text, split_frontmatter, split_post};
use crate::markdown::{estimate_read_time, markdown_events, markdown_html, markdown_to_html, read_minutes, words_in};
use crate::metadata::{date_of_field, friendly_text, is_later, long_date, read_metadata, resolved_hidden, resolved_title, toml_metadata, Date};
use crate::text::{append_str, chars_of, string_of};

verus! {

/// One article.
#[derive(Clone, Debug)]
pub struct Post {
    pub slug: String,
    pub title: String,
    pub date: Date,
    pub friendly_date: String,
    pub body: String,
    pub read_time: u32,
    pub hidden: bool,
}

pub ghost struct PostView {
    pub slug: Seq<char>,
    pub title: Seq<char>,
    pub date: Date,
    pub friendly_date: Seq<char>,
    pub body: Seq<char>,
    pub read_time: u32,
    pub hidden: bool,
}

impl View for Post {
    type V = PostView;

    open spec fn view(&self) -> PostView {
        PostView {
            slug: self.slug@,
            title: self.title@,
            date: self.date,
            friendly_date: self.friendly_date@,
            body: self.body@,
            read_time: self.read_time,
            hidden: self.hidden,
        }
    }
}

impl Post {
    /// A copy of this post.
    pub fn duplicate(&self) -> (p: Post)
        ensures
            p@ == self@,
    {
        Post {
            slug: self.slug.clone(),
            title: self.title.clone(),
            date: self.date,
            friendly_date: self.friendly_date.clone(),
            body: self.body.clone(),
            read_time: self.read_time,
            hidden: self.hidden,
        }
    }
}

pub open spec fn post_views(posts: Seq<Post>) -> Seq<PostView> {
    Seq::new(posts.len(), |i: int| posts[i]@)
}

/// A file of the posts directory: its name and what it holds.
pub struct SourceFile {
    pub name: String,
    pub content: String,
}

pub ghost struct SourceFileView {
    pub name: Seq<char>,
    pub content: Seq<char>,
}

impl View for SourceFile {
    type V = SourceFileView;

    open spec fn view(&self) -> SourceFileView {
        SourceFileView { name: self.name@, content: self.content@ }
    }
}

pub open spec fn file_views(files: Seq<SourceFile>) -> Seq<SourceFileView> {
    Seq::new(files.len(), |i: int| files[i]@)
}

/// A file name with each underscore replaced by a hyphen.
pub open spec fn slug_of(name: Seq<char>) -> Seq<char> {
    Seq::new(
        name.len(),
        |i: int|
            if name[i] == '_' {
                '-'
            } else {
                name[i]
            },
    )
}

/// The slug of a file name.
pub fn make_slug(name: &str) -> (slug: String)
    ensures
        slug@ == slug_of(name@),
{
    let s = chars_of(name);
    let mut out: Vec<char> = Vec::new();
    let mut i: usize = 0;
    while i < s.len()
        invariant
            i <= s.len(),
            out@ == slug_of(s@.take(i as int)),
        decreases s.len() - i,
    {
        let c: char = s[i];
        out.push(if c == '_' { '-' } else { c });
        i += 1;
        assert(out@ =~= slug_of(s@.take(i as int)));
    }
    assert(s@.take(s@.len() as int) =~= s@);
    assert(out@.subrange(0, out@.len() as int) =~= out@);
    string_of(&out, 0, out.len())
}

/// The reading time of a markdown text.
pub open spec fn read_time_of_text(md: Seq<char>) -> u32 {
    read_minutes(words_in(markdown_events(md), markdown_events(md).len() as int)) as u32
}

/// The post that a file gives: none where its first line is no delimiter or
/// its metadata block is no TOML document; else the post with each field
/// resolved, its body rendered and its reading time estimated.
pub open spec fn post_of(name: Seq<char>, content: Seq<char>) -> Option<PostView> {
    match split_frontmatter(content) {
        None => None,
        Some((block, body)) => match toml_metadata(block) {
            None => None,
            Some(raw) => Some(
                PostView {
                    slug: slug_of(name),
                    title: resolved_title(raw.title, name),
                    date: date_of_field(raw.date),
                    friendly_date: friendly_text(date_of_field(raw.date)),
                    body: markdown_html(body),
                    read_time: read_time_of_text(body),
                    hidden: resolved_hidden(raw.hidden),
                },
            ),
        },
    }
}

/// Builds the post of one file, or `None` where the file is no post.
pub fn build_post(file_name: &str, content: &str) -> (r: Option<Post>)
    ensures
        match r {
            Some(p) => post_of(file_name@, content@) == Some(p@),
            None => post_of(file_name@, content@) is None,
        },
{
    let (block, body) = match split_post(content) {
        None => {
            return None;
        },
        Some(parts) => parts,
    };
    let meta = match read_metadata(block.as_str(), file_name) {
        None => {
            return None;
        },
        Some(m) => m,
    };
    let friendly_date = match long_date(meta.date) {
        Some(t) => t,
        None => String::new(),
    };
    Some(
        Post {
            slug: make_slug(file_name),
            title: meta.title,
            date: meta.date,
            friendly_date,
            body: markdown_to_html(body.as_str()),
            read_time: estimate_read_time(body.as_str()),
            hidden: meta.hidden,
        },
    )
}

/// The posts of the first `n` files, in the order of the files.
pub open spec fn posts_of_prefix(files: Seq<SourceFileView>, n: int) -> Seq<PostView>
    decreases n,
{
    if n <= 0 {
        Seq::empty()
    } else {
        match post_of(files[n - 1].name, files[n - 1].content) {
            Some(p) => posts_of_prefix(files, n - 1).push(p),
            None => posts_of_prefix(files, n - 1),
        }
    }
}

/// The posts of a sequence of files, in the order of the files.
pub open spec fn posts_of(files: Seq<SourceFileView>) -> Seq<PostView> {
    posts_of_prefix(files, files.len() as int)
}

/// A file whose first line is not `+++` gives no post.
pub proof fn lemma_undelimited_file_gives_no_post(name: Seq<char>, content: Seq<char>)
    requires
        content.len() == 0 || line_text(content, 0) != delimiter(),
    ensures
        post_of(name, content) is None,
{
}

/// A file whose first line is not `+++` adds nothing to a collection.
pub proof fn lemma_undelimited_file_is_absent(files: Seq<SourceFileView>, file: SourceFileView)
    requires
        file.content.len() == 0 || line_text(file.content, 0) != delimiter(),
    ensures
        posts_of(files.push(file)) == posts_of(files),
{
    let all = files.push(file);
    lemma_posts_of_prefix_agrees(all, files, files.len() as int);
}

/// How many of the first `n` files begin with a delimiter line.
pub open spec fn delimited_in(files: Seq<SourceFileView>, n: int) -> nat
    decreases n,
{
    if n <= 0 {
        0
    } else {
        delimited_in(files, n - 1) + if split_frontmatter(files[n - 1].content) is Some {
            1nat
        } else {
            0nat
        }
    }
}

/// A collection holds at most one post for each file that begins with a
/// delimiter line: the other files do not count towards its size.
pub proof fn lemma_collection_size(files: Seq<SourceFileView>, n: int)
    ensures
        posts_of_prefix(files, n).len() <= delimited_in(files, n),
    decreases n,
{
    if n > 0 {
        lemma_collection_size(files, n - 1);
    }
}

proof fn lemma_posts_of_prefix_agrees(a: Seq<SourceFileView>, b: Seq<SourceFileView>, n: int)
    requires
        n <= a.len(),
        n <= b.len(),
        forall|i: int| 0 <= i < n ==> a[i] == b[i],
    ensures
        posts_of_prefix(a, n) == posts_of_prefix(b, n),
    decreases n,
{
    if n > 0 {
        lemma_posts_of_prefix_agrees(a, b, n - 1);
    }
}

/// Builds the post of each file that is one, in the order of the files.
pub fn collect_posts(files: &Vec<SourceFile>) -> (posts: Vec<Post>)
    ensures
        post_views(posts@) == posts_of(file_views(files@)),
{
    let ghost fv = file_views(files@);
    let mut posts: Vec<Post> = Vec::new();
    let mut i: usize = 0;
    while i < files.len()
        invariant
            i <= files.len(),
            fv == file_views(files@),
            post_views(posts@) == posts_of_prefix(fv, i as int),
        decreases files.len() - i,
    {
        let ghost before = posts@;
        assert(fv[i as int] == files@[i as int]@);
        match build_post(files[i].name.as_str(), files[i].content.as_str()) {
            Some(p) => {
                posts.push(p);
                assert(post_views(posts@) =~= post_views(before).push(p@));
            },
            None => {},
        }
        i += 1;
    }
    posts
}

/// No post stands before one of a later date.
pub open spec fn newest_first(posts: Seq<PostView>) -> bool {
    forall|i: int, j: int| 0 <= i < j < posts.len() ==> !is_later(posts[j].date, posts[i].date)
}

/// In a collection sorted newest first, no post is later than the first.
pub proof fn lemma_first_is_latest(posts: Seq<PostView>, i: int)
    requires
        newest_first(posts),
        0 <= i < posts.len(),
    ensures
        !is_later(posts[i].date, posts[0].date),
{
}

/// The test for a post of the given date.
pub open spec fn has_date(d: Date) -> spec_fn(PostView) -> bool {
    |p: PostView| p.date == d
}

/// The posts of one date, in their order.
pub open spec fn of_date(posts: Seq<PostView>, d: Date) -> Seq<PostView> {
    posts.filter(has_date(d))
}

proof fn lemma_none_of_date(posts: Seq<PostView>, d: Date)
    requires
        forall|i: int| 0 <= i < posts.len() ==> posts[i].date != d,
    ensures
        of_date(posts, d) =~= Seq::<PostView>::empty(),
    decreases posts.len(),
{
    if posts.len() > 0 {
        lemma_none_of_date(posts.drop_last(), d);
        posts.drop_last().lemma_filter_push(posts.last(), has_date(d));
        assert(posts.drop_last().push(posts.last()) =~= posts);
    } else {
        posts.lemma_filter_len(has_date(d));
    }
}

proof fn lemma_of_date_insert(posts: Seq<PostView>, k: int, x: PostView, d: Date)
    requires
        0 <= k <= posts.len(),
    ensures
        of_date(posts, d) == of_date(posts.take(k), d) + of_date(posts.skip(k), d),
        of_date(posts.insert(k, x), d) == of_date(posts.take(k).push(x), d) + of_date(
            posts.skip(k),
            d,
        ),
        of_date(posts.take(k).push(x), d) == if x.date == d {
            of_date(posts.take(k), d).push(x)
        } else {
            of_date(posts.take(k), d)
        },
        of_date(posts.push(x), d) == if x.date == d {
            of_date(posts, d).push(x)
        } else {
            of_date(posts, d)
        },
{
    assert(posts =~= posts.take(k) + posts.skip(k));
    assert(posts.insert(k, x) =~= posts.take(k).push(x) + posts.skip(k));
    Seq::filter_distributes_over_add(posts.take(k), posts.skip(k), has_date(d));
    Seq::filter_distributes_over_add(posts.take(k).push(x), posts.skip(k), has_date(d));
    posts.take(k).lemma_filter_push(x, has_date(d));
    posts.lemma_filter_push(x, has_date(d));
}

proof fn lemma_insert_to_multiset<A>(s: Seq<A>, k: int, x: A)
    requires
        0 <= k <= s.len(),
    ensures
        s.insert(k, x).to_multiset() =~= s.to_multiset().insert(x),
{
    let t = s.insert(k, x);
    assert(t.remove(k) =~= s);
    assert(t[k] == x);
    vstd::seq_lib::to_multiset_remove(t, k);
    t.to_multiset_ensures();
    assert(t.contains(x));
}

proof fn lemma_empty_to_multiset<A>()
    ensures
        Seq::<A>::empty().to_multiset() =~= Multiset::<A>::empty(),
{
    let e = Seq::<A>::empty();
    e.to_multiset_ensures();
    assert forall|a: A| e.to_multiset().count(a) == 0 by {
        assert(!e.contains(a));
    }
}

/// Sorts posts by date, newest first; the posts of one date keep their
/// order.
pub fn sort_posts(posts: Vec<Post>) -> (sorted: Vec<Post>)
    ensures
        newest_first(post_views(sorted@)),
        post_views(sorted@).to_multiset() == post_views(posts@).to_multiset(),
        sorted@.len() == posts@.len(),
        forall|d: Date| of_date(post_views(sorted@), d) == of_date(post_views(posts@), d),
{
    let ghost original = post_views(posts@);
    let mut rest = posts;
    let mut sorted: Vec<Post> = Vec::new();
    proof {
        lemma_empty_to_multiset::<PostView>();
        assert(post_views(sorted@) =~= Seq::<PostView>::empty());
        assert(Multiset::<PostView>::empty().add(original.to_multiset()) =~= original.to_multiset());
        assert forall|d: Date|
            of_date(post_views(rest@), d) + of_date(post_views(sorted@), d) == of_date(
                original,
                d,
            ) by {
            lemma_none_of_date(post_views(sorted@), d);
        }
    }
    while rest.len() > 0
        invariant
            newest_first(post_views(sorted@)),
            forall|d: Date|
                of_date(post_views(rest@), d) + of_date(post_views(sorted@), d) == of_date(
                    original,
                    d,
                ),
            post_views(sorted@).to_multiset().add(post_views(rest@).to_multiset())
                == original.to_multiset(),
            sorted@.len() + rest@.len() == original.len(),
        decreases rest.len(),
    {
        let ghost rest_before = rest@;
        let ghost sorted_before = sorted@;
        let p = rest.pop().unwrap();
        let mut k: usize = 0;
        while k < sorted.len() && sorted[k].date.later_than(&p.date)
            invariant
                k <= sorted.len(),
                forall|i: int| 0 <= i < k ==> is_later(#[trigger] sorted@[i].date, p.date),
            decreases sorted.len() - k,
        {
            k += 1;
        }
        sorted.insert(k, p);
        proof {
            let sv = post_views(sorted_before);
            assert(post_views(sorted@) =~= sv.insert(k as int, p@));
            assert(post_views(rest_before) =~= post_views(rest@).push(p@));
            lemma_insert_to_multiset(sv, k as int, p@);
            vstd::seq_lib::to_multiset_build(post_views(rest@), p@);
            assert(post_views(sorted@).to_multiset().add(post_views(rest@).to_multiset())
                =~= sv.to_multiset().add(post_views(rest_before).to_multiset()));
            let nv = post_views(sorted@);
            let rv = post_views(rest@);
            assert forall|d: Date| of_date(rv, d) + of_date(nv, d) == of_date(original, d) by {
                lemma_of_date_insert(sv, k as int, p@, d);
                lemma_of_date_insert(rv, 0, p@, d);
                assert(of_date(post_views(rest_before), d) + of_date(sv, d) == of_date(
                    original,
                    d,
                ));
                if p@.date == d {
                    assert forall|i: int| 0 <= i < sv.take(k as int).len() implies sv.take(
                        k as int,
                    )[i].date != d by {
                        assert(is_later(sorted_before[i].date, p.date));
                    }
                    lemma_none_of_date(sv.take(k as int), d);
                    assert(of_date(rv, d) + of_date(nv, d) =~= of_date(rv, d).push(p@) + of_date(
                        sv,
                        d,
                    ));
                }
            }
            assert forall|i: int, j: int| 0 <= i < j < nv.len() implies !is_later(
                nv[j].date,
                nv[i].date,
            ) by {
                if j < k {
                    assert(nv[i] == sv[i] && nv[j] == sv[j]);
                } else if j == k {
                    assert(nv[i] == sv[i]);
                    assert(is_later(sorted_before[i].date, p.date));
                } else if i < k {
                    assert(nv[i] == sv[i] && nv[j] == sv[j - 1]);
                } else if i == k {
                    assert(nv[j] == sv[j - 1]);
                    assert(!is_later(sv[k as int].date, p.date));
                    if j - 1 > k {
                        assert(!is_later(sv[j - 1].date, sv[k as int].date));
                    }
                } else {
                    assert(nv[i] == sv[i - 1] && nv[j] == sv[j - 1]);
                }
            }
        }
    }
    proof {
        lemma_empty_to_multiset::<PostView>();
        assert(post_views(rest@) =~= Seq::<PostView>::empty());
        assert(post_views(sorted@).to_multiset().add(Seq::<PostView>::empty().to_multiset())
            =~= post_views(sorted@).to_multiset());
        assert forall|d: Date| of_date(post_views(sorted@), d) == of_date(original, d) by {
            lemma_none_of_date(post_views(rest@), d);
            assert(of_date(post_views(rest@), d) + of_date(post_views(sorted@), d) =~= of_date(
                post_views(sorted@),
                d,
            ));
        }
    }
    sorted
}

/// Builds the collection of a directory: the post of each file that is
/// one, sorted newest first, with the posts of one date in the order of
/// their files.
pub fn load_posts(files: &Vec<SourceFile>) -> (posts: Vec<Post>)
    ensures
        newest_first(post_views(posts@)),
        post_views(posts@).to_multiset() == posts_of(file_views(files@)).to_multiset(),
        posts@.len() == posts_of(file_views(files@)).len(),
        forall|d: Date|
            of_date(post_views(posts@), d) == of_date(posts_of(file_views(files@)), d),
{
    sort_posts(collect_posts(files))
}

/// The index of the first post with the given slug.
pub fn find_post(posts: &Vec<Post>, slug: &str) -> (r: Option<usize>)
    ensures
        match r {
            Some(i) => i < posts@.len() && posts@[i as int].slug@ == slug@ && forall|j: int|
                0 <= j < i ==> posts@[j].slug@ != slug@,
            None => forall|j: int| 0 <= j < posts@.len() ==> posts@[j].slug@ != slug@,
        },
{
    let wanted = slug.to_owned();
    let mut i: usize = 0;
    while i < posts.len()
        invariant
            i <= posts.len(),
            wanted@ == slug@,
            forall|j: int| 0 <= j < i ==> posts@[j].slug@ != slug@,
        decreases posts.len() - i,
    {
        if posts[i].slug == wanted {
            return Some(i);
        }
        i += 1;
    }
    None
}

/// `i` is the post that the home page leads to: the first that is not
/// hidden, or the first of all where every post is hidden.
pub open spec fn is_latest(posts: Seq<PostView>, i: int) -> bool {
    &&& 0 <= i < posts.len()
    &&& forall|j: int| 0 <= j < i ==> posts[j].hidden
    &&& posts[i].hidden ==> i == 0 && forall|j: int| 0 <= j < posts.len() ==> posts[j].hidden
}

/// `i` is the first post with the given slug.
pub open spec fn is_first_with_slug(posts: Seq<PostView>, slug: Seq<char>, i: int) -> bool {
    &&& 0 <= i < posts.len()
    &&& posts[i].slug == slug
    &&& forall|j: int| 0 <= j < i ==> posts[j].slug != slug
}

/// The index of the post that the home page leads to; none in an empty
/// collection.
pub fn latest_post(posts: &Vec<Post>) -> (r: Option<usize>)
    ensures
        match r {
            Some(i) => is_latest(post_views(posts@), i as int),
            None => posts@.len() == 0,
        },
{
    if posts.len() == 0 {
        return None;
    }
    let mut i: usize = 0;
    while i < posts.len()
        invariant
            i <= posts.len(),
            forall|j: int| 0 <= j < i ==> post_views(posts@)[j].hidden,
        decreases posts.len() - i,
    {
        if !posts[i].hidden {
            return Some(i);
        }
        i += 1;
    }
    Some(0)
}

/// The path that the home page redirects to: that of the first post that
/// is not hidden, or of the first post where all are hidden; none where
/// there is no post.
pub fn home(posts: &Vec<Post>) -> (r: Option<String>)
    ensures
        match r {
            Some(path) => exists|i: int|
                is_latest(post_views(posts@), i) && path@ == "/"@ + post_views(posts@)[i].slug,
            None => posts@.len() == 0,
        },
{
    match latest_post(posts) {
        Some(i) => {
            let mut out: Vec<char> = Vec::new();
            append_str(&mut out, "/");
            append_str(&mut out, posts[i].slug.as_str());
            assert(out@ =~= "/"@ + post_views(posts@)[i as int].slug);
            assert(out@.subrange(0, out@.len() as int) =~= out@);
            Some(string_of(&out, 0, out.len()))
        },
        None => None,
    }
}

/// The post of a page: the first with the given slug, if there is one.
pub fn postpage(postname: &str, posts: &Vec<Post>) -> (r: Option<Post>)
    ensures
        match r {
            Some(p) => exists|i: int|
                is_first_with_slug(post_views(posts@), postname@, i) && p@ == post_views(
                    posts@,
                )[i],
            None => forall|j: int| 0 <= j < posts@.len() ==> post_views(posts@)[j].slug != postname@,
        },
{
    match find_post(posts, postname) {
        Some(i) => {
            let p = posts[i].duplicate();
            assert(is_first_with_slug(post_views(posts@), postname@, i as int));
            Some(p)
        },
        None => None,
    }
}

/// The view of the post shown where no post has the slug asked for.
pub open spec fn not_found_view() -> PostView {
    PostView {
        slug: "404"@,
        title: "Not Found"@,
        date: crate::metadata::epoch(),
        friendly_date: "404"@,
        body: "<p>The requested post does not exist.</p>"@,
        read_time: 0,
        hidden: true,
    }
}

/// The post shown where no post has the slug asked for.
pub fn not_found() -> (p: Post)
    ensures
        p@ == not_found_view(),
{
    Post {
        slug: "404".to_owned(),
        title: "Not Found".to_owned(),
        date: Date::epoch(),
        friendly_date: "404".to_owned(),
        body: "<p>The requested post does not exist.</p>".to_owned(),
        read_time: 0,
        hidden: true,
    }
}

} // verus!
