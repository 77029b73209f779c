//! The post store and the throttle of its reload.

use vstd::prelude::*;
use crate::metadata::Date;
use crate::post::{file_views, load_posts, newest_first, of_date, post_views, posts_of, Post, SourceFile};

verus! {

/// The least time between two reloads that take effect, in seconds.
pub const RELOAD_THROTTLE_SECONDS: u64 = 10;

/// The same window in nanoseconds.
pub const RELOAD_THROTTLE_NANOS: u64 = 10_000_000_000;

/// The current collection of posts. It is only ever replaced as a whole.
pub struct PostStore {
    pub posts: Vec<Post>,
}

impl View for PostStore {
    type V = Seq<crate::post::PostView>;

    open spec fn view(&self) -> Seq<crate::post::PostView> {
        post_views(self.posts@)
    }
}

impl PostStore {
    /// An empty store.
    pub fn new() -> (store: PostStore)
        ensures
            store@.len() == 0,
    {
        PostStore { posts: Vec::new() }
    }

    /// A copy of the current collection.
    pub fn snapshot(&self) -> (copy: Vec<Post>)
        ensures
            post_views(copy@) == self@,
    {
        let mut copy: Vec<Post> = Vec::new();
        let mut i: usize = 0;
        while i < self.posts.len()
            invariant
                i <= self.posts.len(),
                post_views(copy@) == self@.take(i as int),
            decreases self.posts.len() - i,
        {
            let ghost before = copy@;
            let p = self.posts[i].duplicate();
            assert(self@[i as int] == p@);
            copy.push(p);
            assert(post_views(copy@) =~= post_views(before).push(p@));
            i += 1;
            assert(post_views(copy@) =~= self@.take(i as int));
        }
        assert(self@.take(self.posts@.len() as int) =~= self@);
        copy
    }

    /// Puts a new collection in the place of the current one.
    pub fn replace(&mut self, new_posts: Vec<Post>)
        ensures
            final(self).posts@ == new_posts@,
    {
        self.posts = new_posts;
    }

    /// Rebuilds the collection from the files of the posts directory.
    pub fn load(&mut self, files: &Vec<SourceFile>)
        ensures
            newest_first(final(self)@),
            final(self)@.to_multiset() == posts_of(file_views(files@)).to_multiset(),
            final(self)@.len() == posts_of(file_views(files@)).len(),
            forall|d: Date| of_date(final(self)@, d) == of_date(posts_of(file_views(files@)), d),
    {
        let posts = load_posts(files);
        self.replace(posts);
    }
}

/// When the store was last reloaded, in nanoseconds of a clock that does
/// not run backwards; `None` before the first reload.
pub struct ReloadState {
    pub last_reload: Option<u64>,
}

/// A reload asked for at `now` comes too soon after the last one.
pub open spec fn throttled(last: Option<u64>, now: u64) -> bool {
    match last {
        Some(t) => now - t < RELOAD_THROTTLE_NANOS,
        None => false,
    }
}

/// The time of the last reload after one was asked for at `now`.
pub open spec fn after_request(last: Option<u64>, now: u64) -> Option<u64> {
    if throttled(last, now) {
        last
    } else {
        Some(now)
    }
}

/// Of two requests less than the window apart, the first of which took
/// effect, the second is throttled and changes nothing; a request at least
/// the window after one that took effect takes effect too.
pub proof fn lemma_reload_window(last: Option<u64>, first: u64, second: u64)
    requires
        !throttled(last, first),
        first <= second,
    ensures
        second - first < RELOAD_THROTTLE_NANOS ==> throttled(after_request(last, first), second)
            && after_request(after_request(last, first), second) == after_request(last, first),
        second - first >= RELOAD_THROTTLE_NANOS ==> !throttled(after_request(last, first), second)
            && after_request(after_request(last, first), second) == Some(second),
{
}

pub open spec fn throttled_message() -> Seq<char> {
    "Reload throttled."@
}

pub open spec fn reloaded_message() -> Seq<char> {
    "Posts reloaded."@
}

impl ReloadState {
    /// The state before any reload.
    pub fn new() -> (state: ReloadState)
        ensures
            state.last_reload is None,
    {
        ReloadState { last_reload: None }
    }

    /// Would a reload asked for at `now` be throttled?
    pub fn is_throttled(&self, now: u64) -> (b: bool)
        ensures
            b == throttled(self.last_reload, now),
    {
        match self.last_reload {
            Some(t) => now < t || now - t < RELOAD_THROTTLE_NANOS,
            None => false,
        }
    }
}

/// Handles a request to reload at time `now`. A request that comes too soon
/// is answered as throttled and leaves the store and the state as they are;
/// any other rebuilds the store from the files and records the time.
pub fn reload(state: &mut ReloadState, store: &mut PostStore, now: u64, files: &Vec<SourceFile>) -> (message: String)
    ensures
        final(state).last_reload == after_request(old(state).last_reload, now),
        throttled(old(state).last_reload, now) ==> message@ == throttled_message()
            && final(store).posts@ == old(store).posts@,
        !throttled(old(state).last_reload, now) ==> message@ == reloaded_message()
            && newest_first(final(store)@)
            && final(store)@.to_multiset() == posts_of(file_views(files@)).to_multiset()
            && forall|d: Date|
            of_date(final(store)@, d) == of_date(posts_of(file_views(files@)), d),
{
    if state.is_throttled(now) {
        return "Reload throttled.".to_owned();
    }
    store.load(files);
    state.last_reload = Some(now);
    "Posts reloaded.".to_owned()
}

} // verus!
