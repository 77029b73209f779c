//! Markdown rendering: the event stream of the markdown parser is rewritten
//! so that every top-level heading becomes an anchored `<h1>`, and the
//! reading time of a text is estimated from its words.

use vstd::prelude::*;
use crate::callout::{convert_callout_markdown, expand_callouts};
use crate::text::{append_range, append_str, chars_of, is_space, is_whitespace, string_of};

verus! {

/// What the heading rewrite reads of one parser event.
pub enum MdEvent {
    /// The start of a heading of the highest rank.
    HeadingStart,
    /// The end of a heading of the highest rank.
    HeadingEnd,
    /// A run of literal text.
    Text(String),
    /// Any other event.
    Other,
}

pub ghost enum EventShape {
    HeadingStart,
    HeadingEnd,
    Text(Seq<char>),
    Other,
}

impl View for MdEvent {
    type V = EventShape;

    open spec fn view(&self) -> EventShape {
        match self {
            MdEvent::HeadingStart => EventShape::HeadingStart,
            MdEvent::HeadingEnd => EventShape::HeadingEnd,
            MdEvent::Text(t) => EventShape::Text(t@),
            MdEvent::Other => EventShape::Other,
        }
    }
}

pub open spec fn shapes(v: Seq<MdEvent>) -> Seq<EventShape> {
    Seq::new(v.len(), |i: int| v[i]@)
}

/// One item of the stream that is rendered: a parser event kept as it is,
/// given by its index, or a piece of raw HTML.
pub enum Step {
    Keep(usize),
    Raw(String),
}

pub ghost enum StepShape {
    Keep(int),
    Raw(Seq<char>),
}

impl View for Step {
    type V = StepShape;

    open spec fn view(&self) -> StepShape {
        match self {
            Step::Keep(i) => StepShape::Keep(*i as int),
            Step::Raw(h) => StepShape::Raw(h@),
        }
    }
}

pub open spec fn step_shapes(v: Seq<Step>) -> Seq<StepShape> {
    Seq::new(v.len(), |i: int| v[i]@)
}

/// The events that the markdown parser, with every extension switched on,
/// yields for a text.
pub uninterp spec fn markdown_events(md: Seq<char>) -> Seq<EventShape>;

/// The HTML that the markdown crate writes for the given steps over the
/// events of a text.
pub uninterp spec fn rendered_html(md: Seq<char>, steps: Seq<StepShape>) -> Seq<char>;

/// The Unicode lower-case form of a text.
pub uninterp spec fn lowercase_of(s: Seq<char>) -> Seq<char>;

/// `pulldown_cmark::Parser::new_ext` with `Options::all()`: the events of
/// the text in order, each reduced to what the heading rewrite reads. The
/// contract only names the stream; it claims nothing of its contents.
#[verifier::external_body]
pub(crate) fn parse_events(md: &str) -> (events: Vec<MdEvent>)
    ensures
        shapes(events@) == markdown_events(md@),
{
    pulldown_cmark::Parser::new_ext(md, pulldown_cmark::Options::all()).map(
        |e| match e {
            pulldown_cmark::Event::Start(
                pulldown_cmark::Tag::Heading { level: pulldown_cmark::HeadingLevel::H1, .. },
            ) => MdEvent::HeadingStart,
            pulldown_cmark::Event::End(
                pulldown_cmark::TagEnd::Heading(pulldown_cmark::HeadingLevel::H1),
            ) => MdEvent::HeadingEnd,
            pulldown_cmark::Event::Text(t) => MdEvent::Text(t.to_string()),
            _ => MdEvent::Other,
        },
    ).collect()
}

/// `pulldown_cmark::html::push_html` on the events of the text that the
/// steps select, with each raw step handed over as an HTML event. The
/// contract only names the output; the indices must lie within the stream.
#[verifier::external_body]
pub(crate) fn render_steps(md: &str, steps: &Vec<Step>) -> (html: String)
    requires
        forall|i: int|
            0 <= i < steps@.len() ==> (#[trigger] steps@[i] matches Step::Keep(k) ==> k
                < markdown_events(md@).len()),
    ensures
        html@ == rendered_html(md@, step_shapes(steps@)),
{
    let events: Vec<pulldown_cmark::Event> = pulldown_cmark::Parser::new_ext(
        md,
        pulldown_cmark::Options::all(),
    ).collect();
    let mut html = String::new();
    pulldown_cmark::html::push_html(
        &mut html,
        steps.iter().map(
            |s| match s {
                Step::Keep(i) => events[*i].clone(),
                Step::Raw(h) => pulldown_cmark::Event::Html(h.as_str().into()),
            },
        ),
    );
    html
}

/// `str::to_lowercase`: the contract only names the result.
#[verifier::external_body]
pub(crate) fn lowercase(s: &str) -> (r: String)
    ensures
        r@ == lowercase_of(s@),
{
    s.to_lowercase()
}

/// An anchor keeps ASCII letters, digits and spaces.
pub open spec fn kept_in_anchor(c: char) -> bool {
    ('a' <= c && c <= 'z') || ('A' <= c && c <= 'Z') || ('0' <= c && c <= '9') || c == ' '
}

/// The anchor of a lower-cased heading: every character that is not an
/// ASCII letter, digit or space is dropped, and each space becomes a hyphen.
pub open spec fn anchor_id(lowered: Seq<char>) -> Seq<char>
    decreases lowered.len(),
{
    if lowered.len() == 0 {
        Seq::empty()
    } else {
        let c = lowered.last();
        let rest = anchor_id(lowered.drop_last());
        if !kept_in_anchor(c) {
            rest
        } else if c == ' ' {
            rest.push('-')
        } else {
            rest.push(c)
        }
    }
}

/// The anchored heading for a heading text.
pub open spec fn heading_html(text: Seq<char>) -> Seq<char> {
    let id = anchor_id(lowercase_of(text));
    "<h1 id=\""@ + id + "\"><a href=\"#"@ + id + "\">"@ + text + "</a></h1>"@
}

/// The anchor of an already lower-cased heading text.
pub fn anchor_id_of(lowered: &str) -> (id: String)
    ensures
        id@ == anchor_id(lowered@),
{
    let v = anchor_chars(&chars_of(lowered));
    let id = string_of(&v, 0, v.len());
    assert(v@.subrange(0, v@.len() as int) =~= v@);
    id
}

fn anchor_chars(l: &Vec<char>) -> (id: Vec<char>)
    ensures
        id@ == anchor_id(l@),
{
    let mut id: Vec<char> = Vec::new();
    let mut i: usize = 0;
    while i < l.len()
        invariant
            i <= l.len(),
            id@ == anchor_id(l@.take(i as int)),
        decreases l.len() - i,
    {
        let c: char = l[i];
        assert(l@.take(i + 1).drop_last() =~= l@.take(i as int));
        if ('a' <= c && c <= 'z') || ('A' <= c && c <= 'Z') || ('0' <= c && c <= '9') {
            id.push(c);
        } else if c == ' ' {
            id.push('-');
        }
        i += 1;
    }
    assert(l@.take(l@.len() as int) =~= l@);
    id
}

/// The anchored `<h1>` for a heading whose text is `text`.
pub fn heading_anchor(text: &Vec<char>) -> (html: String)
    ensures
        html@ == heading_html(text@),
{
    let plain = string_of(text, 0, text.len());
    assert(text@.subrange(0, text@.len() as int) =~= text@);
    let lowered = lowercase(plain.as_str());
    let id = anchor_chars(&chars_of(lowered.as_str()));
    let mut out: Vec<char> = Vec::new();
    append_str(&mut out, "<h1 id=\"");
    append_range(&mut out, &id, 0, id.len());
    append_str(&mut out, "\"><a href=\"#");
    append_range(&mut out, &id, 0, id.len());
    append_str(&mut out, "\">");
    append_range(&mut out, text, 0, text.len());
    append_str(&mut out, "</a></h1>");
    assert(id@.subrange(0, id@.len() as int) =~= id@);
    assert(out@ =~= heading_html(text@));
    let html = string_of(&out, 0, out.len());
    assert(out@.subrange(0, out@.len() as int) =~= out@);
    html
}

/// The state of the heading rewrite after some events: the steps written so
/// far, whether a top-level heading is open, and its text so far.
pub ghost struct Rewrite {
    pub steps: Seq<StepShape>,
    pub in_heading: bool,
    pub heading: Seq<char>,
}

/// What one event, the one at `index`, does to the rewrite. A heading start
/// opens a heading and clears its text; inside a heading, text is collected,
/// the heading end writes the anchored heading, and anything else is left
/// out; outside a heading every event is kept.
pub open spec fn rewrite_step(st: Rewrite, e: EventShape, index: int) -> Rewrite {
    if e is HeadingStart {
        Rewrite { steps: st.steps, in_heading: true, heading: Seq::empty() }
    } else if !st.in_heading {
        Rewrite { steps: st.steps.push(StepShape::Keep(index)), ..st }
    } else {
        match e {
            EventShape::Text(t) => Rewrite { heading: st.heading + t, ..st },
            EventShape::HeadingEnd => Rewrite {
                steps: st.steps.push(StepShape::Raw(heading_html(st.heading))),
                in_heading: false,
                heading: st.heading,
            },
            _ => st,
        }
    }
}

/// The rewrite after the first `n` events.
pub open spec fn rewrite_prefix(events: Seq<EventShape>, n: int) -> Rewrite
    decreases n,
{
    if n <= 0 {
        Rewrite { steps: Seq::empty(), in_heading: false, heading: Seq::empty() }
    } else {
        rewrite_step(rewrite_prefix(events, n - 1), events[n - 1], n - 1)
    }
}

/// The steps to render for a stream of events.
pub open spec fn anchor_plan(events: Seq<EventShape>) -> Seq<StepShape> {
    rewrite_prefix(events, events.len() as int).steps
}

/// Rewrites a stream of events: each top-level heading is replaced by one
/// anchored heading made of its plain text, everything else is kept.
pub fn plan_anchors(events: &Vec<MdEvent>) -> (steps: Vec<Step>)
    ensures
        step_shapes(steps@) == anchor_plan(shapes(events@)),
        forall|i: int|
            0 <= i < steps@.len() ==> (#[trigger] steps@[i] matches Step::Keep(k) ==> k
                < events@.len()),
{
    let ghost shp = shapes(events@);
    let mut steps: Vec<Step> = Vec::new();
    let mut in_heading = false;
    let mut heading: Vec<char> = Vec::new();
    let mut i: usize = 0;
    while i < events.len()
        invariant
            i <= events.len(),
            shp == shapes(events@),
            step_shapes(steps@) == rewrite_prefix(shp, i as int).steps,
            in_heading == rewrite_prefix(shp, i as int).in_heading,
            heading@ == rewrite_prefix(shp, i as int).heading,
            forall|j: int|
                0 <= j < steps@.len() ==> (#[trigger] steps@[j] matches Step::Keep(k) ==> k < i),
        decreases events.len() - i,
    {
        let ghost before = steps@;
        assert(shp[i as int] == events@[i as int]@);
        match &events[i] {
            MdEvent::HeadingStart => {
                in_heading = true;
                heading = Vec::new();
            },
            MdEvent::Text(t) => {
                if in_heading {
                    append_str(&mut heading, t.as_str());
                } else {
                    steps.push(Step::Keep(i));
                    assert(step_shapes(steps@) =~= step_shapes(before).push(
                        StepShape::Keep(i as int),
                    ));
                }
            },
            MdEvent::HeadingEnd => {
                if in_heading {
                    in_heading = false;
                    steps.push(Step::Raw(heading_anchor(&heading)));
                    assert(step_shapes(steps@) =~= step_shapes(before).push(
                        StepShape::Raw(heading_html(heading@)),
                    ));
                } else {
                    steps.push(Step::Keep(i));
                    assert(step_shapes(steps@) =~= step_shapes(before).push(
                        StepShape::Keep(i as int),
                    ));
                }
            },
            MdEvent::Other => {
                if !in_heading {
                    steps.push(Step::Keep(i));
                    assert(step_shapes(steps@) =~= step_shapes(before).push(
                        StepShape::Keep(i as int),
                    ));
                }
            },
        }
        i += 1;
    }
    steps
}

/// The HTML of a markdown text, with anchored top-level headings and with
/// its callouts expanded.
pub open spec fn commonmark_html(md: Seq<char>) -> Seq<char> {
    expand_callouts(rendered_html(md, anchor_plan(markdown_events(md))))
}

/// Renders markdown to HTML, gives every top-level heading an anchor, and
/// expands the callouts of the result.
pub fn convert_commonmark(markdown_input: &str) -> (html: String)
    ensures
        html@ == commonmark_html(markdown_input@),
{
    let events = parse_events(markdown_input);
    let steps = plan_anchors(&events);
    assert(shapes(events@).len() == events@.len());
    let rendered = render_steps(markdown_input, &steps);
    convert_callout_markdown(rendered)
}

/// The final HTML of a post body: rendered markdown with callouts expanded,
/// passed once more through the callout expansion.
pub open spec fn markdown_html(md: Seq<char>) -> Seq<char> {
    expand_callouts(commonmark_html(md))
}

pub fn markdown_to_html(markdown_input: &str) -> (html: String)
    ensures
        html@ == markdown_html(markdown_input@),
{
    let s = convert_commonmark(markdown_input);
    convert_callout_markdown(s)
}

/// The number of words of a text: of its maximal runs of characters that are
/// not whitespace, counted by where they begin.
pub open spec fn word_count(s: Seq<char>) -> nat
    decreases s.len(),
{
    if s.len() == 0 {
        0
    } else {
        let starts_word = !is_whitespace(s.last()) && (s.len() == 1 || is_whitespace(
            s[s.len() - 2],
        ));
        word_count(s.drop_last()) + if starts_word {
            1nat
        } else {
            0nat
        }
    }
}

/// Counts the words of a text.
pub fn count_words(text: &str) -> (n: usize)
    ensures
        n == word_count(text@),
{
    let s = chars_of(text);
    let mut n: usize = 0;
    let mut i: usize = 0;
    while i < s.len()
        invariant
            i <= s.len(),
            n == word_count(s@.take(i as int)),
            n <= i,
        decreases s.len() - i,
    {
        assert(s@.take(i + 1).drop_last() =~= s@.take(i as int));
        if !is_space(s[i]) && (i == 0 || is_space(s[i - 1])) {
            n += 1;
        }
        i += 1;
    }
    assert(s@.take(s@.len() as int) =~= s@);
    n
}

/// The words of the text events among the first `n` events.
pub open spec fn words_in(events: Seq<EventShape>, n: int) -> nat
    decreases n,
{
    if n <= 0 {
        0
    } else {
        words_in(events, n - 1) + match events[n - 1] {
            EventShape::Text(t) => word_count(t),
            _ => 0nat,
        }
    }
}

/// Words read per minute.
pub const READ_TIME_ESTIMATE_WPM: u64 = 250;

/// The minutes that a text of so many words takes: the words divided by the
/// reading speed and rounded up, at least one, at most what a `u32` holds.
pub open spec fn read_minutes(words: nat) -> nat {
    let m = (words + 249) / 250;
    if m < 1 {
        1
    } else if m > u32::MAX {
        u32::MAX as nat
    } else {
        m
    }
}

/// The reading time of a stream of events.
pub fn read_time_of(events: &Vec<MdEvent>) -> (minutes: u32)
    ensures
        minutes == read_minutes(words_in(shapes(events@), events@.len() as int)),
        minutes >= 1,
{
    let cap: u64 = 1073741823750;
    let ghost shp = shapes(events@);
    let mut total: u64 = 0;
    let mut i: usize = 0;
    while i < events.len()
        invariant
            i <= events.len(),
            cap == 1073741823750,
            shp == shapes(events@),
            total <= cap,
            total == if words_in(shp, i as int) < cap {
                words_in(shp, i as int)
            } else {
                cap as nat
            },
        decreases events.len() - i,
    {
        assert(shp[i as int] == events@[i as int]@);
        if let MdEvent::Text(t) = &events[i] {
            let w: usize = count_words(t.as_str());
            if w as u64 >= cap - total {
                total = cap;
            } else {
                total = total + w as u64;
            }
        }
        i += 1;
    }
    let m: u64 = (total + (READ_TIME_ESTIMATE_WPM - 1)) / READ_TIME_ESTIMATE_WPM;
    if m < 1 {
        1
    } else {
        m as u32
    }
}

/// Estimates the minutes that reading a markdown text takes, from the words
/// of its literal text.
pub fn estimate_read_time(markdown: &str) -> (minutes: u32)
    ensures
        minutes == read_minutes(
            words_in(markdown_events(markdown@), markdown_events(markdown@).len() as int),
        ),
        minutes >= 1,
{
    let events = parse_events(markdown);
    assert(shapes(events@).len() == events@.len());
    read_time_of(&events)
}

} // verus!
