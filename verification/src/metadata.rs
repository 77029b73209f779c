//! The metadata resolver: the fields of a post's metadata block, each with
//! its default, and the calendar dates that they carry.

use vstd::prelude::*;

verus! {

/// A calendar date by its year, month and day.
#[derive(Clone, Copy, Debug, PartialEq, Eq, Structural)]
pub struct Date {
    pub year: i32,
    pub month: u32,
    pub day: u32,
}

/// The date of a post that gives none: the first of January 1970.
pub open spec fn epoch() -> Date {
    Date { year: 1970, month: 1, day: 1 }
}

/// `a` is a later day than `b`.
pub open spec fn is_later(a: Date, b: Date) -> bool {
    a.year > b.year || (a.year == b.year && (a.month > b.month || (a.month == b.month && a.day
        > b.day)))
}

impl Date {
    pub fn epoch() -> (d: Date)
        ensures
            d == epoch(),
    {
        Date { year: 1970, month: 1, day: 1 }
    }

    /// Is this a later day than `other`?
    pub fn later_than(&self, other: &Date) -> (b: bool)
        ensures
            b == is_later(*self, *other),
    {
        self.year > other.year || (self.year == other.year && (self.month > other.month || (
        self.month == other.month && self.day > other.day)))
    }
}

/// The optional fields of a metadata block, as they were written.
pub struct RawMetadata {
    pub title: Option<String>,
    pub date: Option<String>,
    pub hidden: Option<bool>,
}

pub ghost struct RawMetadataView {
    pub title: Option<Seq<char>>,
    pub date: Option<Seq<char>>,
    pub hidden: Option<bool>,
}

impl View for RawMetadata {
    type V = RawMetadataView;

    open spec fn view(&self) -> RawMetadataView {
        RawMetadataView {
            title: match self.title {
                Some(t) => Some(t@),
                None => None,
            },
            date: match self.date {
                Some(d) => Some(d@),
                None => None,
            },
            hidden: self.hidden,
        }
    }
}

/// What the TOML parser makes of a metadata block: `None` for a block that
/// is no TOML document, else the string under `title`, the string under
/// `date` and the boolean under `hidden`, each only where the key is there
/// with a value of that type.
pub uninterp spec fn toml_metadata(block: Seq<char>) -> Option<RawMetadataView>;

/// The date that a text in the form year, month, day (`%Y-%m-%d`) stands
/// for, or `None` where it is no such text or names no day of the calendar.
pub uninterp spec fn parsed_date(text: Seq<char>) -> Option<Date>;

/// A date written as month name, day and year (`%B %d, %Y`); `None` where
/// the three numbers are no day of the calendar.
pub uninterp spec fn long_date_text(date: Date) -> Option<Seq<char>>;

/// A date written as short weekday, day, short month name and year
/// (`%a, %d %b %Y`); `None` where the three numbers are no day of the
/// calendar.
pub uninterp spec fn feed_date_text(date: Date) -> Option<Seq<char>>;

/// `str::parse::<toml::Table>` and, on the table, `get` with `as_str` or
/// `as_bool` for the three keys. The contract only names the result.
#[verifier::external_body]
pub(crate) fn parse_metadata(block: &str) -> (r: Option<RawMetadata>)
    ensures
        match r {
            Some(raw) => toml_metadata(block@) == Some(raw@),
            None => toml_metadata(block@) is None,
        },
{
    match block.parse::<toml::Table>() {
        Ok(table) => Some(
            RawMetadata {
                title: table.get("title").and_then(|v| v.as_str()).map(|s| s.to_string()),
                date: table.get("date").and_then(|v| v.as_str()).map(|s| s.to_string()),
                hidden: table.get("hidden").and_then(|v| v.as_bool()),
            },
        ),
        Err(_) => None,
    }
}

/// `chrono::NaiveDate::parse_from_str` with the format `%Y-%m-%d`, the
/// parsed day given by its year, month and day. The contract only names the
/// result.
#[verifier::external_body]
pub(crate) fn parse_date(text: &str) -> (r: Option<Date>)
    ensures
        r == parsed_date(text@),
{
    match chrono::NaiveDate::parse_from_str(text, "%Y-%m-%d") {
        Ok(d) => Some(
            Date {
                year: chrono::Datelike::year(&d),
                month: chrono::Datelike::month(&d),
                day: chrono::Datelike::day(&d),
            },
        ),
        Err(_) => None,
    }
}

/// `chrono::NaiveDate::from_ymd_opt` and `format` with `%B %d, %Y`. The
/// contract only names the result.
#[verifier::external_body]
pub(crate) fn long_date(date: Date) -> (r: Option<String>)
    ensures
        match r {
            Some(t) => long_date_text(date) == Some(t@),
            None => long_date_text(date) is None,
        },
{
    chrono::NaiveDate::from_ymd_opt(date.year, date.month, date.day).map(
        |d| d.format("%B %d, %Y").to_string(),
    )
}

/// `chrono::NaiveDate::from_ymd_opt` and `format` with `%a, %d %b %Y`. The
/// contract only names the result.
#[verifier::external_body]
pub(crate) fn feed_date(date: Date) -> (r: Option<String>)
    ensures
        match r {
            Some(t) => feed_date_text(date) == Some(t@),
            None => feed_date_text(date) is None,
        },
{
    chrono::NaiveDate::from_ymd_opt(date.year, date.month, date.day).map(
        |d| d.format("%a, %d %b %Y").to_string(),
    )
}

/// The date of a post: the one that its `date` field stands for, or the
/// epoch where the field is missing or stands for no day.
pub open spec fn resolved_date(parsed: Option<Date>) -> Date {
    match parsed {
        Some(d) => d,
        None => epoch(),
    }
}

/// What the `date` field of a metadata block stands for.
pub open spec fn date_of_field(field: Option<Seq<char>>) -> Date {
    match field {
        Some(text) => resolved_date(parsed_date(text)),
        None => epoch(),
    }
}

/// The long form of a date, empty where it has none.
pub open spec fn friendly_text(date: Date) -> Seq<char> {
    match long_date_text(date) {
        Some(t) => t,
        None => Seq::empty(),
    }
}

/// The title of a post: the one given, or the name of its file.
pub open spec fn resolved_title(title: Option<Seq<char>>, file_name: Seq<char>) -> Seq<char> {
    match title {
        Some(t) => t,
        None => file_name,
    }
}

/// Whether a post is hidden: as given, or not.
pub open spec fn resolved_hidden(hidden: Option<bool>) -> bool {
    match hidden {
        Some(h) => h,
        None => false,
    }
}

/// The typed fields of a post.
pub struct Metadata {
    pub title: String,
    pub date: Date,
    pub hidden: bool,
}

/// Gives each field its value or its default: the title falls back to the
/// file's name, the date to the epoch, the hidden flag to `false`.
pub fn resolve_metadata(raw: RawMetadata, parsed: Option<Date>, file_name: &str) -> (m: Metadata)
    ensures
        m.title@ == resolved_title(raw@.title, file_name@),
        m.date == resolved_date(parsed),
        m.hidden == resolved_hidden(raw@.hidden),
{
    let title = match raw.title {
        Some(t) => t,
        None => file_name.to_owned(),
    };
    let date = match parsed {
        Some(d) => d,
        None => Date::epoch(),
    };
    let hidden = match raw.hidden {
        Some(h) => h,
        None => false,
    };
    Metadata { title, date, hidden }
}

/// Reads the fields of a metadata block; `None` where the block is no TOML
/// document.
pub fn read_metadata(block: &str, file_name: &str) -> (r: Option<Metadata>)
    ensures
        match r {
            Some(m) => toml_metadata(block@) matches Some(raw) && m.title@ == resolved_title(
                raw.title,
                file_name@,
            ) && m.date == date_of_field(raw.date) && m.hidden == resolved_hidden(raw.hidden),
            None => toml_metadata(block@) is None,
        },
{
    match parse_metadata(block) {
        None => None,
        Some(raw) => {
            let parsed = match &raw.date {
                Some(text) => parse_date(text.as_str()),
                None => None,
            };
            Some(resolve_metadata(raw, parsed, file_name))
        },
    }
}

} // verus!
