//! A comic as the cache holds it.

use vstd::prelude::*;
use vstd::std_specs::convert::FromSpecImpl;
use crate::api::{headline, headline_string, XkcdApiResponse};
use crate::date::{is_calendar_date, ReleaseDate};
use crate::decimal::{parse_i32, parse_u32, parsed_i32, parsed_u32};

verus! {

/// One comic: its number, its texts, where its image is, and the day it was
/// released.
#[derive(Debug, PartialEq, Eq)]
pub struct Xkcd {
    pub num: u32,
    pub title: String,
    pub safe_title: String,
    pub image_url: String,
    pub alt: String,
    pub transcript: String,
    pub link: String,
    pub release_date: ReleaseDate,
}

/// A comic as plain values.
pub struct XkcdView {
    pub num: u32,
    pub title: Seq<char>,
    pub safe_title: Seq<char>,
    pub image_url: Seq<char>,
    pub alt: Seq<char>,
    pub transcript: Seq<char>,
    pub link: Seq<char>,
    pub release_date: ReleaseDate,
}

impl View for Xkcd {
    type V = XkcdView;

    open spec fn view(&self) -> XkcdView {
        XkcdView {
            num: self.num,
            title: self.title@,
            safe_title: self.safe_title@,
            image_url: self.image_url@,
            alt: self.alt@,
            transcript: self.transcript@,
            link: self.link@,
            release_date: self.release_date,
        }
    }
}

/// The date that three text fields name: the one of their year, month and
/// day where each field reads as a number and the three name a day of the
/// calendar, else the first day of the Unix epoch.
pub open spec fn parsed_date(year: Seq<char>, month: Seq<char>, day: Seq<char>) -> ReleaseDate {
    match (parsed_i32(year), parsed_u32(month), parsed_u32(day)) {
        (Some(y), Some(m), Some(d)) => if is_calendar_date(y as int, m as int, d as int) {
            ReleaseDate::from_ymd(y as int, m as int, d as int)
        } else {
            ReleaseDate::from_ymd(1970, 1, 1)
        },
        _ => ReleaseDate::from_ymd(1970, 1, 1),
    }
}

/// Reads a date from the year, month and day as the remote source sends
/// them. A field that is no number, or three numbers that name no day, give
/// the first day of the Unix epoch.
pub fn parse_date(year: &str, month: &str, day: &str) -> (date: ReleaseDate)
    ensures
        date == parsed_date(year@, month@, day@),
        date.wf(),
{
    let year = parse_i32(year);
    let month = parse_u32(month);
    let day = parse_u32(day);
    match (year, month, day) {
        (Some(y), Some(m), Some(d)) => match ReleaseDate::new(y, m, d) {
            Some(date) => date,
            None => ReleaseDate::epoch(),
        },
        _ => ReleaseDate::epoch(),
    }
}

impl Xkcd {
    /// The second of the Unix epoch at which the release date starts.
    pub fn release_date_as_timestamp(&self) -> (secs: i64)
        ensures
            secs == self.release_date.timestamp(),
    {
        self.release_date.as_timestamp()
    }

    /// The comic in one line.
    pub fn to_text(&self) -> (text: String)
        ensures
            text@ == headline(self.num, self.title@),
    {
        headline_string(self.num, self.title.as_str())
    }
}

impl Clone for Xkcd {
    fn clone(&self) -> (copy: Xkcd)
        ensures
            copy == *self,
    {
        Xkcd {
            num: self.num,
            title: self.title.clone(),
            safe_title: self.safe_title.clone(),
            image_url: self.image_url.clone(),
            alt: self.alt.clone(),
            transcript: self.transcript.clone(),
            link: self.link.clone(),
            release_date: self.release_date,
        }
    }
}

/// The comic that a response of the remote source describes: its number and
/// texts, with the release date read from the three fields of the response.
/// The news is dropped.
pub open spec fn converted(value: XkcdApiResponse) -> Xkcd {
    Xkcd {
        num: value.num,
        title: value.title,
        safe_title: value.safe_title,
        image_url: value.image_url,
        alt: value.alt,
        transcript: value.transcript,
        link: value.link,
        release_date: parsed_date(value.year@, value.month@, value.day@),
    }
}

impl From<XkcdApiResponse> for Xkcd {
    /// Keeps the number and the texts, reads the release date from its three
    /// fields and drops the news.
    fn from(value: XkcdApiResponse) -> (xkcd: Xkcd)
        ensures
            xkcd == converted(value),
    {
        let release_date = parse_date(
            value.year.as_str(),
            value.month.as_str(),
            value.day.as_str(),
        );
        Xkcd {
            num: value.num,
            title: value.title,
            safe_title: value.safe_title,
            image_url: value.image_url,
            alt: value.alt,
            transcript: value.transcript,
            link: value.link,
            release_date,
        }
    }
}

impl FromSpecImpl<XkcdApiResponse> for Xkcd {
    open spec fn obeys_from_spec() -> bool {
        true
    }

    open spec fn from_spec(value: XkcdApiResponse) -> Xkcd {
        converted(value)
    }
}

} // verus!
