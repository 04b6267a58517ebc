//! What the remote source answers for one comic.

use vstd::prelude::*;
use vstd::string::StringExecFns;
use crate::decimal::{decimal, push_decimal};

verus! {

/// The remote source's record of a comic, with the release date still in
/// three text fields.
#[derive(Debug, PartialEq, Eq)]
pub struct XkcdApiResponse {
    pub num: u32,
    pub title: String,
    pub safe_title: String,
    pub image_url: String,
    pub alt: String,
    pub transcript: String,
    pub link: String,
    pub year: String,
    pub month: String,
    pub day: String,
    pub news: String,
}

/// A response as plain values.
pub struct XkcdApiResponseView {
    pub num: u32,
    pub title: Seq<char>,
    pub safe_title: Seq<char>,
    pub image_url: Seq<char>,
    pub alt: Seq<char>,
    pub transcript: Seq<char>,
    pub link: Seq<char>,
    pub year: Seq<char>,
    pub month: Seq<char>,
    pub day: Seq<char>,
    pub news: Seq<char>,
}

impl View for XkcdApiResponse {
    type V = XkcdApiResponseView;

    open spec fn view(&self) -> XkcdApiResponseView {
        XkcdApiResponseView {
            num: self.num,
            title: self.title@,
            safe_title: self.safe_title@,
            image_url: self.image_url@,
            alt: self.alt@,
            transcript: self.transcript@,
            link: self.link@,
            year: self.year@,
            month: self.month@,
            day: self.day@,
            news: self.news@,
        }
    }
}

/// The one-line description of a comic: `Xkcd #`, its number, `: ` and its
/// title.
pub open spec fn headline(num: u32, title: Seq<char>) -> Seq<char> {
    seq!['X', 'k', 'c', 'd', ' ', '#'] + decimal(num as nat) + seq![':', ' '] + title
}

/// Writes the one-line description of a comic.
pub fn headline_string(num: u32, title: &str) -> (text: String)
    ensures
        text@ == headline(num, title@),
{
    proof {
        reveal_strlit("Xkcd #");
        reveal_strlit(": ");
    }
    let mut text = String::from_str("Xkcd #");
    push_decimal(&mut text, num);
    text.append(": ");
    text.append(title);
    assert(text@ =~= headline(num, title@));
    text
}

impl Clone for XkcdApiResponse {
    fn clone(&self) -> (copy: XkcdApiResponse)
        ensures
            copy == *self,
    {
        XkcdApiResponse {
            num: self.num,
            title: self.title.clone(),
            safe_title: self.safe_title.clone(),
            image_url: self.image_url.clone(),
            alt: self.alt.clone(),
            transcript: self.transcript.clone(),
            link: self.link.clone(),
            year: self.year.clone(),
            month: self.month.clone(),
            day: self.day.clone(),
            news: self.news.clone(),
        }
    }
}

impl XkcdApiResponse {
    /// The response in one line.
    pub fn to_text(&self) -> (text: String)
        ensures
            text@ == headline(self.num, self.title@),
    {
        headline_string(self.num, self.title.as_str())
    }
}

} // verus!
