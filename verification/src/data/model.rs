//! The rows that the data layer reads and writes.

use crate::data::{hyphenated, is_random_uuid, DbId};
use crate::domain::clip::field::{is_shortcode_char, ShortCode, SHORTCODE_LEN};
use crate::domain::time::Time;
use vstd::prelude::*;
use vstd::std_specs::convert::FromSpecImpl;

verus! {

/// Selects the clip stored under a short code.
#[derive(Debug)]
pub struct GetClip {
    pub shortcode: String,
}

/// What the conversion yields is stated by the contract of `from`.
impl FromSpecImpl<crate::service::ask::GetClip> for GetClip {
    open spec fn obeys_from_spec() -> bool {
        false
    }

    open spec fn from_spec(req: crate::service::ask::GetClip) -> Self {
        arbitrary()
    }
}

impl From<crate::service::ask::GetClip> for GetClip {
    /// Selects by the short code of the request; its password plays no
    /// part in the selection.
    fn from(req: crate::service::ask::GetClip) -> (model: Self)
        ensures
            model.shortcode@ == req.shortcode@,
    {
        GetClip { shortcode: req.shortcode.into_inner() }
    }
}

/// What the conversion yields is stated by the contract of `from`.
impl FromSpecImpl<ShortCode> for GetClip {
    open spec fn obeys_from_spec() -> bool {
        false
    }

    open spec fn from_spec(shortcode: ShortCode) -> Self {
        arbitrary()
    }
}

impl From<ShortCode> for GetClip {
    fn from(shortcode: ShortCode) -> (model: Self)
        ensures
            model.shortcode@ == shortcode@,
    {
        GetClip { shortcode: shortcode.into_inner() }
    }
}

/// The conversion takes the text as the short code to select by.
impl FromSpecImpl<String> for GetClip {
    open spec fn obeys_from_spec() -> bool {
        true
    }

    open spec fn from_spec(shortcode: String) -> Self {
        GetClip { shortcode }
    }
}

impl From<String> for GetClip {
    fn from(shortcode: String) -> (model: Self)
        ensures
            model.shortcode == shortcode,
    {
        GetClip { shortcode }
    }
}

/// A clip about to be stored for the first time. Its hit count starts at
/// zero. Dates are seconds since the Unix epoch.
#[derive(Debug)]
pub struct NewClip {
    pub clip_id: String,
    pub shortcode: String,
    pub content: String,
    pub title: Option<String>,
    pub posted: i64,
    pub expires: Option<i64>,
    pub password: Option<String>,
}

/// The timestamp of a moment that may be missing.
pub open spec fn timestamp_of(time: Option<Time>) -> Option<i64> {
    match time {
        Some(moment) => Some(moment@.0),
        None => None,
    }
}

fn timestamp(time: Option<Time>) -> (seconds: Option<i64>)
    ensures
        seconds == timestamp_of(time),
{
    match time {
        Some(moment) => Some(moment.timestamp()),
        None => None,
    }
}

impl NewClip {
    /// The row for a clip that is stored for the first time, from what
    /// the request gives: it gets a fresh identifier and a fresh short
    /// code, and counts as posted now.
    pub fn new(
        content: String,
        title: Option<String>,
        expires: Option<Time>,
        password: Option<String>,
    ) -> (row: Self)
        ensures
            exists|bits: u128| is_random_uuid(bits) && row.clip_id@ == #[trigger] hyphenated(bits),
            row.shortcode@.len() == SHORTCODE_LEN,
            forall|i: int|
                0 <= i < row.shortcode@.len() ==> is_shortcode_char(#[trigger] row.shortcode@[i]),
            row.content == content,
            row.title == title,
            row.expires == timestamp_of(expires),
            row.password == password,
    {
        let id = DbId::new();
        NewClip {
            clip_id: id.to_string(),
            shortcode: ShortCode::default().into_inner(),
            content,
            title,
            posted: Time::now().timestamp(),
            expires: timestamp(expires),
            password,
        }
    }
}

/// New contents for a stored clip. Its id and the date it was posted stay
/// as they are.
#[derive(Debug)]
pub struct UpdateClip {
    pub shortcode: String,
    pub content: String,
    pub title: Option<String>,
    pub expires: Option<i64>,
    pub password: Option<String>,
}

impl UpdateClip {
    /// The row that gives the clip behind `shortcode` new contents.
    pub fn new(
        shortcode: &ShortCode,
        content: String,
        title: Option<String>,
        expires: Option<Time>,
        password: Option<String>,
    ) -> (row: Self)
        ensures
            row.shortcode@ == shortcode@,
            row.content == content,
            row.title == title,
            row.expires == timestamp_of(expires),
            row.password == password,
    {
        UpdateClip {
            shortcode: shortcode.as_str().to_owned(),
            content,
            title,
            expires: timestamp(expires),
            password,
        }
    }
}

} // verus!
