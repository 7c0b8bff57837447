//! What can be asked of the service layer.

use crate::domain::clip::field::{Password, ShortCode};
use vstd::prelude::*;
use vstd::std_specs::convert::FromSpecImpl;

verus! {

/// A request to retrieve the clip behind a short code.
#[derive(Debug)]
pub struct GetClip {
    pub shortcode: ShortCode,
    pub password: Password,
}

impl GetClip {
    /// The request for the clip behind `shortcode`, without a password.
    pub fn from_raw(shortcode: &str) -> (request: Self)
        ensures
            request.shortcode@ == shortcode@,
            request.password@ is None,
    {
        GetClip { shortcode: ShortCode::from(shortcode), password: Password::default() }
    }
}

/// What the conversion yields is stated by the contract of `from`.
impl FromSpecImpl<ShortCode> for GetClip {
    open spec fn obeys_from_spec() -> bool {
        false
    }

    open spec fn from_spec(shortcode: ShortCode) -> Self {
        arbitrary()
    }
}

impl From<ShortCode> for GetClip {
    /// The request for the clip behind `shortcode`, without a password.
    fn from(shortcode: ShortCode) -> (request: Self)
        ensures
            request.shortcode == shortcode,
            request.password@ is None,
    {
        GetClip { shortcode, password: Password::default() }
    }
}

/// What the conversion yields is stated by the contract of `from`.
impl<'a> FromSpecImpl<&'a str> for GetClip {
    open spec fn obeys_from_spec() -> bool {
        false
    }

    open spec fn from_spec(raw: &'a str) -> Self {
        arbitrary()
    }
}

impl<'a> From<&'a str> for GetClip {
    /// The request for the clip behind `raw`, without a password.
    fn from(raw: &'a str) -> (request: Self)
        ensures
            request.shortcode@ == raw@,
            request.password@ is None,
    {
        GetClip::from_raw(raw)
    }
}

} // verus!
