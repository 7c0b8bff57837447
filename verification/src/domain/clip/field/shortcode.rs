//! The short code under which a clip is reached and its views are counted.

use rand::seq::SliceRandom;
use vstd::pervasive::unreached;
use vstd::prelude::*;
use vstd::std_specs::convert::FromSpecImpl;

verus! {

/// `String::push` appends one character to the string.
pub assume_specification[ String::push ](text: &mut String, ch: char)
    ensures
        final(text)@ == old(text)@.push(ch),
;

/// Calls `rand::seq::SliceRandom::choose` on a slice, with the generator of
/// the current thread that `rand::thread_rng` hands out. It returns `None`
/// for an empty slice and otherwise a reference to the element at an index
/// that the generator picks. Claimed is that an empty slice gives nothing
/// and that what any other slice gives is one of its elements; which one is
/// left open.
#[verifier::external_body]
fn choose_char(chars: &[char]) -> (picked: Option<char>)
    ensures
        chars@.len() == 0 ==> picked is None,
        chars@.len() > 0 ==> picked is Some && chars@.contains(picked->0),
{
    chars.choose(&mut rand::thread_rng()).copied()
}

/// Number of characters in a freshly generated short code.
pub const SHORTCODE_LEN: usize = 10;

/// The characters a generated short code is drawn from: lower-case ASCII
/// letters and decimal digits.
pub open spec fn is_shortcode_char(c: char) -> bool {
    ('a' <= c && c <= 'z') || ('0' <= c && c <= '9')
}

/// An opaque identifier of a clip. Two short codes are the same key exactly
/// when they hold the same characters.
#[derive(Debug)]
pub struct ShortCode(String);

impl View for ShortCode {
    type V = Seq<char>;

    closed spec fn view(&self) -> Seq<char> {
        self.0@
    }
}

impl Clone for ShortCode {
    fn clone(&self) -> (copy: Self)
        ensures
            copy@ == self@,
    {
        ShortCode(self.0.clone())
    }
}

impl ShortCode {
    /// A fresh short code: `SHORTCODE_LEN` characters, each drawn at random
    /// from the lower-case letters and the digits.
    pub fn new() -> (code: Self)
        ensures
            code@.len() == SHORTCODE_LEN,
            forall|i: int| 0 <= i < code@.len() ==> is_shortcode_char(#[trigger] code@[i]),
    {
        let allowed_chars: [char; 36] = [
            'a', 'b', 'c', 'd', 'e', 'f', 'g', 'h', 'i', 'j', 'k', 'l', 'm', 'n', 'o', 'p', 'q',
            'r', 's', 't', 'u', 'v', 'w', 'x', 'y', 'z', '1', '2', '3', '4', '5', '6', '7', '8',
            '9', '0',
        ];
        assert(forall|k: int| 0 <= k < 36 ==> is_shortcode_char(#[trigger] allowed_chars@[k]));
        let mut shortcode = String::new();
        let mut n: usize = 0;
        while n < SHORTCODE_LEN
            invariant
                n <= SHORTCODE_LEN,
                shortcode@.len() == n,
                allowed_chars@.len() == 36,
                forall|k: int| 0 <= k < 36 ==> is_shortcode_char(#[trigger] allowed_chars@[k]),
                forall|i: int| 0 <= i < n ==> is_shortcode_char(#[trigger] shortcode@[i]),
            decreases SHORTCODE_LEN - n,
        {
            let picked = choose_char(allowed_chars.as_slice());
            match picked {
                Some(ch) => {
                    shortcode.push(ch);
                },
                None => {
                    unreached::<()>();
                },
            }
            n += 1;
        }
        ShortCode(shortcode)
    }

    /// Gives the text of the short code back.
    pub fn into_inner(self) -> (text: String)
        ensures
            text@ == self@,
    {
        self.0
    }

    /// The text of the short code.
    pub fn as_str(&self) -> (text: &str)
        ensures
            text@ == self@,
    {
        self.0.as_str()
    }
}

impl Default for ShortCode {
    /// A fresh random short code, as [`ShortCode::new`] makes it.
    fn default() -> (code: Self)
        ensures
            code@.len() == SHORTCODE_LEN,
            forall|i: int| 0 <= i < code@.len() ==> is_shortcode_char(#[trigger] code@[i]),
    {
        ShortCode::new()
    }
}

/// What the conversion yields is stated by the contract of `from`.
impl<'a> FromSpecImpl<&'a str> for ShortCode {
    open spec fn obeys_from_spec() -> bool {
        false
    }

    open spec fn from_spec(value: &'a str) -> Self {
        arbitrary()
    }
}

impl<'a> From<&'a str> for ShortCode {
    /// The short code that holds the characters of `value`.
    fn from(value: &'a str) -> (code: Self)
        ensures
            code@ == value@,
    {
        ShortCode(value.to_owned())
    }
}

/// What the conversion yields is stated by the contract of `from`.
impl FromSpecImpl<String> for ShortCode {
    open spec fn obeys_from_spec() -> bool {
        false
    }

    open spec fn from_spec(value: String) -> Self {
        arbitrary()
    }
}

impl From<String> for ShortCode {
    /// Wraps `value` as a short code, whatever it holds.
    fn from(value: String) -> (code: Self)
        ensures
            code@ == value@,
    {
        ShortCode(value)
    }
}

/// What the conversion yields is stated by the contract of `from`.
impl FromSpecImpl<ShortCode> for String {
    open spec fn obeys_from_spec() -> bool {
        false
    }

    open spec fn from_spec(value: ShortCode) -> Self {
        arbitrary()
    }
}

impl From<ShortCode> for String {
    /// The text of the short code.
    fn from(value: ShortCode) -> (text: Self)
        ensures
            text@ == value@,
    {
        value.0
    }
}

} // verus!
