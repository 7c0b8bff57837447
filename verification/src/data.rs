//! What the data layer stores and how it answers.

pub mod model;
pub mod query;

use std::str::FromStr;
use vstd::arithmetic::power::pow;
use vstd::prelude::*;
use vstd::std_specs::convert::FromSpecImpl;

verus! {

/// The error with which the `uuid` crate rejects a text, carried as it is.
#[verifier::external_type_specification]
#[verifier::external_body]
pub struct ExUuidError(uuid::Error);

/// Whether the 128 bits are those of a random (version 4) UUID: the version
/// field holds four and the variant field holds the bits one and zero.
pub open spec fn is_random_uuid(bits: u128) -> bool {
    bits & 0xF000_C000_0000_0000_0000u128 == 0x4000_8000_0000_0000_0000u128
}

/// The lower-case hexadecimal digit of a value below sixteen.
pub open spec fn hex_digit(value: int) -> char {
    seq!['0', '1', '2', '3', '4', '5', '6', '7', '8', '9', 'a', 'b', 'c', 'd', 'e', 'f'][value]
}

/// The hyphenated form of the 128 bits of a UUID: their 32 hexadecimal
/// digits in lower case, the most significant first, in groups of 8, 4, 4, 4
/// and 12 digits with a hyphen between two groups.
pub open spec fn hyphenated(bits: u128) -> Seq<char> {
    Seq::new(
        36,
        |i: int|
            if i == 8 || i == 13 || i == 18 || i == 23 {
                '-'
            } else {
                let hyphens_before: int = if i < 8 {
                    0
                } else if i < 13 {
                    1
                } else if i < 18 {
                    2
                } else if i < 23 {
                    3
                } else {
                    4
                };
                hex_digit((bits as int / pow(16, (31 - (i - hyphens_before)) as nat)) % 16)
            },
    )
}

/// The 128 bits that `uuid::Uuid::parse_str` reads from a text, or `None`
/// where it rejects the text.
pub uninterp spec fn uuid_parsing(text: Seq<char>) -> Option<u128>;

/// Calls `uuid::Uuid::new_v4`, which draws 128 random bits and overwrites
/// the version field with four and the variant field with the bits one and
/// zero, and reads the bits off with `as_u128`. Claimed is what holds of
/// every draw: the version and the variant.
#[verifier::external_body]
fn random_uuid() -> (bits: u128)
    ensures
        is_random_uuid(bits),
{
    uuid::Uuid::new_v4().as_u128()
}

/// Calls `uuid::Uuid::parse_str`, which accepts the simple, hyphenated,
/// URN and braced forms of a UUID, and reads the bits off with `as_u128`.
/// Whether it accepts a text, and the bits it then returns, are a function
/// of the text alone and are named, not spelled out.
#[verifier::external_body]
fn parse_uuid(text: &str) -> (parsed: Result<u128, uuid::Error>)
    ensures
        match parsed {
            Ok(bits) => uuid_parsing(text@) == Some(bits),
            Err(_) => uuid_parsing(text@) is None,
        },
{
    match uuid::Uuid::parse_str(text) {
        Ok(id) => Ok(id.as_u128()),
        Err(error) => Err(error),
    }
}

/// Formats the UUID of the given bits through the `Display` impl of
/// `uuid::Uuid`, which writes the hyphenated form in lower case.
#[verifier::external_body]
fn format_uuid(bits: u128) -> (text: String)
    ensures
        text@ == hyphenated(bits),
{
    format!("{}", uuid::Uuid::from_u128(bits))
}

/// The identifier of a row in the database: the 128 bits of a UUID.
#[derive(Clone, Copy, Debug, PartialEq, Eq, Structural)]
pub struct DbId(u128);

impl View for DbId {
    type V = u128;

    closed spec fn view(&self) -> u128 {
        self.0
    }
}

impl DbId {
    /// A fresh identifier: a random UUID.
    pub fn new() -> (id: Self)
        ensures
            is_random_uuid(id@),
    {
        DbId(random_uuid())
    }

    /// The identifier whose bits are all zero. It stands for a row that
    /// does not exist, and hides the identifier of a row that does from
    /// whoever has no business knowing it.
    pub fn nil() -> (id: Self)
        ensures
            id@ == 0,
    {
        DbId(0)
    }

    /// The identifier with the given bits.
    pub fn from_u128(bits: u128) -> (id: Self)
        ensures
            id@ == bits,
    {
        DbId(bits)
    }

    /// The bits of the identifier.
    pub fn as_u128(&self) -> (bits: u128)
        ensures
            bits == self@,
    {
        self.0
    }

    /// The identifier as text, in the hyphenated form of a UUID.
    pub fn to_string(&self) -> (text: String)
        ensures
            text@ == hyphenated(self@),
    {
        format_uuid(self.0)
    }
}

/// A fresh identifier is never the nil identifier.
pub proof fn lemma_random_uuid_is_not_nil(bits: u128)
    requires
        is_random_uuid(bits),
    ensures
        bits != 0,
{
    assert(bits & 0xF000_C000_0000_0000_0000u128 == 0x4000_8000_0000_0000_0000u128 ==> bits != 0)
        by (bit_vector);
}

impl Default for DbId {
    /// A fresh identifier, as [`DbId::new`] makes it.
    fn default() -> (id: Self)
        ensures
            is_random_uuid(id@),
    {
        DbId::new()
    }
}

impl FromStr for DbId {
    type Err = uuid::Error;

    /// Reads an identifier from the text of a UUID.
    fn from_str(id: &str) -> (parsed: Result<Self, Self::Err>)
        ensures
            match uuid_parsing(id@) {
                Some(bits) => parsed matches Ok(db_id) && db_id@ == bits,
                None => parsed is Err,
            },
    {
        match parse_uuid(id) {
            Ok(bits) => Ok(DbId(bits)),
            Err(error) => Err(error),
        }
    }
}

/// What the conversion yields is stated by the contract of `from`.
impl FromSpecImpl<DbId> for String {
    open spec fn obeys_from_spec() -> bool {
        false
    }

    open spec fn from_spec(id: DbId) -> Self {
        arbitrary()
    }
}

impl From<DbId> for String {
    /// The identifier as text, in the hyphenated form of a UUID.
    fn from(id: DbId) -> (text: Self)
        ensures
            text@ == hyphenated(id@),
    {
        id.to_string()
    }
}

} // verus!
