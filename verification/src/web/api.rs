//! The JSON API: its keys, its errors, and who is let in.

use crate::service::ServiceError;
use std::str::FromStr;
use vstd::prelude::*;
use vstd::std_specs::convert::FromSpecImpl;
use vstd::string::StringExecFns;

verus! {

/// The request header that carries the API key.
pub const API_KEY_HEADER: &'static str = "x-api-key";

/// Number of bytes in a freshly generated API key.
pub const API_KEY_LEN: usize = 16;

/// HTTP status: bad request.
pub const STATUS_BAD_REQUEST: u16 = 400;

/// HTTP status: unauthorized.
pub const STATUS_UNAUTHORIZED: u16 = 401;

/// HTTP status: not found.
pub const STATUS_NOT_FOUND: u16 = 404;

/// HTTP status: internal server error.
pub const STATUS_INTERNAL_SERVER_ERROR: u16 = 500;

/// The text that `base64::encode` makes of a sequence of bytes: their
/// base64 form in the standard alphabet, with padding.
pub uninterp spec fn base64_encoding(bytes: Seq<u8>) -> Seq<char>;

/// What `base64::decode` makes of a text: the bytes it reads from it, or,
/// where it rejects the text, its complaint as the error displays it.
pub uninterp spec fn base64_decoding(text: Seq<char>) -> Result<Seq<u8>, Seq<char>>;

/// Whether the base64 form of `len` bytes, four characters for every three
/// bytes or part of three, still fits in an allocation.
pub open spec fn encodable_len(len: nat) -> bool {
    4 * ((len + 2) / 3) <= isize::MAX
}

/// Calls `base64::encode`, which encodes with the standard engine into a
/// new string. It panics where the encoded length cannot be allocated,
/// which `requires` rules out. The result is a function of the bytes alone
/// and is named, not spelled out.
#[verifier::external_body]
fn encode_base64(bytes: &[u8]) -> (text: String)
    requires
        encodable_len(bytes@.len()),
    ensures
        text@ == base64_encoding(bytes@),
{
    #[allow(deprecated)]
    base64::encode(bytes)
}

/// Calls `base64::decode`, which decodes with the standard engine and
/// rejects text that is not canonical base64, and formats the error of a
/// rejection through its `Display` impl. Whether the text is accepted, the
/// bytes if it is and the complaint if it is not are a function of the text
/// alone and are named, not spelled out.
#[verifier::external_body]
fn decode_base64(text: &str) -> (decoded: Result<Vec<u8>, String>)
    ensures
        match decoded {
            Ok(bytes) => base64_decoding(text@) == Ok::<Seq<u8>, Seq<char>>(bytes@),
            Err(complaint) => base64_decoding(text@) == Err::<Seq<u8>, Seq<char>>(complaint@),
        },
{
    #[allow(deprecated)]
    match base64::decode(text) {
        Ok(bytes) => Ok(bytes),
        Err(error) => Err(format!("{}", error)),
    }
}

/// Calls `rand::random::<u8>`, which draws a byte from the generator of the
/// current thread. Any byte may come back.
#[verifier::external_body]
fn random_byte() -> (byte: u8) {
    rand::random::<u8>()
}

/// What is wrong with the API key of a request.
#[derive(Debug)]
pub enum ApiKeyError {
    /// The request carries no key, or one that is not stored.
    NotFound(String),
    /// The key is not valid base64.
    DecodeError(String),
}

/// An API key error as the contracts see it.
pub enum ApiKeyErrorView {
    NotFound(Seq<char>),
    DecodeError(Seq<char>),
}

impl View for ApiKeyError {
    type V = ApiKeyErrorView;

    open spec fn view(&self) -> ApiKeyErrorView {
        match self {
            ApiKeyError::NotFound(detail) => ApiKeyErrorView::NotFound(detail@),
            ApiKeyError::DecodeError(detail) => ApiKeyErrorView::DecodeError(detail@),
        }
    }
}

impl ApiKeyError {
    /// The HTTP status with which the error is answered.
    pub fn status(&self) -> (code: u16)
        ensures
            code == match self {
                ApiKeyError::NotFound(_) => STATUS_NOT_FOUND,
                ApiKeyError::DecodeError(_) => STATUS_BAD_REQUEST,
            },
    {
        match self {
            ApiKeyError::NotFound(_) => STATUS_NOT_FOUND,
            ApiKeyError::DecodeError(_) => STATUS_BAD_REQUEST,
        }
    }

    /// What the error says of itself.
    pub fn message(&self) -> (text: &'static str)
        ensures
            text@ == match self {
                ApiKeyError::NotFound(_) => "API key not found"@,
                ApiKeyError::DecodeError(_) => "invalid API key format"@,
            },
    {
        match self {
            ApiKeyError::NotFound(_) => "API key not found",
            ApiKeyError::DecodeError(_) => "invalid API key format",
        }
    }
}

/// What the API answers when it cannot serve a request.
#[derive(Debug)]
pub enum ApiError {
    /// What was asked for does not exist.
    NotFound(String),
    /// The server failed.
    Server(String),
    /// The request is at fault.
    User(String),
    /// The API key is at fault.
    KeyError(ApiKeyError),
}

/// An API error as the contracts see it.
pub enum ApiErrorView {
    NotFound(Seq<char>),
    Server(Seq<char>),
    User(Seq<char>),
    KeyError(ApiKeyErrorView),
}

impl View for ApiError {
    type V = ApiErrorView;

    open spec fn view(&self) -> ApiErrorView {
        match self {
            ApiError::NotFound(detail) => ApiErrorView::NotFound(detail@),
            ApiError::Server(detail) => ApiErrorView::Server(detail@),
            ApiError::User(detail) => ApiErrorView::User(detail@),
            ApiError::KeyError(error) => ApiErrorView::KeyError(error@),
        }
    }
}

/// The API error that a refusal of the service layer turns into.
pub open spec fn api_error_of(err: ServiceError) -> ApiErrorView {
    match err {
        ServiceError::Clip(detail) => ApiErrorView::User("clip parsing error: "@ + detail@),
        ServiceError::NotFound => ApiErrorView::NotFound("entity not found"@),
        ServiceError::Data(_) => ApiErrorView::Server("a server error occurred"@),
        ServiceError::PermissionError(detail) => ApiErrorView::User(detail@),
    }
}

impl ApiError {
    /// The HTTP status with which the error is answered.
    pub fn status(&self) -> (code: u16)
        ensures
            code == match self {
                ApiError::NotFound(_) => STATUS_NOT_FOUND,
                ApiError::Server(_) => STATUS_INTERNAL_SERVER_ERROR,
                ApiError::User(_) => STATUS_UNAUTHORIZED,
                ApiError::KeyError(_) => STATUS_BAD_REQUEST,
            },
    {
        match self {
            ApiError::NotFound(_) => STATUS_NOT_FOUND,
            ApiError::Server(_) => STATUS_INTERNAL_SERVER_ERROR,
            ApiError::User(_) => STATUS_UNAUTHORIZED,
            ApiError::KeyError(_) => STATUS_BAD_REQUEST,
        }
    }

    /// What the error says of itself.
    pub fn message(&self) -> (text: &'static str)
        ensures
            text@ == match self {
                ApiError::NotFound(_) => "not found"@,
                ApiError::Server(_) => "server error"@,
                ApiError::User(_) => "client error"@,
                ApiError::KeyError(_) => "key error"@,
            },
    {
        match self {
            ApiError::NotFound(_) => "not found",
            ApiError::Server(_) => "server error",
            ApiError::User(_) => "client error",
            ApiError::KeyError(_) => "key error",
        }
    }
}

/// What the conversion yields is stated by the contract of `from`.
impl FromSpecImpl<ServiceError> for ApiError {
    open spec fn obeys_from_spec() -> bool {
        false
    }

    open spec fn from_spec(err: ServiceError) -> Self {
        arbitrary()
    }
}

impl From<ServiceError> for ApiError {
    /// A clip that cannot be parsed and a missing permission are the
    /// client's fault, a failing store is the server's.
    fn from(err: ServiceError) -> (api_error: Self)
        ensures
            api_error@ == api_error_of(err),
    {
        match err {
            ServiceError::Clip(detail) => ApiError::User(
                "clip parsing error: ".to_owned().concat(detail.as_str()),
            ),
            ServiceError::NotFound => ApiError::NotFound("entity not found".to_owned()),
            ServiceError::Data(_) => ApiError::Server("a server error occurred".to_owned()),
            ServiceError::PermissionError(detail) => ApiError::User(detail),
        }
    }
}

/// An API key: the bytes that a client presents, in base64, to be let in.
#[derive(Debug)]
pub struct ApiKey(Vec<u8>);

impl View for ApiKey {
    type V = Seq<u8>;

    closed spec fn view(&self) -> Seq<u8> {
        self.0@
    }
}

impl Clone for ApiKey {
    fn clone(&self) -> (copy: Self)
        ensures
            copy@ == self@,
    {
        ApiKey(self.0.clone())
    }
}

/// Why a request is turned away: the HTTP status and the error to answer
/// with.
#[derive(Debug)]
pub struct Rejection {
    pub status: u16,
    pub error: ApiError,
}

/// The outcome of reading a key from what a decoding attempt yields: the
/// key of the decoded bytes, or a decode error with the decoder's complaint.
pub open spec fn key_of_decoded(decoded: Result<Seq<u8>, Seq<char>>, parsed: Result<
    ApiKey,
    ApiKeyError,
>) -> bool {
    match decoded {
        Ok(bytes) => parsed matches Ok(api_key) && api_key@ == bytes,
        Err(complaint) => parsed matches Err(error) && error@ == ApiKeyErrorView::DecodeError(
            complaint,
        ),
    }
}

/// How a decoding attempt looks to the contracts.
pub open spec fn decoded_view(decoded: Result<Vec<u8>, String>) -> Result<Seq<u8>, Seq<char>> {
    match decoded {
        Ok(bytes) => Ok(bytes@),
        Err(complaint) => Err(complaint@),
    }
}

/// The rejection of a request without a stored key.
pub open spec fn is_key_not_found(rejection: Rejection) -> bool {
    rejection.status == STATUS_BAD_REQUEST && rejection.error@ == ApiErrorView::KeyError(
        ApiKeyErrorView::NotFound("API key not found"@),
    )
}

/// The rejection of a request that the server cannot check.
pub open spec fn is_server_error(rejection: Rejection) -> bool {
    rejection.status == STATUS_INTERNAL_SERVER_ERROR && rejection.error@ == ApiErrorView::Server(
        "server error"@,
    )
}

fn key_not_found() -> (rejection: Rejection)
    ensures
        is_key_not_found(rejection),
{
    Rejection {
        status: STATUS_BAD_REQUEST,
        error: ApiError::KeyError(ApiKeyError::NotFound("API key not found".to_owned())),
    }
}

fn server_error() -> (rejection: Rejection)
    ensures
        is_server_error(rejection),
{
    Rejection {
        status: STATUS_INTERNAL_SERVER_ERROR,
        error: ApiError::Server("server error".to_owned()),
    }
}

impl ApiKey {
    /// Whether the key is short enough for its base64 form to be allocated.
    pub fn can_encode(&self) -> (ok: bool)
        ensures
            ok == encodable_len(self@.len()),
    {
        self.0.len() <= (isize::MAX as usize) / 4 * 3
    }

    /// The key in base64.
    pub fn to_base64(&self) -> (text: String)
        requires
            encodable_len(self@.len()),
        ensures
            text@ == base64_encoding(self@),
    {
        encode_base64(self.0.as_slice())
    }

    /// Gives the bytes of the key back.
    pub fn into_inner(self) -> (bytes: Vec<u8>)
        ensures
            bytes@ == self@,
    {
        self.0
    }

    /// The key that a decoding attempt yields: the decoded bytes, or a
    /// decode error that carries the decoder's complaint.
    pub fn from_decoded(decoded: Result<Vec<u8>, String>) -> (parsed: Result<ApiKey, ApiKeyError>)
        ensures
            key_of_decoded(decoded_view(decoded), parsed),
    {
        match decoded {
            Ok(bytes) => Ok(ApiKey(bytes)),
            Err(complaint) => Err(ApiKeyError::DecodeError(complaint)),
        }
    }

    /// The first half of the guard on a request, before the store is asked.
    ///
    /// A request without the key header is turned away as lacking a key,
    /// whatever the state of the server. One with a header is turned away
    /// with a server error if the database is not at hand, and as malformed
    /// if the header is not base64. Otherwise the key is handed out to be
    /// looked up.
    pub fn from_header(header: Option<&str>, database_ready: bool) -> (outcome: Result<
        ApiKey,
        Rejection,
    >)
        ensures
            match header {
                None => outcome matches Err(rejection) && is_key_not_found(rejection),
                Some(text) => if !database_ready {
                    outcome matches Err(rejection) && is_server_error(rejection)
                } else {
                    match base64_decoding(text@) {
                        Ok(bytes) => outcome matches Ok(api_key) && api_key@ == bytes,
                        Err(complaint) => outcome matches Err(rejection) && rejection.status
                            == STATUS_BAD_REQUEST && rejection.error@ == ApiErrorView::KeyError(
                            ApiKeyErrorView::DecodeError(complaint),
                        ),
                    }
                },
            },
    {
        match header {
            None => Err(key_not_found()),
            Some(text) => {
                if !database_ready {
                    return Err(server_error());
                }
                match ApiKey::from_str(text) {
                    Ok(api_key) => Ok(api_key),
                    Err(error) => Err(
                        Rejection { status: STATUS_BAD_REQUEST, error: ApiError::KeyError(error) },
                    ),
                }
            },
        }
    }

    /// The second half of the guard, once the store has been asked whether
    /// the key is valid: `None` stands for a store that could not answer.
    /// A valid key is let in, an unknown one is turned away as not found,
    /// and a failing store gives a server error.
    pub fn checked(self, validity: Option<bool>) -> (outcome: Result<ApiKey, Rejection>)
        ensures
            match validity {
                Some(true) => outcome == Ok::<ApiKey, Rejection>(self),
                Some(false) => outcome matches Err(rejection) && is_key_not_found(rejection),
                None => outcome matches Err(rejection) && is_server_error(rejection),
            },
    {
        match validity {
            Some(true) => Ok(self),
            Some(false) => Err(key_not_found()),
            None => Err(server_error()),
        }
    }
}

impl Default for ApiKey {
    /// A fresh key of `API_KEY_LEN` random bytes.
    fn default() -> (key: Self)
        ensures
            key@.len() == API_KEY_LEN,
    {
        let mut bytes: Vec<u8> = Vec::new();
        let mut n: usize = 0;
        while n < API_KEY_LEN
            invariant
                n <= API_KEY_LEN,
                bytes@.len() == n,
            decreases API_KEY_LEN - n,
        {
            bytes.push(random_byte());
            n += 1;
        }
        ApiKey(bytes)
    }
}

impl FromStr for ApiKey {
    type Err = ApiKeyError;

    /// Reads a key from its base64 form.
    fn from_str(key: &str) -> (parsed: Result<Self, Self::Err>)
        ensures
            key_of_decoded(base64_decoding(key@), parsed),
    {
        ApiKey::from_decoded(decode_base64(key))
    }
}

} // verus!
