//! What the web layer of the service needs from the verified core.

pub mod api;
pub mod hit_counter;
pub mod http;

use vstd::prelude::*;
use vstd::std_specs::convert::FromSpecImpl;

verus! {

/// The name of the cookie that carries the password of a clip.
pub const PASSWORD_COOKIE: &'static str = "password";

/// The error of the `handlebars` template engine, carried as it is.
#[verifier::external_type_specification]
#[verifier::external_body]
pub struct ExRenderError(handlebars::RenderError);

/// The error of `serde_json`, carried as it is.
#[verifier::external_type_specification]
#[verifier::external_body]
pub struct ExJsonError(serde_json::Error);

/// Formats a `handlebars::RenderError` through its `Display` impl. Nothing
/// is claimed of the text.
#[verifier::external_body]
fn render_error_text(err: &handlebars::RenderError) -> (text: String) {
    format!("{}", err)
}

/// Formats a `serde_json::Error` through its `Display` impl. Nothing is
/// claimed of the text.
#[verifier::external_body]
fn json_error_text(err: &serde_json::Error) -> (text: String) {
    format!("{}", err)
}

/// Why a page could not be served. Each variant holds a message.
#[derive(Debug)]
pub enum PageError {
    /// The data of the page could not be serialized.
    Serialization(String),
    /// The template of the page could not be rendered.
    Render(String),
    /// There is no such page.
    NotFound(String),
    /// The server failed otherwise.
    Internal(String),
}

/// A page error as the contracts see it.
pub enum PageErrorView {
    Serialization(Seq<char>),
    Render(Seq<char>),
    NotFound(Seq<char>),
    Internal(Seq<char>),
}

impl View for PageError {
    type V = PageErrorView;

    open spec fn view(&self) -> PageErrorView {
        match self {
            PageError::Serialization(detail) => PageErrorView::Serialization(detail@),
            PageError::Render(detail) => PageErrorView::Render(detail@),
            PageError::NotFound(detail) => PageErrorView::NotFound(detail@),
            PageError::Internal(detail) => PageErrorView::Internal(detail@),
        }
    }
}

impl PageError {
    /// The HTTP status with which the error is answered: 404 for a page
    /// that does not exist, 500 for everything else.
    pub fn status(&self) -> (code: u16)
        ensures
            code == if self is NotFound {
                api::STATUS_NOT_FOUND
            } else {
                api::STATUS_INTERNAL_SERVER_ERROR
            },
    {
        match self {
            PageError::NotFound(_) => api::STATUS_NOT_FOUND,
            _ => api::STATUS_INTERNAL_SERVER_ERROR,
        }
    }
}

/// What the conversion yields is stated by the contract of `from`.
impl FromSpecImpl<handlebars::RenderError> for PageError {
    open spec fn obeys_from_spec() -> bool {
        false
    }

    open spec fn from_spec(err: handlebars::RenderError) -> Self {
        arbitrary()
    }
}

impl From<handlebars::RenderError> for PageError {
    /// A render error with the message of the template engine.
    fn from(err: handlebars::RenderError) -> (page_error: Self)
        ensures
            page_error is Render,
    {
        PageError::Render(render_error_text(&err))
    }
}

/// What the conversion yields is stated by the contract of `from`.
impl FromSpecImpl<serde_json::Error> for PageError {
    open spec fn obeys_from_spec() -> bool {
        false
    }

    open spec fn from_spec(err: serde_json::Error) -> Self {
        arbitrary()
    }
}

impl From<serde_json::Error> for PageError {
    /// A serialization error with the message of the serializer.
    fn from(err: serde_json::Error) -> (page_error: Self)
        ensures
            page_error is Serialization,
    {
        PageError::Serialization(json_error_text(&err))
    }
}

} // verus!
