//! The HTML pages: what is shown when a request cannot be served as asked.

use crate::service::ServiceError;
use crate::web::api::STATUS_UNAUTHORIZED;
use crate::web::{PageError, PageErrorView};
use vstd::prelude::*;

verus! {

/// What the home page says, with an internal server error, when a valid
/// form could not be stored.
pub const SERVER_ERROR_NOTICE: &'static str = "A server error occurred. Please try again";

/// What the home page says, with a bad request, of a form error that
/// carries no message of its own.
pub const FORM_ERROR_NOTICE: &'static str = "An error occurred, please try again";

/// The status with which the clip page answers a refusal of the service
/// layer, or the page error to answer with instead: a missing permission
/// shows the password prompt as unauthorized, a missing clip is not found,
/// and everything else is an internal error.
pub fn clip_refusal(err: &ServiceError) -> (answer: Result<u16, PageError>)
    ensures
        match err {
            ServiceError::PermissionError(_) => answer == Ok::<u16, PageError>(
                STATUS_UNAUTHORIZED,
            ),
            ServiceError::NotFound => answer matches Err(page_error) && page_error@
                == PageErrorView::NotFound("clip not found"@),
            _ => answer matches Err(page_error) && page_error@ == PageErrorView::Internal(
                "server error"@,
            ),
        },
{
    match err {
        ServiceError::PermissionError(_) => Ok(STATUS_UNAUTHORIZED),
        ServiceError::NotFound => Err(PageError::NotFound("clip not found".to_owned())),
        _ => Err(PageError::Internal("server error".to_owned())),
    }
}

/// The notices that the home page shows for a form that failed validation,
/// one per form error and in their order: the message of a validation
/// error, and a fixed notice for an error of any other kind, given here as
/// `None`.
pub fn form_error_notices(form_errors: &Vec<Option<String>>) -> (notices: Vec<String>)
    ensures
        notices@.len() == form_errors@.len(),
        forall|i: int|
            0 <= i < form_errors@.len() ==> (#[trigger] notices@[i])@ == match form_errors@[i] {
                Some(message) => message@,
                None => FORM_ERROR_NOTICE@,
            },
{
    let mut notices: Vec<String> = Vec::new();
    let mut i: usize = 0;
    while i < form_errors.len()
        invariant
            i <= form_errors.len(),
            notices@.len() == i,
            forall|j: int|
                0 <= j < i ==> (#[trigger] notices@[j])@ == match form_errors@[j] {
                    Some(message) => message@,
                    None => FORM_ERROR_NOTICE@,
                },
        decreases form_errors.len() - i,
    {
        let notice = match &form_errors[i] {
            Some(message) => message.clone(),
            None => FORM_ERROR_NOTICE.to_owned(),
        };
        notices.push(notice);
        i += 1;
    }
    notices
}

} // verus!
