//! Requests that the web layer puts to the service layer.

pub mod ask;

use vstd::prelude::*;

verus! {

/// Why the service layer refused a request. The clip and data variants
/// hold the message of the error that caused them.
#[derive(Debug)]
pub enum ServiceError {
    /// The clip could not be built from what was given or stored.
    Clip(String),
    /// Nothing is stored under what was asked for.
    NotFound,
    /// The store failed.
    Data(String),
    /// The request lacks the right to what it asks for.
    PermissionError(String),
}

} // verus!
