//! Clip sharing: the verified core of a service that stores short-lived text
//! clips behind short codes and counts how often each clip is viewed.
//!
//! The heart of the crate is the write-behind hit counter in
//! [`web::hit_counter`]: views are merged into an in-memory tally and written
//! to the persistent store in batches.

pub mod data;
pub mod domain;
pub mod service;
pub mod web;

pub use domain::clip::field::ShortCode;
pub use domain::time::Time;
pub use service::ServiceError;
