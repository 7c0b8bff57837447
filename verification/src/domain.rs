//! Domain objects of the clip service.

pub mod clip;
pub mod time;
