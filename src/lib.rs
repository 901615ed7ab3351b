//! An append-only record log addressed by dense offsets, and the request
//! router that exposes it over HTTP.

pub mod decimal;
pub mod json;
pub mod log;
pub mod path;
pub mod record;
pub mod router;

pub use crate::log::{Log, LogError};
pub use crate::record::Record;
