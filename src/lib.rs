//! Formats span lifecycle transitions and events as newline-delimited JSON
//! records in the Bunyan log format.

pub mod context;
pub mod json;
pub mod level;
pub mod message;
pub mod record;
