//! Records that an access point reports.

pub mod types;

pub use self::types::{Config, Status};
