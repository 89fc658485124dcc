//! Codec and telegram parser for CC8488 compatible weather stations.
//!
//! The library decodes the fixed-layout frames that such a console exchanges
//! over USB HID, reassembles the text telegram carried in data frame
//! fragments, and parses that telegram into a telemetry record.
pub mod calendar;
pub mod container;
pub mod cursor;
pub mod error;
pub mod parser;
pub mod protocol;

pub use container::Ws6in1Container;
pub use error::{BufferTooSmall, Error, Result};
