//! A typed query-building and result-decoding layer in front of an external
//! command-line tool that enumerates installed product instances.
//!
//! The library encodes structured selection parameters into the flat token
//! sequence the tool's grammar requires, drives the ordered fallback search
//! for the tool's executable, and decodes the tool's JSON output into
//! strongly typed installation records. Running the executable itself and
//! resolving OS known folders are capabilities a host program supplies; the
//! decision logic around them lives here and is verified.

pub mod args;
pub mod decode;
pub mod discovery;
pub mod error;
pub mod json;
pub mod selection;
pub mod text;
pub mod version;

pub use crate::error::Error;
pub use crate::error::ParseError;
pub use crate::version::Version;
