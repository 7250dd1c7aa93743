//! Multicodec identifiers: type-safe code and name wrappers, errors, and the
//! unsigned-varint form in which a code travels on the wire.

pub mod error;
pub mod order;
pub mod text;
pub mod types;
pub mod varint;

pub use error::Error;
pub use types::{CodecCode, CodecName};
