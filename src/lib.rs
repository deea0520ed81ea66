//! A minimal byte-source abstraction for in-place deserialization.
//!
//! A [`CoreRead`] source hands out bytes one at a time or as slices that borrow
//! from storage living at least as long as the source's lifetime parameter, so
//! that a consumer can build zero-copy views over them.
pub mod reader;

pub use reader::{CoreRead, SliceReadError};
