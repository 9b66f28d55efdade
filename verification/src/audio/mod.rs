//! Sound devices: which ones to use, how they are driven, and what goes wrong.
pub mod discover;
pub mod error;
pub mod file_source;
pub mod stream;
