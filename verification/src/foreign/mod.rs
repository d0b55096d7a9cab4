//! The calls into other crates.
//!
//! Each item here names an outside function and states what the library relies
//! on. None of these statements is proved; everything else in the library is.

pub mod address;
pub mod certificate;
pub mod fields;
pub mod payload;
