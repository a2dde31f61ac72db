//! Verified conversion core of an R extension framework.
//!
//! R objects are modelled by [`sexp::Sexp`], an owned value tree that holds
//! exactly what the conversion logic reads from an R object (its type, its
//! payload and its attributes). Everything that turns Rust values into R
//! objects, reads them back, builds lists and shapes structured conditions is
//! stated against that model and proved.
#![allow(non_camel_case_types)]

pub mod adapter_traits;
pub mod arrow;
pub mod arrow_frame;
pub mod arrow_to_r;
pub mod cached_class;
pub mod condition;
pub mod connection;
pub mod encoding;
pub mod expression;
pub mod externalptr;
pub mod from_r;
pub mod into_r;
pub mod list;
pub mod r_buffers;
pub mod roundtrip;
pub mod sets;
pub mod sexp;
pub mod text;

