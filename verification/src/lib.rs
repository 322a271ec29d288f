//! Structural outlines of source files, rendered in a brace-delimited token format.
//!
//! A front end hands this library a syntax tree and the diagnostics that the
//! parse produced, both as plain values. The library classifies each
//! declaration, builds the nested outline, and renders the outline and the
//! diagnostics as text.
#![allow(non_snake_case)]
#![allow(non_camel_case_types)]

pub mod util;
pub mod token_writer;
pub mod source_model;
pub mod parse_describe;
pub mod syntax;
pub mod structure_visitor;
