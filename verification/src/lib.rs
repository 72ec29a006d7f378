//! Text renderings of two small records: a named geographic point and an
//! RGB colour.
//!
//! Each renderer is a total function. What it returns is fixed, character
//! by character, by a spec function over `Seq<char>`, and the laws that
//! relate the text to the record are proof functions beside it.

pub mod city;
pub mod color;
pub mod degrees;
pub mod digits;
