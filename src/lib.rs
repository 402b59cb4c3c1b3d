//! Core of a snippet manager for colors, code and text: color notations and
//! their conversions, snippet data, language detection and configuration.

pub mod chars;
pub mod lexer;
pub mod convert;
pub mod color;
pub mod notation;
pub mod format;
pub mod serialize;
pub mod scan;
pub mod lines;
pub mod snippet;
pub mod config;
pub mod status;
