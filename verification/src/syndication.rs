//! Syndication document formats.

pub mod atom;
