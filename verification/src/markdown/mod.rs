//! The conversion of markup into Markdown.

pub mod common;
pub mod confluence;
pub mod converter;
pub mod nesting;
