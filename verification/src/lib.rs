//! Conversion of Confluence storage format into Markdown, and the rules of
//! the client that fetches it.
//!
//! The storage format is HTML with elements of two custom namespaces for
//! macros, images, links, mentions, task lists and extension blocks. The
//! converter in [`markdown::confluence`] rewrites those elements into text
//! that a generic HTML-to-Markdown converter understands, hands the text to
//! that converter, and cleans up behind it. No scan of a text can run away:
//! every pass has a budget of steps or works on a text that gets shorter.
//!
//! Texts are sequences of characters throughout. The contracts of the
//! functions say, over those sequences, exactly what each function returns.

pub mod brackets;
pub mod config;
pub mod confluence;
pub mod filter;
pub mod http;
pub mod json;
pub mod markdown;
pub mod scan;
pub mod text;
