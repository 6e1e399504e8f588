//! The client of the REST interface: what it asks for, what it makes of the
//! answers, and the converter that it runs on page bodies.

pub mod api;
pub mod fields;
pub mod markdown;
