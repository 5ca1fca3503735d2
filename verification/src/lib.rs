//! Timestamp format inference.
//!
//! The library takes an arbitrary decoded string and decides whether it is a
//! timestamp in one of a fixed, ordered catalog of textual formats, or a raw
//! count of epoch seconds, and renders resolved instants in the RFC 2822
//! convention.

pub mod calendar;
pub mod catalog;
pub mod describe;
pub mod laws;
pub mod pattern;
pub mod render;
pub mod resolver;
