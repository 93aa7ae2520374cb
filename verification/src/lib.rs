//! Listing of resurrectable terminal-workspace sessions.
//!
//! The library flattens persisted pane-layout trees into ordered run lists,
//! assembles a display model of sessions and tabs, orders it by recency, and
//! renders it as a structured document, as colorized text, or as plain text.

pub mod builder;
pub mod flatten;
pub mod json;
pub mod listing;
pub mod model;
pub mod render;
pub mod sort;
pub mod text;
