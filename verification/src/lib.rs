//! The content-processing core of a static site builder.
//!
//! Documents arrive as markdown event streams with a structured header
//! block.  The library resolves each document's identity from its path,
//! extracts and cross-validates its header fields, derives its slug,
//! orders the collection chronologically with navigation links, renders
//! each event stream into styled HTML fragments (with a closed custom-tag
//! mechanism), and synthesizes the syndication feed.

pub mod config;
pub mod content;
pub mod content_id;
pub mod datetime;
pub mod engine;
pub mod events;
pub mod feed;
pub mod metadata;
pub mod ordering;
pub mod post_id;
pub mod render;
pub mod sorting;
pub mod strutil;
