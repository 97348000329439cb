//! Parser for HLS (HTTP Live Streaming) M3U8 text manifests.
//!
//! The pipeline normalizes the raw text into lines, classifies each line as
//! a comment, a tag or a URI, decides whether the whole document is a master
//! or a media playlist, and then builds either the segment list (media) or
//! the variant tag list (master), resolving every URI reference against the
//! manifest's own absolute URI.

pub mod builder;
pub mod classify;
pub mod hls_structs;
pub mod lines;
pub mod manifest_text_parser;
pub mod resolver;
pub mod tag_parser;
pub mod text;
