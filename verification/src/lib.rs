//! Filtering of URL lists by file extension and by a normalized duplicate key.
//!
//! A line of input is accepted where it parses as a URL, the extension of the
//! file it names passes the allow-list and the deny-list, and, unless
//! duplicates are allowed, no line with the same key was accepted before.

pub mod config;
pub mod extension;
pub mod filter;
pub mod parsed_url;
pub mod text;
pub mod url_history;
