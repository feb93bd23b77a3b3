//! Text ingestion, transformation and annotation pipeline.
//!
//! The crate collects short snippets of text from several ingress sources,
//! rewrites them through a user-configurable, ordered set of regular
//! expression rules, and renders phonetic-reading (ruby) markup over the
//! result. Beside that pipeline it keeps a content-hash-keyed translation
//! cache and a bounded session history.

pub mod cache;
pub mod clipboard;
pub mod furigana;
pub mod history;
pub mod http_api;
pub mod replace;
pub mod text;
