//! Caption manifests and timed-text transcripts of a video platform, decoded
//! into typed values.
//!
//! The library does no input or output. It says which page to ask for
//! ([`DigestScraper::page_url`]), what to do with the page that came back
//! ([`DigestScraper::receive_page`]), what the page holds
//! ([`Digest::from_page`]), where a track is fetched from
//! ([`CaptionScraper::fetch_url`]), and what the fetched document says
//! (`decode` in [`format::srv1`], [`format::srv2`] and [`format::srv3`]).
//!
//! Every function carries a contract over the mathematical value of its
//! arguments and its result. Markup, JSON, patterns and language tags are
//! read by the crates made for them; what those crates hand back is named in
//! [`xml::source`], [`json`], [`consent`] and [`tags`], and everything built
//! on it is proved.

pub mod consent;
pub mod error;
pub mod format;
pub mod json;
pub mod manifest;
pub mod scraper;
pub mod tags;
pub mod text;
pub mod xml;

pub use error::{DecodeError, Error, Result};
pub use format::Format;
pub use scraper::{Attempt, CaptionScraper, Digest, DigestScraper, PageAction};
