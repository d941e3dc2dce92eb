//! Event normalization for a pull-style XML parser.
//!
//! A tokenizer hands this layer a sequence of classified raw events; the
//! layer applies the options of a [`ParserConfig`] (comment suppression,
//! whitespace and CDATA conversion, trimming, merging of adjacent text) and
//! hands back the normalized sequence, either all at once through
//! [`normalize_events`] or one event at a time through a [`Normalizer`].
pub mod config;
pub mod event;
pub mod laws;
pub mod normalizer;
pub mod text;

pub use config::ParserConfig;
pub use event::XmlEvent;
pub use normalizer::{normalize_events, Normalizer};
pub use text::{is_xml_space_char, trim_xml};
