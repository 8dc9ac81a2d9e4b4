//! Extraction-and-relevance pipeline for PDF document collections.
//!
//! Given per-page content-stream text operations and a persona/task query,
//! the library decodes page text, normalizes it, extracts candidate section
//! headings, segments paragraph units, derives keyword sets from the query,
//! filters relevant passages, and ranks headings by aggregated keyword
//! relevance of co-located text.
#![verifier::loop_isolation(false)]

pub mod chars;
pub mod decoder;
pub mod headings;
pub mod keywords;
pub mod matching;
pub mod models;
pub mod normalize;
pub mod paragraphs;
pub mod pipeline;
pub mod rank;
pub mod relevance;
pub mod utils;
