//! Extraction of top-level constructs from source text into a structured
//! file model, and reconstruction of source text from that model.

pub mod ars_file;
pub mod balancer;
pub mod decoder;
pub mod encoder;
pub mod pattern;
pub mod syntax_elements;
pub mod text;
