//! Semantic intelligence engine of a language server for the SEA
//! modeling language: a per-snapshot structural index, a deterministic
//! symbol resolver over the semantic graph, a size-bounded hover payload
//! builder with its JSON and Markdown renderings, and the definition and
//! reference lookups behind navigation.
//!
//! Every public operation is a pure function of its snapshot inputs:
//! the document text, the parsed index, the optional graph model, the
//! position and the configuration. Identical inputs give byte-identical
//! output, including under truncation.

pub mod graphmodel;
pub mod hover;
pub mod index;
pub mod json;
pub mod markdown;
pub mod navigation;
pub mod order;
pub mod position;
pub mod resolve;
pub mod symbols;
pub mod syntax;
pub mod text;
