//! Decoding of Celeste save-data documents into a typed statistics model.
//!
//! A save file is an XML-like labeled tree. This crate walks such a tree,
//! validates its structure, extracts typed fields, and derives per-area and
//! aggregate statistics ("sum of bests"). Parsing raw text into the tree is
//! delegated to an external XML parser; everything after that is verified.

pub mod aggregate;
pub mod document;
pub mod duration;
pub mod error;
pub mod laws;
pub mod stats;
pub mod textparse;
pub mod world;
pub mod xml;
