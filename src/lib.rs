//! Converts Markdown documents into Org-mode documents.
//!
//! The library classifies each body line of a Markdown document as a header or
//! a list entry, extracts its text, and renders the result in Org syntax.

pub mod document;
pub mod element;
pub mod laws;
pub mod org;
pub mod paths;
pub mod text;
