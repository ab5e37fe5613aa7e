//! The trivial source handlers: stylesheets, plain text documents, and
//! opaque media assets. They carry their payload so the graph's nodes
//! are uniform; none of them contributes import or export records.

use vstd::prelude::*;
use crate::module::SourceKind;

verus! {

/// A stylesheet source.
#[derive(Debug, Clone, PartialEq)]
pub struct CssModule {
    pub source: String,
}

/// A plain-text source (markup, query languages, style dialects).
#[derive(Debug, Clone, PartialEq)]
pub struct TextModule {
    pub source: String,
}

/// An opaque media asset: raw bytes plus the classification of the file
/// as audio, image or video, made from its extension.
#[derive(Debug, Clone, PartialEq)]
pub struct MediaModule {
    pub bytes: Vec<u8>,
    pub kind: SourceKind,
}

} // verus!
