//! Builds a module dependency graph for JavaScript/TypeScript projects.
//!
//! Given an entry file, the graph driver resolves specifiers to canonical
//! paths, parses each file, extracts its imports and exports with a precise
//! semantic classification, and connects the files into a directed graph
//! whose edges are labeled as imports or exports.

pub mod ast;
pub mod errors;
pub mod extract;
pub mod js;
pub mod json;
pub mod module;
pub mod module_graph;
pub mod package;
pub mod paths;
pub mod sources;
pub mod yaml;
