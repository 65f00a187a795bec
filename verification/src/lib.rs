//! Core of a visual node-graph editor: a strongly typed field model built
//! from a remote capability descriptor, an in-memory graph of node instances
//! and typed links, a compiler that flattens the graph into an execution
//! request, and a codec for the interchange document format.

pub mod field;
pub mod schema;
pub mod graph;
pub mod project;
pub mod workflow;
pub mod codec;
pub mod prompt;
pub mod linkedit;
pub mod tabs;
pub mod model;
