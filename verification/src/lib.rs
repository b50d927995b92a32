//! A player for branching stories.
//!
//! A story is a directed graph of nodes. Each node carries a text and a set of
//! labelled choices, each of which leads to another node; a node without
//! choices ends the story as a win or a loss. The crate holds the story model,
//! the loader that turns a JSON document into a story, the index that finds
//! nodes and predecessors, and the traversal engine that moves a cursor through
//! the graph one accepted choice at a time.

pub mod document;
pub mod engine;
pub mod first;
pub mod index;
pub mod input;
pub mod laws;
pub mod load;
pub mod screen;
pub mod story;
