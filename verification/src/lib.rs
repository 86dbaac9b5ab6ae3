//! The node graph that the code generator builds from rustdoc output.

pub mod item;
pub mod laws;
pub mod node_laws;
pub mod model;
pub mod node;
pub mod pattern;
pub mod request;
pub mod builder;
pub mod command;
