//! A small pattern language that describes a set of strings, and a sampler
//! that draws one string of that set.
//!
//! [`parser::parse`] turns the text of a pattern into a syntax tree, as
//! [`grammar`] defines it; [`generator::Generate::generate`] on a node of the
//! tree draws a string from a random source. [`laws`] holds what is proved of
//! the two together. [`handler`] reads the commands of a chat message and
//! words the answers; [`store`] holds the rows of stored patterns.
pub mod generator;
pub mod grammar;
pub mod handler;
pub mod laws;
pub mod model;
pub mod parser;
pub mod random;
pub mod store;
pub mod text;
