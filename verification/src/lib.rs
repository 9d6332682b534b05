//! Verified MD5 message-digest engine.
//!
//! The `model` module gives a mathematical definition of the MD5 function
//! over byte sequences; the `engine` module implements it executably and
//! proves the implementation equal to the model; the `laws` module states
//! the properties the digest enjoys as a consequence.

pub mod model;
pub mod engine;
pub mod laws;
