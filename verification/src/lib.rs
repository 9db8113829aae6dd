//! HTTP message abstractions: a multi-valued dictionary, a case-insensitive
//! header collection, a lazily evaluated request view and a response
//! container that keeps its `Content-Length` header in step with its body.

pub mod config;
pub mod datastructures;
pub mod httputils;
pub mod text;
pub mod uri;
pub mod wrappers;
