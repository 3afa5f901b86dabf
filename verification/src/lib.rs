//! A client-side model of the Go Text Protocol and of the analysis stream
//! that engines add to it: the values that travel, their text on the wire,
//! and the bookkeeping of one engine's output.

pub mod controller;
pub mod engine;
pub mod model;
pub mod number;
pub mod prelude;
pub mod text;
pub mod text_laws;
