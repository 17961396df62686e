//! Generates a typed, memory-safe Rust wrapper library around the C ABI that
//! the Futhark compiler emits for a kernel, from the compiler's header text alone.

pub mod builder;
pub mod config;
pub mod equiv;
pub mod model;
pub mod pipeline;
pub mod scan;
pub mod synth;
pub mod text;

pub use config::Opt;
