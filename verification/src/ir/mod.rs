//! A small intermediate representation: building it from decoded
//! instructions, optimizing it, and translating it to Rust.
pub mod instruction;
pub mod builder;
pub mod optimizer;
pub mod to_rust;
