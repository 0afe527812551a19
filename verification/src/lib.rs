pub mod decoder;
pub mod memory;
pub mod heap;
pub mod interrupt;
pub mod timer;
pub mod context;
pub mod dol;
pub mod text;
pub mod analysis;
pub mod codegen;
pub mod control_flow;
pub mod chars;
pub mod linker;
pub mod error;
pub mod validator;
pub mod game_quirks;
pub mod debug;
pub mod ghidra;
pub mod inter_procedural;
pub mod pointer;
pub mod pipeline;
pub mod data_flow;
pub mod optimizer;
pub mod loop_analysis;
pub mod dvd;
pub mod enrich;
pub mod ir;
pub mod pattern_detection;
pub mod structure;
pub mod simd;
pub mod codecs;
pub mod compression;
pub mod target;
pub mod register_alloc;
pub mod structs;
pub mod json;
pub mod variant;
