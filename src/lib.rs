//! Translation of an eight-instruction tape language into x86-64 assembly text.
pub mod brackets;
pub mod cli;
pub mod decimal;
pub mod instr;
pub mod listing;
pub mod machine;
pub mod semantics;
pub mod translate;

pub use cli::Args;
pub use translate::{generate_x86, GenerateX86Error};
