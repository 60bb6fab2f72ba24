pub mod eval;
pub mod genome;
pub mod sample;

pub use genome::{Mep, MepError, Opcode};
