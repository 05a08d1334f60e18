//! A functional instruction-set simulator core for a 32-bit RISC-V guest.
//!
//! The crate verifies the fetch-decode-execute engine: a bit-pattern
//! instruction matcher, per-format operand extraction, an ordered decoder
//! registry, the step loop, and the owning emulation session together with
//! the flat guest memory it reads and writes through.

pub mod common;
pub mod decode;
pub mod executer;
pub mod memory;
pub mod operand;
pub mod riscv32;
pub mod session;

pub use common::Word;
