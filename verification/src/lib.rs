//! An interpreter for an eight-instruction tape language.
//!
//! Source text is parsed into a sequence of [`Instruction`]s, loop brackets
//! are matched by scanning that sequence, and a [`TuringMachine`] executes
//! it over a tape of 30,000 byte cells, reading from an input queue and
//! appending to an output buffer.
//!
//! What each operation does is stated over [`model::MachineView`] and
//! [`model::Session`], the mathematical values that a machine and a run
//! stand for.
//!
//! Jumps go where the two scans of [`brackets`] end. The backward scan
//! from a `]` ends at its partner. The forward scan starts on the `[`
//! itself and counts it, so it ends at the `]` of the loop around, and
//! fails where there is none: see [`brackets::lemma_scan_from_open`].

pub mod brackets;
pub mod error;
pub mod instruction;
pub mod machine;
pub mod model;
pub mod parser;
pub mod search;

pub use error::{Error, ErrorKind};
pub use instruction::Instruction;
pub use machine::TuringMachine;
pub use model::TAPE_SIZE;
