//! A small fixed-width-instruction interpreter in the CHIP-8 style, with
//! every instruction's effect stated over a mathematical model of the machine
//! (`semantics`), a proof that every run ends (`progress`), the executable
//! machine (`machine`) and properties that hold of every program (`laws`).
//!
//! Two small companions stand beside it: a recipient-filtered mailbox
//! (`mailbox`) and the bit fields of a single-precision float (`float_bits`).

pub mod semantics;
pub mod progress;
pub mod machine;
pub mod laws;
pub mod mailbox;
pub mod float_bits;
