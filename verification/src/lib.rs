//! Execution core of a small decimal/byte-oriented virtual machine.
//!
//! Words hold thirty magnitude bits (five six-bit bytes) plus a sign flag;
//! registers hold twelve magnitude bits (two six-bit bytes) plus a sign flag.
//! Instructions pack five logical fields (sign, address, index, modifier,
//! operation code) into one word, and the machine runs a fetch-decode-execute
//! pass over its memory.

pub mod computer;
pub mod field;
pub mod instruction;
pub mod program;
pub mod register;
pub mod word;
