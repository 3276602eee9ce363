//! Decodes the lines that a system-call tracer prints, one event to the line,
//! into trees of tokens, and tells of the calls in them how they use the files
//! that they name and whether they succeeded.
//!
//! - [`line`] holds the decoder's entry points and the decoded line;
//!   [`grammar`] says what a line decodes to, and [`parser`] reads it.
//! - [`token`] is the tree and its text; [`walk`] goes through a tree.
//! - [`shape`], [`roundtrip`] and [`plain`] state what holds of every decoded
//!   line, and which lines come back when they are written and decoded again.
//! - [`string`] decodes escaped strings, [`analysis`] is the registry of
//!   functions.
//! - [`syscall`], [`printer`], [`memory`], [`utf8`], [`fs`] and [`cli`] serve a
//!   tracer that reads the registers and the memory of the traced process itself.

pub mod analysis;
pub mod chars;
pub mod cli;
pub mod fs;
pub mod grammar;
pub mod line;
pub mod memory;
pub mod number;
pub mod parser;
pub mod plain;
pub mod printer;
pub mod roundtrip;
pub mod shape;
pub mod string;
pub mod syscall;
pub mod text;
pub mod token;
pub mod utf8;
pub mod walk;

pub use analysis::{classify, AccessMode, ErrorReturnCode, FnInfo, Registry};
pub use line::{
    decode_lines, decode_timestamp, strace_line, try_decode_timestamp, DecodeError, StraceLine,
    StraceParser, Timestamp,
};
pub use string::decode_hex;
pub use token::StraceToken;
pub use walk::{StringCollector, Visitor};
