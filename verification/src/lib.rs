//! Decoder for DVI (device-independent) page-description byte streams.
//!
//! The crate turns a flat byte buffer into an ordered sequence of typed
//! instructions ([`opcodes::OpCode`]), resolving the stream's internal
//! backward references (beginning-of-page, postamble, postamble pointer)
//! into indices of the output sequence as it goes. Decoding is purely
//! syntactic: it neither validates the decoded program nor re-encodes it.

pub mod byte_reader;
pub mod disassembler;
pub mod errors;
pub mod laws;
pub mod model;
pub mod opcodes;
