//! Decoder for a chunked binary resource container: a stream of 4-byte
//! tagged, length-delimited sections, ending at a terminal `ENDF` tag.
//!
//! The library is organised bottom-up: [`local_types`] holds the fixed-width
//! integer decoders, [`cursor`] the forward-only byte cursor, [`format`] the
//! mathematical model of the wire format, and [`parser`] the executable
//! section readers and the top-level dispatcher.

pub mod cursor;
pub mod error;
pub mod format;
pub mod local_types;
pub mod parser;
