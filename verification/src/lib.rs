//! A bidirectional codec for an IMAP-style, line- and literal-oriented
//! message-access protocol.
//!
//! The parsing half turns a byte buffer that arrived incrementally from a
//! connection into structured values, with a three-way failure discipline
//! (need more bytes / malformed / continuation handshake required).  The
//! encoding half turns server-response values back into exact wire bytes.

pub mod atoms;
pub mod b64;
pub mod chars;
pub mod kw;
pub mod literal;
pub mod number;
pub mod outcome;
pub mod quoted;
pub mod response;
pub mod scan;
pub mod section;
pub mod strings;
pub mod wire;

