//! A streaming JSON text encoder.
//!
//! The encoder translates a visitor-style sequence of protocol calls (emit a
//! scalar, open or close a sequence, map, struct, or enum variant) into
//! syntactically valid, correctly escaped, correctly delimited JSON text, in
//! either a compact or an indented layout. Every operation's effect on the
//! output text and on the formatting state is stated in its contract.

pub mod encoder;
pub mod fmt_state;
pub mod text;
