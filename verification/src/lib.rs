//! A single-line shell prompt builder.
//!
//! The library classifies raw git status flags into dirty indicators,
//! manages the elapsed-time handshake between the pre-command and
//! post-command invocations of the prompt tool, shortens the working
//! directory against the home directory, and assembles the final
//! shell-safe, optionally colorized prompt bytes.

use vstd::prelude::*;

pub mod bytes;
pub mod elapsed;
pub mod escape;
pub mod render;
pub mod shorten;
pub mod status;

verus! {

/// Errors from reading a recorded start time back.
#[derive(Clone, Copy, Debug, PartialEq, Eq, Structural)]
pub enum ElapsedError {
    /// No record exists for the requested process id.
    NotFound,
    /// A record exists but does not hold a well-formed tick count.
    CorruptRecord,
}

} // verus!
