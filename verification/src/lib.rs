//! Snapshots of a terminal-multiplexer session and their replay.
//!
//! A session is read from the multiplexer's line-oriented listings into a
//! typed model ([`object`]); [`snapshot`] says which listing is to be asked
//! for next. The session is rebuilt later by an ordered sequence of
//! multiplexer commands ([`environment`]), handed out one step at a time
//! ([`replay`]). Text handling common to all of them lives in [`text`];
//! [`arguments`] holds what the command line asks for.
//!
//! The library runs no process and reads no file: its callers hand it the
//! lines that the multiplexer printed and issue the commands it returns.

pub mod text;
pub mod object;
pub mod arguments;
pub mod environment;
pub mod replay;
pub mod snapshot;
