//! The crate's narrow window onto the host: the wall clock, standard
//! output, and fresh identifiers.  Everything else in the crate is decided
//! from plain values.

use std::io::Write;
use vstd::prelude::*;

verus! {

/// Relies on std::time::SystemTime::now: a reading of the wall clock as
/// nanoseconds since the UNIX epoch.  Nothing is assumed of the value —
/// callers must hold for every reading.
#[verifier::external_body]
pub(crate) fn now_nanos() -> u64 {
    match std::time::SystemTime::now().duration_since(std::time::UNIX_EPOCH) {
        Ok(d) => d.as_nanos() as u64,
        Err(_) => 0,
    }
}

/// Relies on std::io::Stdout::write_fmt (through `writeln!`): prints one
/// line to standard output.
#[verifier::external_body]
pub(crate) fn emit_line(line: &str) {
    let _ = writeln!(std::io::stdout(), "{}", line);
}

/// Relies on uuid::Uuid::new_v4 and uuid::fmt::Simple: a fresh random
/// identifier rendered as exactly 32 hexadecimal characters.  The value is
/// random, so nothing more is assumed of it.
#[verifier::external_body]
pub(crate) fn fresh_uuid_simple() -> (id: String)
    ensures
        id@.len() == 32,
{
    uuid::Uuid::new_v4().simple().to_string()
}

} // verus!
