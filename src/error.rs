use vstd::prelude::*;

verus! {

/// The errors the fuzzer can report.
#[derive(Debug)]
pub enum Error {
    /// A testcase or a state snapshot could not be encoded or decoded.
    Serialize(String),
    /// A file could not be read or written.
    File(String),
    /// Mandatory metadata is missing.
    EmptyOptional(String),
    /// A corpus index does not exist.
    KeyNotFound(String),
    /// An argument is malformed (a token file line, a hex digit, ...).
    IllegalArgument(String),
    /// An invariant was violated (for example selecting a missing testcase).
    IllegalState(String),
    /// The operation is not supported on this platform.
    NotImplemented(String),
    /// The event manager asked the fuzzer to stop.
    ShuttingDown,
}

} // verus!
