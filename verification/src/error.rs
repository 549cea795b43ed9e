//! The error taxonomy every public operation reports through.

use vstd::prelude::*;

verus! {

/// Errors for the base controller API.
///
/// Every expected failure mode of a dispatch call is one of these variants;
/// the library never panics on device or transport conditions.
#[derive(Debug, Clone, PartialEq)]
pub enum Error {
    /// Underlying channel read/write/open failure (not a would-block or
    /// timed-out poll artifact); unrecoverable for that transaction.
    Io(String),
    /// Port or host discovery failed to locate the addressed hardware.
    DeviceNotFound,
    /// A locally checked precondition failed (mode/module scope mismatch,
    /// malformed constructor argument); no wire traffic occurred.
    InvalidParams(String),
    /// Frame terminator missing, malformed frame, or a response length that
    /// did not match the expected count.
    InvalidResponse(String),
    /// Anything that fits no other category.
    Other(String),
    /// The accumulated response exceeded the maximum frame size.
    BufOverflow { max_len: usize, idx: usize },
    /// A numeric argument violated its documented physical range;
    /// no wire traffic occurred.
    Bound(String),
    /// The response bytes were not valid UTF-8.
    Utf8,
    /// The device itself reported an error frame; the device's literal
    /// message is preserved verbatim.
    DeviceError(String),
    /// A response value expected to be numeric failed to parse.
    ParseInt(String),
}

/// Result alias used across the base controller API.
pub type BaseResult<T> = Result<T, Error>;

} // verus!
