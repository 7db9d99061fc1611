//! Decode errors surfaced by the wire-format codec.
//!
//! Malformed wire data is reported to the caller as a typed error rather
//! than aborting the process; transport-level failures are handled by the
//! caller of the library and never reach these values.

use vstd::prelude::*;

verus! {

/// Why a byte buffer could not be decoded.
#[derive(Debug, Clone, Copy, PartialEq, Eq, Structural)]
pub enum DnsError {
    /// The buffer ended before the field being read.
    Truncated,
    /// A TYPE field held a value outside the closed RFC 1035 set.
    BadType,
    /// A CLASS field held a value outside the closed RFC 1035 set.
    BadClass,
    /// A decoded name held bytes that do not form an ASCII string.
    BadName,
}

} // verus!
