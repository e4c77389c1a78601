use vstd::prelude::*;

verus! {

/// The common MRT record header.
#[derive(Debug, Clone, Copy, PartialEq, Eq)]
pub struct Header {
    /// Seconds since the Unix epoch
    pub timestamp: u32,
    /// Microseconds of an extended-timestamp record (0 otherwise)
    pub extended: u32,
    /// MRT record type
    pub record_type: u16,
    /// MRT record subtype
    pub sub_type: u16,
    /// Length of the record body in bytes
    pub length: u32,
}

} // verus!
