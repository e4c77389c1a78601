use vstd::prelude::*;

verus! {

/// Why a record could not be decoded.
#[derive(Debug, Clone, Copy, PartialEq, Eq)]
pub enum MrtError {
    /// The input ended before a fixed-size field or a length-prefixed
    /// field could be read in full.
    UnexpectedEof,
    /// A TABLE_DUMP header carried a subtype other than 1 (IPv4) or 2 (IPv6).
    InvalidTableDumpSubtype,
    /// A TABLE_DUMP_V2 header carried a subtype that is not defined.
    InvalidTableDumpV2Subtype,
    /// An address family identifier other than 1 (IPv4) or 2 (IPv6).
    InvalidAfi,
    /// A zero-copy RIB record ended inside its fixed part.
    TruncatedRibRecord,
    /// A zero-copy RIB entry ended inside its fixed-size header.
    TruncatedRibEntry,
    /// A zero-copy RIB entry ended inside its attribute bytes.
    TruncatedRibEntryAttributes,
}

} // verus!
