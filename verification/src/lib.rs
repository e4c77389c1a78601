//! MRT (RFC 6396) routing-table dump records, TABLE_DUMP and TABLE_DUMP_V2,
//! decoded from byte slices with verified contracts.
#![allow(non_camel_case_types)]

pub mod address;
pub mod bytes;
pub mod error;
pub mod header;
pub mod records;
pub mod text;

pub use address::AFI;
pub use error::MrtError;
pub use header::Header;
