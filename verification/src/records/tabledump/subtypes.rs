//! TABLE_DUMP_V2 subtype codes.
use vstd::prelude::*;

verus! {

pub const PEER_INDEX_TABLE: u16 = 1;
pub const RIB_IPV4_UNICAST: u16 = 2;
pub const RIB_IPV4_MULTICAST: u16 = 3;
pub const RIB_IPV6_UNICAST: u16 = 4;
pub const RIB_IPV6_MULTICAST: u16 = 5;
pub const RIB_GENERIC: u16 = 6;
// RFC 8050 Add-Path extensions
pub const RIB_IPV4_UNICAST_ADDPATH: u16 = 8;
pub const RIB_IPV4_MULTICAST_ADDPATH: u16 = 9;
pub const RIB_IPV6_UNICAST_ADDPATH: u16 = 10;
pub const RIB_IPV6_MULTICAST_ADDPATH: u16 = 11;
pub const RIB_GENERIC_ADDPATH: u16 = 12;

} // verus!
