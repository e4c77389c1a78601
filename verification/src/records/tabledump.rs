//! TABLE_DUMP and TABLE_DUMP_V2 MRT record parsing (types 12 and 13).
//!
//! These record types hold RIB (Routing Information Base) dumps, which
//! route collectors write to capture BGP routing table snapshots.
//!
//! Every decoder reads from the front of a byte slice and advances it past
//! what it read; a decoder that fails leaves the slice as it was. Its
//! contract is stated over a mathematical decoder (the `spec_` functions
//! here), a function from the input bytes to the decoded value and the bytes
//! left, or to the error, and over the value (`@`) of what it returns. The
//! laws in `laws` say, byte by byte, what those decoders read.
pub mod laws;
mod subtypes;

use vstd::prelude::*;
use crate::address::{AFI, IpAddr, IpView, prefix_bytes_needed, spec_prefix_bytes, read_afi, read_ip_by_afi, read_ipv4, read_ipv6, take_afi, take_ip};
use crate::bytes::{Decoded, decodes, decodes_advancing, res_view, advanced, be16, be32, take_u8, take_u16, take_u32, take_bytes, read_u8, read_u16, read_u32, read_bytes, u16_at, u32_at, lemma_skip_skip, law_decodes_deterministic};
use crate::error::MrtError;
use crate::header::Header;
use crate::text::{utf8_lossy, string_from_utf8_lossy};

verus! {

broadcast use {crate::bytes::lemma_advanced_trans, crate::bytes::lemma_advanced_refl};

// ---------------------------------------------------------------------------
// TABLE_DUMP
// ---------------------------------------------------------------------------

/// The address family of a TABLE_DUMP record's subtype: 1 is IPv4, 2 is
/// IPv6, and no other subtype is defined.
pub open spec fn table_dump_afi(sub_type: u16) -> Option<AFI> {
    if sub_type == 1 {
        Some(AFI::IPV4)
    } else if sub_type == 2 {
        Some(AFI::IPV6)
    } else {
        None
    }
}

/// The value of a TABLE_DUMP record.
pub struct TableDumpModel {
    pub view_number: u16,
    pub sequence_number: u16,
    pub prefix: IpView,
    pub prefix_length: u8,
    pub status: u8,
    pub originated_time: u32,
    pub peer_address: IpView,
    pub peer_as: u16,
    pub attributes: Seq<u8>,
}

/// The part of a TABLE_DUMP record up to the prefix length.
pub struct TableDumpHead {
    pub view_number: u16,
    pub sequence_number: u16,
    pub prefix: IpView,
    pub prefix_length: u8,
}

/// `view_number` (u16), `sequence_number` (u16), the prefix address of the
/// family and `prefix_length` (u8).
pub open spec fn spec_table_dump_head(s: Seq<u8>, afi: AFI) -> Decoded<TableDumpHead> {
    match take_u16(s) {
        Err(e) => Err(e),
        Ok((view_number, s1)) => match take_u16(s1) {
            Err(e) => Err(e),
            Ok((sequence_number, s2)) => match take_ip(s2, afi) {
                Err(e) => Err(e),
                Ok((prefix, s3)) => match take_u8(s3) {
                    Err(e) => Err(e),
                    Ok((prefix_length, rest)) => Ok((
                        TableDumpHead { view_number, sequence_number, prefix, prefix_length },
                        rest,
                    )),
                },
            },
        },
    }
}

/// The part of a TABLE_DUMP record after the prefix length.
pub struct TableDumpTail {
    pub status: u8,
    pub originated_time: u32,
    pub peer_address: IpView,
    pub peer_as: u16,
    pub attributes: Seq<u8>,
}

/// `status` (u8), `originated_time` (u32), the peer address of the family,
/// `peer_as` (u16), and a u16 length and that many attribute bytes.
pub open spec fn spec_table_dump_tail(s: Seq<u8>, afi: AFI) -> Decoded<TableDumpTail> {
    match take_u8(s) {
        Err(e) => Err(e),
        Ok((status, s1)) => match take_u32(s1) {
            Err(e) => Err(e),
            Ok((originated_time, s2)) => match take_ip(s2, afi) {
                Err(e) => Err(e),
                Ok((peer_address, s3)) => match take_u16(s3) {
                    Err(e) => Err(e),
                    Ok((peer_as, s4)) => match take_u16(s4) {
                        Err(e) => Err(e),
                        Ok((attr_len, s5)) => match take_bytes(s5, attr_len as int) {
                            Err(e) => Err(e),
                            Ok((attributes, rest)) => Ok((
                                TableDumpTail { status, originated_time, peer_address, peer_as, attributes },
                                rest,
                            )),
                        },
                    },
                },
            },
        },
    }
}

/// A TABLE_DUMP record of the given subtype: a subtype other than 1 or 2 is
/// refused before anything is read; otherwise the head and the tail, with
/// addresses of the subtype's family.
pub open spec fn spec_table_dump(sub_type: u16, s: Seq<u8>) -> Decoded<TableDumpModel> {
    match table_dump_afi(sub_type) {
        None => Err(MrtError::InvalidTableDumpSubtype),
        Some(afi) => match spec_table_dump_head(s, afi) {
            Err(e) => Err(e),
            Ok((h, s1)) => match spec_table_dump_tail(s1, afi) {
                Err(e) => Err(e),
                Ok((t, rest)) => Ok((
                    TableDumpModel {
                        view_number: h.view_number,
                        sequence_number: h.sequence_number,
                        prefix: h.prefix,
                        prefix_length: h.prefix_length,
                        status: t.status,
                        originated_time: t.originated_time,
                        peer_address: t.peer_address,
                        peer_as: t.peer_as,
                        attributes: t.attributes,
                    },
                    rest,
                )),
            },
        },
    }
}

/// TABLE_DUMP record (type 12).
///
/// The original RIB dump format, one entry per record.
#[derive(Debug, Clone)]
pub struct TABLE_DUMP {
    /// View number for multi-view recordings
    pub view_number: u16,
    /// Sequence number within the dump
    pub sequence_number: u16,
    /// IP prefix (IPv4 or IPv6 based on header subtype)
    pub prefix: IpAddr,
    /// Prefix length in bits
    pub prefix_length: u8,
    /// Entry status
    pub status: u8,
    /// Time this route was originated
    pub originated_time: u32,
    /// Peer IP address
    pub peer_address: IpAddr,
    /// Peer AS number (16-bit)
    pub peer_as: u16,
    /// BGP path attributes
    pub attributes: Vec<u8>,
}

impl View for TABLE_DUMP {
    type V = TableDumpModel;

    open spec fn view(&self) -> TableDumpModel {
        TableDumpModel {
            view_number: self.view_number,
            sequence_number: self.sequence_number,
            prefix: self.prefix@,
            prefix_length: self.prefix_length,
            status: self.status,
            originated_time: self.originated_time,
            peer_address: self.peer_address@,
            peer_as: self.peer_as,
            attributes: self.attributes@,
        }
    }
}

/// Reads the part of a TABLE_DUMP record up to the prefix length.
fn parse_table_dump_head<'a>(stream: &mut &'a [u8], afi: &AFI) -> (r: Result<(u16, u16, IpAddr, u8), MrtError>)
    ensures
        advanced(old(stream)@, final(stream)@),
        match spec_table_dump_head(old(stream)@, *afi) {
            Ok((h, rest)) => r matches Ok((vn, sn, p, pl)) && vn == h.view_number
                && sn == h.sequence_number && p@ == h.prefix && pl == h.prefix_length
                && final(stream)@ == rest,
            Err(e) => r == Err::<(u16, u16, IpAddr, u8), MrtError>(e),
        },
{
    let ghost s0 = stream@;
    let view_number = read_u16(stream)?;
    proof { lemma_skip_skip(s0, 2, 0); }
    let ghost s1 = stream@;
    let sequence_number = read_u16(stream)?;
    proof { lemma_skip_skip(s1, 2, 0); }
    let ghost s2 = stream@;
    let prefix = read_ip_by_afi(stream, afi)?;
    proof { lemma_skip_skip(s2, if *afi == AFI::IPV4 { 4 } else { 16 }, 0); }
    let ghost s3 = stream@;
    let prefix_length = read_u8(stream)?;
    proof { lemma_skip_skip(s3, 1, 0); }
    Ok((view_number, sequence_number, prefix, prefix_length))
}

/// Reads the part of a TABLE_DUMP record after the prefix length.
fn parse_table_dump_tail<'a>(stream: &mut &'a [u8], afi: &AFI) -> (r: Result<(u8, u32, IpAddr, u16, Vec<u8>), MrtError>)
    ensures
        advanced(old(stream)@, final(stream)@),
        match spec_table_dump_tail(old(stream)@, *afi) {
            Ok((t, rest)) => r matches Ok((st, ot, pa, pas, attrs)) && st == t.status
                && ot == t.originated_time && pa@ == t.peer_address && pas == t.peer_as
                && attrs@ == t.attributes && final(stream)@ == rest,
            Err(e) => r == Err::<(u8, u32, IpAddr, u16, Vec<u8>), MrtError>(e),
        },
{
    let ghost s0 = stream@;
    let status = read_u8(stream)?;
    proof { lemma_skip_skip(s0, 1, 0); }
    let ghost s1 = stream@;
    let originated_time = read_u32(stream)?;
    proof { lemma_skip_skip(s1, 4, 0); }
    let ghost s2 = stream@;
    let peer_address = read_ip_by_afi(stream, afi)?;
    proof { lemma_skip_skip(s2, if *afi == AFI::IPV4 { 4 } else { 16 }, 0); }
    let ghost s3 = stream@;
    let peer_as = read_u16(stream)?;
    proof { lemma_skip_skip(s3, 2, 0); }
    let ghost s4 = stream@;
    let attr_len = read_u16(stream)?;
    proof { lemma_skip_skip(s4, 2, 0); }
    let ghost s5 = stream@;
    let attributes = read_bytes(stream, attr_len as usize)?;
    proof { lemma_skip_skip(s5, attr_len as int, 0); }
    Ok((status, originated_time, peer_address, peer_as, attributes))
}

impl TABLE_DUMP {
    /// Parse a TABLE_DUMP record.
    ///
    /// The AFI is determined by the header subtype:
    /// - subtype 1 = AFI_IPv4
    /// - subtype 2 = AFI_IPv6
    pub fn parse<'a>(header: &Header, stream: &mut &'a [u8]) -> (r: Result<Self, MrtError>)
        ensures
            decodes(res_view(r), old(stream)@, final(stream)@, spec_table_dump(header.sub_type, old(stream)@)),
    {
        let start: &'a [u8] = *stream;
        let r = Self::parse_steps(header, stream);
        if r.is_err() {
            *stream = start;
        }
        r
    }

    /// The steps of [`Self::parse`], which may consume input before failing.
    fn parse_steps<'a>(header: &Header, stream: &mut &'a [u8]) -> (r: Result<Self, MrtError>)
        ensures
            decodes_advancing(res_view(r), old(stream)@, final(stream)@, spec_table_dump(header.sub_type, old(stream)@)),
    {
        let afi = if header.sub_type == 1 {
            AFI::IPV4
        } else if header.sub_type == 2 {
            AFI::IPV6
        } else {
            return Err(MrtError::InvalidTableDumpSubtype);
        };

        let (view_number, sequence_number, prefix, prefix_length) = parse_table_dump_head(stream, &afi)?;
        let (status, originated_time, peer_address, peer_as, attributes) = parse_table_dump_tail(stream, &afi)?;

        Ok(TABLE_DUMP {
            view_number,
            sequence_number,
            prefix,
            prefix_length,
            status,
            originated_time,
            peer_address,
            peer_as,
            attributes,
        })
    }
}

// ---------------------------------------------------------------------------
// TABLE_DUMP_V2
// ---------------------------------------------------------------------------

/// The value of a TABLE_DUMP_V2 record.
pub enum TableDumpV2Model {
    PEER_INDEX_TABLE(PeerIndexTableModel),
    RIB_IPV4_UNICAST(RibAfiModel),
    RIB_IPV4_MULTICAST(RibAfiModel),
    RIB_IPV6_UNICAST(RibAfiModel),
    RIB_IPV6_MULTICAST(RibAfiModel),
    RIB_GENERIC(RibGenericModel),
    RIB_IPV4_UNICAST_ADDPATH(RibAfiModel),
    RIB_IPV4_MULTICAST_ADDPATH(RibAfiModel),
    RIB_IPV6_UNICAST_ADDPATH(RibAfiModel),
    RIB_IPV6_MULTICAST_ADDPATH(RibAfiModel),
    RIB_GENERIC_ADDPATH(RibGenericModel),
}

/// A decoded value wrapped as a TABLE_DUMP_V2 record.
pub open spec fn as_v2<A>(d: Decoded<A>, f: spec_fn(A) -> TableDumpV2Model) -> Decoded<TableDumpV2Model> {
    match d {
        Ok((v, rest)) => Ok((f(v), rest)),
        Err(e) => Err(e),
    }
}

/// A TABLE_DUMP_V2 record of the given subtype: 1 is a peer index table;
/// 2 to 5 are IPv4 unicast, IPv4 multicast, IPv6 unicast and IPv6 multicast
/// RIB records; 6 is a generic RIB record; 8 to 12 are the same with
/// ADD-PATH entries; any other subtype is refused before anything is read.
pub open spec fn spec_table_dump_v2(sub_type: u16, s: Seq<u8>) -> Decoded<TableDumpV2Model> {
    if sub_type == 1 {
        as_v2(spec_peer_index_table(s), |m| TableDumpV2Model::PEER_INDEX_TABLE(m))
    } else if sub_type == 2 {
        as_v2(eof_or(spec_rib_afi(s, false)), |m| TableDumpV2Model::RIB_IPV4_UNICAST(m))
    } else if sub_type == 3 {
        as_v2(eof_or(spec_rib_afi(s, false)), |m| TableDumpV2Model::RIB_IPV4_MULTICAST(m))
    } else if sub_type == 4 {
        as_v2(eof_or(spec_rib_afi(s, false)), |m| TableDumpV2Model::RIB_IPV6_UNICAST(m))
    } else if sub_type == 5 {
        as_v2(eof_or(spec_rib_afi(s, false)), |m| TableDumpV2Model::RIB_IPV6_MULTICAST(m))
    } else if sub_type == 6 {
        as_v2(spec_rib_generic(s, false), |m| TableDumpV2Model::RIB_GENERIC(m))
    } else if sub_type == 8 {
        as_v2(eof_or(spec_rib_afi(s, true)), |m| TableDumpV2Model::RIB_IPV4_UNICAST_ADDPATH(m))
    } else if sub_type == 9 {
        as_v2(eof_or(spec_rib_afi(s, true)), |m| TableDumpV2Model::RIB_IPV4_MULTICAST_ADDPATH(m))
    } else if sub_type == 10 {
        as_v2(eof_or(spec_rib_afi(s, true)), |m| TableDumpV2Model::RIB_IPV6_UNICAST_ADDPATH(m))
    } else if sub_type == 11 {
        as_v2(eof_or(spec_rib_afi(s, true)), |m| TableDumpV2Model::RIB_IPV6_MULTICAST_ADDPATH(m))
    } else if sub_type == 12 {
        as_v2(spec_rib_generic(s, true), |m| TableDumpV2Model::RIB_GENERIC_ADDPATH(m))
    } else {
        Err(MrtError::InvalidTableDumpV2Subtype)
    }
}

/// TABLE_DUMP_V2 record (type 13).
///
/// The modern RIB dump format with improved efficiency and support for
/// multiple RIB entries per record.
#[derive(Debug, Clone)]
pub enum TABLE_DUMP_V2 {
    /// Peer index table (must appear first in dump)
    PEER_INDEX_TABLE(PEER_INDEX_TABLE),
    /// IPv4 unicast RIB entries
    RIB_IPV4_UNICAST(RIB_AFI),
    /// IPv4 multicast RIB entries
    RIB_IPV4_MULTICAST(RIB_AFI),
    /// IPv6 unicast RIB entries
    RIB_IPV6_UNICAST(RIB_AFI),
    /// IPv6 multicast RIB entries
    RIB_IPV6_MULTICAST(RIB_AFI),
    /// Generic RIB entries (includes AFI/SAFI)
    RIB_GENERIC(RIB_GENERIC),
    /// IPv4 unicast RIB entries with Add-Path
    RIB_IPV4_UNICAST_ADDPATH(RIB_AFI_ADDPATH),
    /// IPv4 multicast RIB entries with Add-Path
    RIB_IPV4_MULTICAST_ADDPATH(RIB_AFI_ADDPATH),
    /// IPv6 unicast RIB entries with Add-Path
    RIB_IPV6_UNICAST_ADDPATH(RIB_AFI_ADDPATH),
    /// IPv6 multicast RIB entries with Add-Path
    RIB_IPV6_MULTICAST_ADDPATH(RIB_AFI_ADDPATH),
    /// Generic RIB entries with Add-Path
    RIB_GENERIC_ADDPATH(RIB_GENERIC_ADDPATH),
}

impl View for TABLE_DUMP_V2 {
    type V = TableDumpV2Model;

    open spec fn view(&self) -> TableDumpV2Model {
        match self {
            TABLE_DUMP_V2::PEER_INDEX_TABLE(r) => TableDumpV2Model::PEER_INDEX_TABLE(r@),
            TABLE_DUMP_V2::RIB_IPV4_UNICAST(r) => TableDumpV2Model::RIB_IPV4_UNICAST(r@),
            TABLE_DUMP_V2::RIB_IPV4_MULTICAST(r) => TableDumpV2Model::RIB_IPV4_MULTICAST(r@),
            TABLE_DUMP_V2::RIB_IPV6_UNICAST(r) => TableDumpV2Model::RIB_IPV6_UNICAST(r@),
            TABLE_DUMP_V2::RIB_IPV6_MULTICAST(r) => TableDumpV2Model::RIB_IPV6_MULTICAST(r@),
            TABLE_DUMP_V2::RIB_GENERIC(r) => TableDumpV2Model::RIB_GENERIC(r@),
            TABLE_DUMP_V2::RIB_IPV4_UNICAST_ADDPATH(r) => TableDumpV2Model::RIB_IPV4_UNICAST_ADDPATH(r@),
            TABLE_DUMP_V2::RIB_IPV4_MULTICAST_ADDPATH(r) => TableDumpV2Model::RIB_IPV4_MULTICAST_ADDPATH(r@),
            TABLE_DUMP_V2::RIB_IPV6_UNICAST_ADDPATH(r) => TableDumpV2Model::RIB_IPV6_UNICAST_ADDPATH(r@),
            TABLE_DUMP_V2::RIB_IPV6_MULTICAST_ADDPATH(r) => TableDumpV2Model::RIB_IPV6_MULTICAST_ADDPATH(r@),
            TABLE_DUMP_V2::RIB_GENERIC_ADDPATH(r) => TableDumpV2Model::RIB_GENERIC_ADDPATH(r@),
        }
    }
}

impl TABLE_DUMP_V2 {
    /// Parse a TABLE_DUMP_V2 record.
    pub fn parse<'a>(header: &Header, stream: &mut &'a [u8]) -> (r: Result<Self, MrtError>)
        ensures
            decodes(res_view(r), old(stream)@, final(stream)@, spec_table_dump_v2(header.sub_type, old(stream)@)),
    {
        let sub_type = header.sub_type;
        if sub_type == subtypes::PEER_INDEX_TABLE {
            Ok(TABLE_DUMP_V2::PEER_INDEX_TABLE(PEER_INDEX_TABLE::parse(stream)?))
        } else if sub_type == subtypes::RIB_IPV4_UNICAST {
            Ok(TABLE_DUMP_V2::RIB_IPV4_UNICAST(RIB_AFI::parse(&AFI::IPV4, stream)?))
        } else if sub_type == subtypes::RIB_IPV4_MULTICAST {
            Ok(TABLE_DUMP_V2::RIB_IPV4_MULTICAST(RIB_AFI::parse(&AFI::IPV4, stream)?))
        } else if sub_type == subtypes::RIB_IPV6_UNICAST {
            Ok(TABLE_DUMP_V2::RIB_IPV6_UNICAST(RIB_AFI::parse(&AFI::IPV6, stream)?))
        } else if sub_type == subtypes::RIB_IPV6_MULTICAST {
            Ok(TABLE_DUMP_V2::RIB_IPV6_MULTICAST(RIB_AFI::parse(&AFI::IPV6, stream)?))
        } else if sub_type == subtypes::RIB_GENERIC {
            Ok(TABLE_DUMP_V2::RIB_GENERIC(RIB_GENERIC::parse(stream)?))
        } else if sub_type == subtypes::RIB_IPV4_UNICAST_ADDPATH {
            Ok(TABLE_DUMP_V2::RIB_IPV4_UNICAST_ADDPATH(RIB_AFI_ADDPATH::parse(&AFI::IPV4, stream)?))
        } else if sub_type == subtypes::RIB_IPV4_MULTICAST_ADDPATH {
            Ok(TABLE_DUMP_V2::RIB_IPV4_MULTICAST_ADDPATH(RIB_AFI_ADDPATH::parse(&AFI::IPV4, stream)?))
        } else if sub_type == subtypes::RIB_IPV6_UNICAST_ADDPATH {
            Ok(TABLE_DUMP_V2::RIB_IPV6_UNICAST_ADDPATH(RIB_AFI_ADDPATH::parse(&AFI::IPV6, stream)?))
        } else if sub_type == subtypes::RIB_IPV6_MULTICAST_ADDPATH {
            Ok(TABLE_DUMP_V2::RIB_IPV6_MULTICAST_ADDPATH(RIB_AFI_ADDPATH::parse(&AFI::IPV6, stream)?))
        } else if sub_type == subtypes::RIB_GENERIC_ADDPATH {
            Ok(TABLE_DUMP_V2::RIB_GENERIC_ADDPATH(RIB_GENERIC_ADDPATH::parse(stream)?))
        } else {
            Err(MrtError::InvalidTableDumpV2Subtype)
        }
    }
}

/// TABLE_DUMP_V2 hands each subtype to its record decoder: it decodes what
/// that decoder decodes, wrapped in the subtype's variant, leaves the same
/// bytes, and fails with the same error.
pub proof fn law_table_dump_v2_delegates(s: Seq<u8>)
    ensures
        spec_table_dump_v2(1, s) == as_v2(spec_peer_index_table(s), |m| TableDumpV2Model::PEER_INDEX_TABLE(m)),
        spec_table_dump_v2(2, s) == as_v2(eof_or(spec_rib_afi(s, false)), |m| TableDumpV2Model::RIB_IPV4_UNICAST(m)),
        spec_table_dump_v2(3, s) == as_v2(eof_or(spec_rib_afi(s, false)), |m| TableDumpV2Model::RIB_IPV4_MULTICAST(m)),
        spec_table_dump_v2(4, s) == as_v2(eof_or(spec_rib_afi(s, false)), |m| TableDumpV2Model::RIB_IPV6_UNICAST(m)),
        spec_table_dump_v2(5, s) == as_v2(eof_or(spec_rib_afi(s, false)), |m| TableDumpV2Model::RIB_IPV6_MULTICAST(m)),
        spec_table_dump_v2(6, s) == as_v2(spec_rib_generic(s, false), |m| TableDumpV2Model::RIB_GENERIC(m)),
        spec_table_dump_v2(8, s) == as_v2(eof_or(spec_rib_afi(s, true)), |m| TableDumpV2Model::RIB_IPV4_UNICAST_ADDPATH(m)),
        spec_table_dump_v2(9, s) == as_v2(eof_or(spec_rib_afi(s, true)), |m| TableDumpV2Model::RIB_IPV4_MULTICAST_ADDPATH(m)),
        spec_table_dump_v2(10, s) == as_v2(eof_or(spec_rib_afi(s, true)), |m| TableDumpV2Model::RIB_IPV6_UNICAST_ADDPATH(m)),
        spec_table_dump_v2(11, s) == as_v2(eof_or(spec_rib_afi(s, true)), |m| TableDumpV2Model::RIB_IPV6_MULTICAST_ADDPATH(m)),
        spec_table_dump_v2(12, s) == as_v2(spec_rib_generic(s, true), |m| TableDumpV2Model::RIB_GENERIC_ADDPATH(m)),
        forall|t: u16| !(1 <= t <= 6 || 8 <= t <= 12) ==> #[trigger] spec_table_dump_v2(t, s)
            == Err::<(TableDumpV2Model, Seq<u8>), MrtError>(MrtError::InvalidTableDumpV2Subtype),
{
}

/// The TABLE_DUMP_V2 variant of an AFI-specific RIB subtype.
pub open spec fn rib_afi_variant(sub_type: u16, m: RibAfiModel) -> TableDumpV2Model {
    if sub_type == 2 {
        TableDumpV2Model::RIB_IPV4_UNICAST(m)
    } else if sub_type == 3 {
        TableDumpV2Model::RIB_IPV4_MULTICAST(m)
    } else if sub_type == 4 {
        TableDumpV2Model::RIB_IPV6_UNICAST(m)
    } else if sub_type == 5 {
        TableDumpV2Model::RIB_IPV6_MULTICAST(m)
    } else if sub_type == 8 {
        TableDumpV2Model::RIB_IPV4_UNICAST_ADDPATH(m)
    } else if sub_type == 9 {
        TableDumpV2Model::RIB_IPV4_MULTICAST_ADDPATH(m)
    } else if sub_type == 10 {
        TableDumpV2Model::RIB_IPV6_UNICAST_ADDPATH(m)
    } else {
        TableDumpV2Model::RIB_IPV6_MULTICAST_ADDPATH(m)
    }
}

/// For subtypes 2 to 5, a TABLE_DUMP_V2 decoding and a `RIB_AFI` decoding of
/// the same bytes agree: the record is the RIB record in the subtype's
/// variant, the error is the same error, and both leave the same bytes, on
/// success and on failure.
pub proof fn law_table_dump_v2_matches_rib_afi(
    sub_type: u16,
    r: Result<TABLE_DUMP_V2, MrtError>,
    new: Seq<u8>,
    rf: Result<RIB_AFI, MrtError>,
    newf: Seq<u8>,
    s: Seq<u8>,
)
    requires
        2 <= sub_type <= 5,
        decodes(res_view(r), s, new, spec_table_dump_v2(sub_type, s)),
        decodes(res_view(rf), s, newf, eof_or(spec_rib_afi(s, false))),
    ensures
        new == newf,
        match res_view(rf) {
            Ok(m) => res_view(r) == Ok::<TableDumpV2Model, MrtError>(rib_afi_variant(sub_type, m)),
            Err(e) => res_view(r) == Err::<TableDumpV2Model, MrtError>(e),
        },
{
}

/// For subtypes 8 to 11, a TABLE_DUMP_V2 decoding and a `RIB_AFI_ADDPATH`
/// decoding of the same bytes agree in the same way.
pub proof fn law_table_dump_v2_matches_rib_afi_addpath(
    sub_type: u16,
    r: Result<TABLE_DUMP_V2, MrtError>,
    new: Seq<u8>,
    rf: Result<RIB_AFI_ADDPATH, MrtError>,
    newf: Seq<u8>,
    s: Seq<u8>,
)
    requires
        8 <= sub_type <= 11,
        decodes(res_view(r), s, new, spec_table_dump_v2(sub_type, s)),
        decodes(res_view(rf), s, newf, eof_or(spec_rib_afi(s, true))),
    ensures
        new == newf,
        match res_view(rf) {
            Ok(m) => res_view(r) == Ok::<TableDumpV2Model, MrtError>(rib_afi_variant(sub_type, m)),
            Err(e) => res_view(r) == Err::<TableDumpV2Model, MrtError>(e),
        },
{
}

/// For subtype 1, a TABLE_DUMP_V2 decoding and a `PEER_INDEX_TABLE` decoding
/// of the same bytes agree in the same way.
pub proof fn law_table_dump_v2_matches_peer_index_table(
    r: Result<TABLE_DUMP_V2, MrtError>,
    new: Seq<u8>,
    rf: Result<PEER_INDEX_TABLE, MrtError>,
    newf: Seq<u8>,
    s: Seq<u8>,
)
    requires
        decodes(res_view(r), s, new, spec_table_dump_v2(1, s)),
        decodes(res_view(rf), s, newf, spec_peer_index_table(s)),
    ensures
        new == newf,
        match res_view(rf) {
            Ok(m) => res_view(r) == Ok::<TableDumpV2Model, MrtError>(TableDumpV2Model::PEER_INDEX_TABLE(m)),
            Err(e) => res_view(r) == Err::<TableDumpV2Model, MrtError>(e),
        },
{
}

/// For subtypes 6 and 12, a TABLE_DUMP_V2 decoding and a `RIB_GENERIC` or
/// `RIB_GENERIC_ADDPATH` decoding (by the subtype) of the same bytes agree in
/// the same way; `addpath` says which.
pub proof fn law_table_dump_v2_matches_rib_generic(
    addpath: bool,
    r: Result<TABLE_DUMP_V2, MrtError>,
    new: Seq<u8>,
    rf: Result<RibGenericModel, MrtError>,
    newf: Seq<u8>,
    s: Seq<u8>,
)
    requires
        decodes(res_view(r), s, new, spec_table_dump_v2(if addpath { 12 } else { 6 }, s)),
        decodes(rf, s, newf, spec_rib_generic(s, addpath)),
    ensures
        new == newf,
        match rf {
            Ok(m) => res_view(r) == Ok::<TableDumpV2Model, MrtError>(
                if addpath { TableDumpV2Model::RIB_GENERIC_ADDPATH(m) } else { TableDumpV2Model::RIB_GENERIC(m) },
            ),
            Err(e) => res_view(r) == Err::<TableDumpV2Model, MrtError>(e),
        },
{
}

/// Only the subtype of the header counts: two TABLE_DUMP_V2 decodings of
/// the same bytes under headers with the same subtype (whatever their
/// timestamps, types and lengths) return the same value or the same error
/// and leave the same bytes; the header's length bounds nothing.
pub proof fn law_table_dump_v2_header_only_subtype(
    h1: Header,
    r1: Result<TABLE_DUMP_V2, MrtError>,
    new1: Seq<u8>,
    h2: Header,
    r2: Result<TABLE_DUMP_V2, MrtError>,
    new2: Seq<u8>,
    s: Seq<u8>,
)
    requires
        h1.sub_type == h2.sub_type,
        decodes(res_view(r1), s, new1, spec_table_dump_v2(h1.sub_type, s)),
        decodes(res_view(r2), s, new2, spec_table_dump_v2(h2.sub_type, s)),
    ensures
        res_view(r1) == res_view(r2),
        new1 == new2,
{
    law_decodes_deterministic(res_view(r1), new1, res_view(r2), new2, s, spec_table_dump_v2(h1.sub_type, s));
}

/// Only the subtype of the header counts for TABLE_DUMP as well.
pub proof fn law_table_dump_header_only_subtype(
    h1: Header,
    r1: Result<TABLE_DUMP, MrtError>,
    new1: Seq<u8>,
    h2: Header,
    r2: Result<TABLE_DUMP, MrtError>,
    new2: Seq<u8>,
    s: Seq<u8>,
)
    requires
        h1.sub_type == h2.sub_type,
        decodes(res_view(r1), s, new1, spec_table_dump(h1.sub_type, s)),
        decodes(res_view(r2), s, new2, spec_table_dump(h2.sub_type, s)),
    ensures
        res_view(r1) == res_view(r2),
        new1 == new2,
{
    law_decodes_deterministic(res_view(r1), new1, res_view(r2), new2, s, spec_table_dump(h1.sub_type, s));
}

// ---------------------------------------------------------------------------
// RIB entries
// ---------------------------------------------------------------------------

/// The value of a RIB entry, with or without an ADD-PATH path identifier.
pub struct EntryModel {
    pub peer_index: u16,
    pub originated_time: u32,
    pub path_id: Option<u32>,
    pub attributes: Seq<u8>,
}

/// The size of the fixed part of a RIB entry: peer index, originated time,
/// the path identifier where ADD-PATH is in use, and the attribute length.
pub open spec fn entry_fixed_len(addpath: bool) -> int {
    if addpath { 12 } else { 8 }
}

/// A RIB entry: `peer_index` (u16), `originated_time` (u32), with ADD-PATH a
/// `path_id` (u32), then a u16 length and that many attribute bytes.
/// `None` where the input ends first.
pub open spec fn spec_entry(s: Seq<u8>, addpath: bool) -> Option<(EntryModel, Seq<u8>)> {
    let f = entry_fixed_len(addpath);
    if s.len() < f {
        None
    } else {
        match take_bytes(s.skip(f), be16(s, f - 2)) {
            Err(_) => None,
            Ok((attributes, rest)) => Some((
                EntryModel {
                    peer_index: be16(s, 0) as u16,
                    originated_time: be32(s, 2) as u32,
                    path_id: if addpath { Some(be32(s, 6) as u32) } else { None },
                    attributes,
                },
                rest,
            )),
        }
    }
}

/// What is left after an entry is a suffix of the input.
proof fn lemma_entry_advances(s: Seq<u8>, addpath: bool)
    ensures
        spec_entry(s, addpath) matches Some((_, rest)) ==> advanced(s, rest),
{
    if let Some((e, rest)) = spec_entry(s, addpath) {
        let f = entry_fixed_len(addpath);
        lemma_skip_skip(s, f, be16(s, f - 2));
    }
}

/// A truncated input is an unexpected end of input.
pub open spec fn eof_or<V>(o: Option<(V, Seq<u8>)>) -> Decoded<V> {
    match o {
        Some(x) => Ok(x),
        None => Err(MrtError::UnexpectedEof),
    }
}

/// `n` RIB entries one after another.
pub open spec fn spec_entries(s: Seq<u8>, n: nat, addpath: bool) -> Option<(Seq<EntryModel>, Seq<u8>)>
    decreases n,
{
    if n == 0 {
        Some((Seq::empty(), s))
    } else {
        match spec_entry(s, addpath) {
            None => None,
            Some((e, rest)) => match spec_entries(rest, (n - 1) as nat, addpath) {
                None => None,
                Some((es, rest2)) => Some((seq![e] + es, rest2)),
            },
        }
    }
}

/// RIB entry in TABLE_DUMP_V2.
#[derive(Debug, Clone)]
pub struct RIBEntry {
    /// Index into the peer index table
    pub peer_index: u16,
    /// Time this route was originated
    pub originated_time: u32,
    /// BGP path attributes
    pub attributes: Vec<u8>,
}

impl View for RIBEntry {
    type V = EntryModel;

    open spec fn view(&self) -> EntryModel {
        EntryModel {
            peer_index: self.peer_index,
            originated_time: self.originated_time,
            path_id: None,
            attributes: self.attributes@,
        }
    }
}

/// Reads the fixed part of a RIB entry and its attributes.
fn parse_entry_fields<'a>(stream: &mut &'a [u8], addpath: bool) -> (r: Result<(u16, u32, Option<u32>, Vec<u8>), MrtError>)
    ensures
        match eof_or(spec_entry(old(stream)@, addpath)) {
            Ok((e, rest)) => r matches Ok((pi, ot, pid, attrs)) && pi == e.peer_index
                && ot == e.originated_time && pid == e.path_id && attrs@ == e.attributes
                && final(stream)@ == rest,
            Err(err) => r == Err::<(u16, u32, Option<u32>, Vec<u8>), MrtError>(err)
                && advanced(old(stream)@, final(stream)@),
        },
{
    let ghost s0 = stream@;
    let peer_index = read_u16(stream)?;
    proof { lemma_skip_skip(s0, 2, 0); }
    let originated_time = read_u32(stream)?;
    proof { lemma_skip_skip(s0, 2, 4); }
    let mut path_id: Option<u32> = None;
    if addpath {
        path_id = Some(read_u32(stream)?);
        proof { lemma_skip_skip(s0, 6, 4); }
    }
    let ghost f = entry_fixed_len(addpath);
    let attr_len = read_u16(stream)?;
    proof { lemma_skip_skip(s0, f - 2, 2); }
    let attributes = read_bytes(stream, attr_len as usize)?;
    proof { lemma_skip_skip(s0.skip(f), 0, attr_len as int); }
    Ok((peer_index, originated_time, path_id, attributes))
}

impl RIBEntry {
    /// Parse a RIBEntry from the stream.
    pub fn parse<'a>(stream: &mut &'a [u8]) -> (r: Result<Self, MrtError>)
        ensures
            decodes(res_view(r), old(stream)@, final(stream)@, eof_or(spec_entry(old(stream)@, false))),
    {
        let start: &'a [u8] = *stream;
        let r = Self::parse_steps(stream);
        if r.is_err() {
            *stream = start;
        }
        r
    }

    /// The steps of [`Self::parse`], which may consume input before failing.
    fn parse_steps<'a>(stream: &mut &'a [u8]) -> (r: Result<Self, MrtError>)
        ensures
            decodes_advancing(res_view(r), old(stream)@, final(stream)@, eof_or(spec_entry(old(stream)@, false))),
    {
        let (peer_index, originated_time, _, attributes) = parse_entry_fields(stream, false)?;
        Ok(RIBEntry { peer_index, originated_time, attributes })
    }
}

/// RIB entry with Add-Path extension.
#[derive(Debug, Clone)]
pub struct RIBEntryAddPath {
    /// Index into the peer index table
    pub peer_index: u16,
    /// Time this route was originated
    pub originated_time: u32,
    /// Path identifier for Add-Path
    pub path_identifier: u32,
    /// BGP path attributes
    pub attributes: Vec<u8>,
}

impl View for RIBEntryAddPath {
    type V = EntryModel;

    open spec fn view(&self) -> EntryModel {
        EntryModel {
            peer_index: self.peer_index,
            originated_time: self.originated_time,
            path_id: Some(self.path_identifier),
            attributes: self.attributes@,
        }
    }
}

impl RIBEntryAddPath {
    /// Parse a RIBEntryAddPath from the stream.
    pub fn parse<'a>(stream: &mut &'a [u8]) -> (r: Result<Self, MrtError>)
        ensures
            decodes(res_view(r), old(stream)@, final(stream)@, eof_or(spec_entry(old(stream)@, true))),
    {
        let start: &'a [u8] = *stream;
        let r = Self::parse_steps(stream);
        if r.is_err() {
            *stream = start;
        }
        r
    }

    /// The steps of [`Self::parse`], which may consume input before failing.
    fn parse_steps<'a>(stream: &mut &'a [u8]) -> (r: Result<Self, MrtError>)
        ensures
            decodes_advancing(res_view(r), old(stream)@, final(stream)@, eof_or(spec_entry(old(stream)@, true))),
    {
        let (peer_index, originated_time, path_id, attributes) = parse_entry_fields(stream, true)?;
        let path_identifier = path_id.unwrap();
        Ok(RIBEntryAddPath { peer_index, originated_time, path_identifier, attributes })
    }
}

/// The values of a sequence of decoded items.
pub open spec fn models<T: View>(v: Seq<T>) -> Seq<T::V> {
    v.map_values(|x: T| x@)
}

/// The result of decoding `n` entries where `done` were decoded already and
/// `o` is what decoding the remaining ones from here gives.
pub open spec fn after(done: Seq<EntryModel>, o: Option<(Seq<EntryModel>, Seq<u8>)>) -> Option<(Seq<EntryModel>, Seq<u8>)> {
    match o {
        Some((es, rest)) => Some((done + es, rest)),
        None => None,
    }
}

/// Unfolds `spec_entries` by one entry, in the shape the decoding loops use.
proof fn lemma_entries_step(done: Seq<EntryModel>, s: Seq<u8>, k: nat, addpath: bool)
    requires
        k > 0,
    ensures
        spec_entry(s, addpath) is None ==> after(done, spec_entries(s, k, addpath)) is None,
        spec_entry(s, addpath) matches Some((e, rest)) ==>
            after(done, spec_entries(s, k, addpath)) == after(done.push(e), spec_entries(rest, (k - 1) as nat, addpath)),
{
    if let Some((e, rest)) = spec_entry(s, addpath) {
        if let Some((es, rest2)) = spec_entries(rest, (k - 1) as nat, addpath) {
            assert(done + (seq![e] + es) =~= done.push(e) + es);
        }
    }
}

/// Reads `count` plain RIB entries.
fn parse_rib_entries<'a>(stream: &mut &'a [u8], count: u16) -> (r: Result<Vec<RIBEntry>, MrtError>)
    ensures
        decodes_advancing(
            match r { Ok(v) => Ok(models(v@)), Err(e) => Err(e) },
            old(stream)@, final(stream)@, eof_or(spec_entries(old(stream)@, count as nat, false)),
        ),
{
    let ghost s0 = stream@;
    let mut entries: Vec<RIBEntry> = Vec::with_capacity(count as usize);
    let mut i: u16 = 0;
    proof {
        assert(models(entries@) =~= Seq::<EntryModel>::empty());
        assert(after(Seq::empty(), spec_entries(s0, count as nat, false)) =~~= spec_entries(s0, count as nat, false));
    }
    while i < count
        invariant
            s0 == old(stream)@,
            i <= count,
            entries@.len() == i,
            advanced(s0, stream@),
            spec_entries(s0, count as nat, false) == after(models(entries@), spec_entries(stream@, (count - i) as nat, false)),
        decreases count - i,
    {
        let ghost cur = stream@;
        proof { lemma_entries_step(models(entries@), cur, (count - i) as nat, false); }
        let e = RIBEntry::parse(stream)?;
        proof {
            lemma_entry_advances(cur, false);
            assert(models(entries@.push(e)) =~= models(entries@).push(e@));
        }
        entries.push(e);
        i = i + 1;
    }
    proof {
        assert(models(entries@) + Seq::<EntryModel>::empty() =~= models(entries@));
    }
    Ok(entries)
}

/// Reads `count` ADD-PATH RIB entries.
fn parse_rib_entries_addpath<'a>(stream: &mut &'a [u8], count: u16) -> (r: Result<Vec<RIBEntryAddPath>, MrtError>)
    ensures
        decodes_advancing(
            match r { Ok(v) => Ok(models(v@)), Err(e) => Err(e) },
            old(stream)@, final(stream)@, eof_or(spec_entries(old(stream)@, count as nat, true)),
        ),
{
    let ghost s0 = stream@;
    let mut entries: Vec<RIBEntryAddPath> = Vec::with_capacity(count as usize);
    let mut i: u16 = 0;
    proof {
        assert(models(entries@) =~= Seq::<EntryModel>::empty());
        assert(after(Seq::empty(), spec_entries(s0, count as nat, true)) =~~= spec_entries(s0, count as nat, true));
    }
    while i < count
        invariant
            s0 == old(stream)@,
            i <= count,
            entries@.len() == i,
            advanced(s0, stream@),
            spec_entries(s0, count as nat, true) == after(models(entries@), spec_entries(stream@, (count - i) as nat, true)),
        decreases count - i,
    {
        let ghost cur = stream@;
        proof { lemma_entries_step(models(entries@), cur, (count - i) as nat, true); }
        let e = RIBEntryAddPath::parse(stream)?;
        proof {
            lemma_entry_advances(cur, true);
            assert(models(entries@.push(e)) =~= models(entries@).push(e@));
        }
        entries.push(e);
        i = i + 1;
    }
    proof {
        assert(models(entries@) + Seq::<EntryModel>::empty() =~= models(entries@));
    }
    Ok(entries)
}

// ---------------------------------------------------------------------------
// AFI-specific RIB records
// ---------------------------------------------------------------------------

/// The fixed part of an AFI-specific RIB record.
pub struct RibHead {
    pub sequence_number: u32,
    pub prefix_length: u8,
    pub prefix: Seq<u8>,
    pub entry_count: u16,
}

/// The fixed part of an AFI-specific RIB record: `sequence_number` (u32),
/// `prefix_length` (u8), the prefix in as many bytes as `prefix_length`
/// bits take, and the entry count (u16). `None` where the input ends first.
pub open spec fn spec_rib_head(s: Seq<u8>) -> Option<(RibHead, Seq<u8>)> {
    match take_u32(s) {
        Err(_) => None,
        Ok((sequence_number, s1)) => match take_u8(s1) {
            Err(_) => None,
            Ok((prefix_length, s2)) => match take_bytes(s2, spec_prefix_bytes(prefix_length)) {
                Err(_) => None,
                Ok((prefix, s3)) => match take_u16(s3) {
                    Err(_) => None,
                    Ok((entry_count, rest)) => Some((
                        RibHead { sequence_number, prefix_length, prefix, entry_count },
                        rest,
                    )),
                },
            },
        },
    }
}

/// What is left after the fixed part of a RIB record is a suffix of the input.
proof fn lemma_rib_head_advances(s: Seq<u8>)
    ensures
        spec_rib_head(s) matches Some((_, rest)) ==> advanced(s, rest),
{
    if let Some((h, rest)) = spec_rib_head(s) {
        let n = spec_prefix_bytes(h.prefix_length);
        lemma_skip_skip(s, 4, 1);
        lemma_skip_skip(s, 5, n);
        lemma_skip_skip(s, 5 + n, 2);
    }
}

/// Reads the fixed part of an AFI-specific RIB record.
fn parse_rib_head<'a>(stream: &mut &'a [u8]) -> (r: Result<(u32, u8, Vec<u8>, u16), MrtError>)
    ensures
        match eof_or(spec_rib_head(old(stream)@)) {
            Ok((h, rest)) => r matches Ok((sn, pl, p, c)) && sn == h.sequence_number
                && pl == h.prefix_length && p@ == h.prefix && c == h.entry_count
                && final(stream)@ == rest,
            Err(err) => r == Err::<(u32, u8, Vec<u8>, u16), MrtError>(err)
                && advanced(old(stream)@, final(stream)@),
        },
{
    let ghost s0 = stream@;
    let sequence_number = read_u32(stream)?;
    let ghost s1 = stream@;
    proof { lemma_skip_skip(s0, 4, 0); }
    let prefix_length = read_u8(stream)?;
    let ghost s2 = stream@;
    proof { lemma_skip_skip(s1, 1, 0); }
    let prefix_bytes = prefix_bytes_needed(prefix_length);
    let prefix = read_bytes(stream, prefix_bytes)?;
    proof { lemma_skip_skip(s2, prefix_bytes as int, 0); }
    let entry_count = read_u16(stream)?;
    Ok((sequence_number, prefix_length, prefix, entry_count))
}

/// The value of an AFI-specific RIB record.
pub struct RibAfiModel {
    pub sequence_number: u32,
    pub prefix_length: u8,
    pub prefix: Seq<u8>,
    pub entries: Seq<EntryModel>,
}

/// An AFI-specific RIB record: its fixed part followed by as many entries as
/// the entry count says. `None` where the input ends first.
pub open spec fn spec_rib_afi(s: Seq<u8>, addpath: bool) -> Option<(RibAfiModel, Seq<u8>)> {
    match spec_rib_head(s) {
        None => None,
        Some((h, rest)) => match spec_entries(rest, h.entry_count as nat, addpath) {
            None => None,
            Some((entries, rest2)) => Some((
                RibAfiModel {
                    sequence_number: h.sequence_number,
                    prefix_length: h.prefix_length,
                    prefix: h.prefix,
                    entries,
                },
                rest2,
            )),
        },
    }
}

/// AFI-specific RIB record (IPv4 or IPv6 unicast/multicast).
#[derive(Debug, Clone)]
pub struct RIB_AFI {
    /// Sequence number within the dump
    pub sequence_number: u32,
    /// Prefix length in bits
    pub prefix_length: u8,
    /// Prefix bytes (variable length based on prefix_length)
    pub prefix: Vec<u8>,
    /// RIB entries for this prefix
    pub entries: Vec<RIBEntry>,
}

impl View for RIB_AFI {
    type V = RibAfiModel;

    open spec fn view(&self) -> RibAfiModel {
        RibAfiModel {
            sequence_number: self.sequence_number,
            prefix_length: self.prefix_length,
            prefix: self.prefix@,
            entries: models(self.entries@),
        }
    }
}

impl RIB_AFI {
    /// Parse a RIB_AFI record. The address family does not change the layout.
    pub fn parse<'a>(_afi: &AFI, stream: &mut &'a [u8]) -> (r: Result<Self, MrtError>)
        ensures
            decodes(res_view(r), old(stream)@, final(stream)@, eof_or(spec_rib_afi(old(stream)@, false))),
    {
        let start: &'a [u8] = *stream;
        let r = Self::parse_steps(_afi, stream);
        if r.is_err() {
            *stream = start;
        }
        r
    }

    /// The steps of [`Self::parse`], which may consume input before failing.
    fn parse_steps<'a>(_afi: &AFI, stream: &mut &'a [u8]) -> (r: Result<Self, MrtError>)
        ensures
            decodes_advancing(res_view(r), old(stream)@, final(stream)@, eof_or(spec_rib_afi(old(stream)@, false))),
    {
        let (sequence_number, prefix_length, prefix, entry_count) = parse_rib_head(stream)?;
        proof { lemma_rib_head_advances(old(stream)@); }
        let entries = parse_rib_entries(stream, entry_count)?;
        Ok(RIB_AFI { sequence_number, prefix_length, prefix, entries })
    }
}

/// AFI-specific RIB record with Add-Path extension.
#[derive(Debug, Clone)]
pub struct RIB_AFI_ADDPATH {
    /// Sequence number within the dump
    pub sequence_number: u32,
    /// Prefix length in bits
    pub prefix_length: u8,
    /// Prefix bytes (variable length based on prefix_length)
    pub prefix: Vec<u8>,
    /// RIB entries with path identifiers
    pub entries: Vec<RIBEntryAddPath>,
}

impl View for RIB_AFI_ADDPATH {
    type V = RibAfiModel;

    open spec fn view(&self) -> RibAfiModel {
        RibAfiModel {
            sequence_number: self.sequence_number,
            prefix_length: self.prefix_length,
            prefix: self.prefix@,
            entries: models(self.entries@),
        }
    }
}

impl RIB_AFI_ADDPATH {
    /// Parse a RIB_AFI_ADDPATH record. The address family does not change the
    /// layout.
    pub fn parse<'a>(_afi: &AFI, stream: &mut &'a [u8]) -> (r: Result<Self, MrtError>)
        ensures
            decodes(res_view(r), old(stream)@, final(stream)@, eof_or(spec_rib_afi(old(stream)@, true))),
    {
        let start: &'a [u8] = *stream;
        let r = Self::parse_steps(_afi, stream);
        if r.is_err() {
            *stream = start;
        }
        r
    }

    /// The steps of [`Self::parse`], which may consume input before failing.
    fn parse_steps<'a>(_afi: &AFI, stream: &mut &'a [u8]) -> (r: Result<Self, MrtError>)
        ensures
            decodes_advancing(res_view(r), old(stream)@, final(stream)@, eof_or(spec_rib_afi(old(stream)@, true))),
    {
        let (sequence_number, prefix_length, prefix, entry_count) = parse_rib_head(stream)?;
        proof { lemma_rib_head_advances(old(stream)@); }
        let entries = parse_rib_entries_addpath(stream, entry_count)?;
        Ok(RIB_AFI_ADDPATH { sequence_number, prefix_length, prefix, entries })
    }
}

/// The address family given to the AFI-specific RIB decoders changes
/// nothing: decodings of the same bytes for any two families return the
/// same value or the same error and leave the same bytes.
pub proof fn law_rib_afi_family_independent(
    a1: AFI,
    r1: Result<RIB_AFI, MrtError>,
    new1: Seq<u8>,
    a2: AFI,
    r2: Result<RIB_AFI, MrtError>,
    new2: Seq<u8>,
    s: Seq<u8>,
)
    requires
        decodes(res_view(r1), s, new1, eof_or(spec_rib_afi(s, false))),
        decodes(res_view(r2), s, new2, eof_or(spec_rib_afi(s, false))),
    ensures
        res_view(r1) == res_view(r2),
        new1 == new2,
{
    law_decodes_deterministic(res_view(r1), new1, res_view(r2), new2, s, eof_or(spec_rib_afi(s, false)));
}

/// The same holds of the ADD-PATH AFI-specific RIB decoder.
pub proof fn law_rib_afi_addpath_family_independent(
    a1: AFI,
    r1: Result<RIB_AFI_ADDPATH, MrtError>,
    new1: Seq<u8>,
    a2: AFI,
    r2: Result<RIB_AFI_ADDPATH, MrtError>,
    new2: Seq<u8>,
    s: Seq<u8>,
)
    requires
        decodes(res_view(r1), s, new1, eof_or(spec_rib_afi(s, true))),
        decodes(res_view(r2), s, new2, eof_or(spec_rib_afi(s, true))),
    ensures
        res_view(r1) == res_view(r2),
        new1 == new2,
{
    law_decodes_deterministic(res_view(r1), new1, res_view(r2), new2, s, eof_or(spec_rib_afi(s, true)));
}

// ---------------------------------------------------------------------------
// Peer index table
// ---------------------------------------------------------------------------

/// Bit 0 of a peer type: the peer address is IPv6 (else IPv4).
pub open spec fn peer_is_ipv6(peer_type: u8) -> bool {
    peer_type % 2 == 1
}

/// Bit 1 of a peer type: the peer AS number takes 32 bits (else 16).
pub open spec fn peer_is_as4(peer_type: u8) -> bool {
    (peer_type / 2) % 2 == 1
}

/// The value of a peer entry.
pub struct PeerEntryModel {
    pub peer_type: u8,
    pub peer_bgp_id: u32,
    pub peer_ip_address: IpView,
    pub peer_as: u32,
}

/// A peer entry: `peer_type` (u8), `peer_bgp_id` (u32), the peer address
/// (16 bytes where bit 0 of the type is set, else 4), and the AS number (a
/// u32 where bit 1 of the type is set, else a u16).
pub open spec fn spec_peer_entry(s: Seq<u8>) -> Decoded<PeerEntryModel> {
    match take_u8(s) {
        Err(e) => Err(e),
        Ok((peer_type, s1)) => match take_u32(s1) {
            Err(e) => Err(e),
            Ok((peer_bgp_id, s2)) => match take_ip(s2, if peer_is_ipv6(peer_type) { AFI::IPV6 } else { AFI::IPV4 }) {
                Err(e) => Err(e),
                Ok((peer_ip_address, s3)) => {
                    let asn: Decoded<u32> = if peer_is_as4(peer_type) {
                        take_u32(s3)
                    } else {
                        match take_u16(s3) {
                            Err(e) => Err(e),
                            Ok((a, rest)) => Ok((a as u32, rest)),
                        }
                    };
                    match asn {
                        Err(e) => Err(e),
                        Ok((peer_as, rest)) => Ok((
                            PeerEntryModel { peer_type, peer_bgp_id, peer_ip_address, peer_as },
                            rest,
                        )),
                    }
                },
            },
        },
    }
}

/// Peer entry within a PEER_INDEX_TABLE.
#[derive(Debug, Clone)]
pub struct PeerEntry {
    /// Peer type flags:
    /// - Bit 0: IP address type (0 = IPv4, 1 = IPv6)
    /// - Bit 1: AS number size (0 = 16-bit, 1 = 32-bit)
    pub peer_type: u8,
    /// Peer BGP identifier
    pub peer_bgp_id: u32,
    /// Peer IP address
    pub peer_ip_address: IpAddr,
    /// Peer AS number (stored as u32, may have been 16-bit on wire)
    pub peer_as: u32,
}

impl View for PeerEntry {
    type V = PeerEntryModel;

    open spec fn view(&self) -> PeerEntryModel {
        PeerEntryModel {
            peer_type: self.peer_type,
            peer_bgp_id: self.peer_bgp_id,
            peer_ip_address: self.peer_ip_address@,
            peer_as: self.peer_as,
        }
    }
}

impl PeerEntry {
    /// Parse a PeerEntry from the stream.
    pub fn parse<'a>(stream: &mut &'a [u8]) -> (r: Result<Self, MrtError>)
        ensures
            decodes(res_view(r), old(stream)@, final(stream)@, spec_peer_entry(old(stream)@)),
    {
        let start: &'a [u8] = *stream;
        let r = Self::parse_steps(stream);
        if r.is_err() {
            *stream = start;
        }
        r
    }

    /// The steps of [`Self::parse`], which may consume input before failing.
    fn parse_steps<'a>(stream: &mut &'a [u8]) -> (r: Result<Self, MrtError>)
        ensures
            decodes_advancing(res_view(r), old(stream)@, final(stream)@, spec_peer_entry(old(stream)@)),
    {
        let ghost s0 = stream@;
        let peer_type = read_u8(stream)?;
        proof { lemma_skip_skip(s0, 1, 0); }
        let ghost s1 = stream@;
        let peer_bgp_id = read_u32(stream)?;
        proof { lemma_skip_skip(s1, 4, 0); }
        let ghost s2 = stream@;

        // RFC 6396: Bit 0 = Address Family (0 = IPv4, 1 = IPv6)
        let is_ipv6 = (peer_type & 0x01) != 0;
        assert(is_ipv6 == peer_is_ipv6(peer_type)) by (bit_vector)
            requires
                is_ipv6 == ((peer_type & 0x01) != 0),
        ;
        let peer_ip_address = if is_ipv6 {
            IpAddr::V6(read_ipv6(stream)?)
        } else {
            IpAddr::V4(read_ipv4(stream)?)
        };
        proof { lemma_skip_skip(s2, if is_ipv6 { 16 } else { 4 }, 0); }

        // RFC 6396: Bit 1 = AS Size (0 = 16-bit, 1 = 32-bit)
        let is_as4 = (peer_type & 0x02) != 0;
        assert(is_as4 == peer_is_as4(peer_type)) by (bit_vector)
            requires
                is_as4 == ((peer_type & 0x02) != 0),
        ;
        let peer_as = if is_as4 {
            read_u32(stream)?
        } else {
            read_u16(stream)? as u32
        };

        Ok(PeerEntry { peer_type, peer_bgp_id, peer_ip_address, peer_as })
    }
}

/// `n` peer entries one after another.
pub open spec fn spec_peer_entries(s: Seq<u8>, n: nat) -> Decoded<Seq<PeerEntryModel>>
    decreases n,
{
    if n == 0 {
        Ok((Seq::empty(), s))
    } else {
        match spec_peer_entry(s) {
            Err(e) => Err(e),
            Ok((p, rest)) => match spec_peer_entries(rest, (n - 1) as nat) {
                Err(e) => Err(e),
                Ok((ps, rest2)) => Ok((seq![p] + ps, rest2)),
            },
        }
    }
}

/// The value of a peer index table.
pub struct PeerIndexTableModel {
    pub collector_id: u32,
    pub view_name: Seq<char>,
    pub peer_entries: Seq<PeerEntryModel>,
}

/// A peer index table: `collector_id` (u32), a u16 length and that many
/// bytes of view name, read as UTF-8 with invalid sequences replaced, a
/// peer count (u16) and as many peer entries.
pub open spec fn spec_peer_index_table(s: Seq<u8>) -> Decoded<PeerIndexTableModel> {
    match take_u32(s) {
        Err(e) => Err(e),
        Ok((collector_id, s1)) => match take_u16(s1) {
            Err(e) => Err(e),
            Ok((name_len, s2)) => match take_bytes(s2, name_len as int) {
                Err(e) => Err(e),
                Ok((name, s3)) => match take_u16(s3) {
                    Err(e) => Err(e),
                    Ok((peer_count, s4)) => match spec_peer_entries(s4, peer_count as nat) {
                        Err(e) => Err(e),
                        Ok((peer_entries, rest)) => Ok((
                            PeerIndexTableModel {
                                collector_id,
                                view_name: utf8_lossy(name),
                                peer_entries,
                            },
                            rest,
                        )),
                    },
                },
            },
        },
    }
}

/// Peer index table for TABLE_DUMP_V2.
///
/// This record must appear at the start of a TABLE_DUMP_V2 file and
/// defines the peer index mappings used in subsequent RIB entries.
#[derive(Debug, Clone)]
pub struct PEER_INDEX_TABLE {
    /// BGP identifier of the collector
    pub collector_id: u32,
    /// View name (may be empty)
    pub view_name: String,
    /// List of peers in this dump
    pub peer_entries: Vec<PeerEntry>,
}

impl View for PEER_INDEX_TABLE {
    type V = PeerIndexTableModel;

    open spec fn view(&self) -> PeerIndexTableModel {
        PeerIndexTableModel {
            collector_id: self.collector_id,
            view_name: self.view_name@,
            peer_entries: models(self.peer_entries@),
        }
    }
}

/// The result of decoding `n` peer entries where `done` were decoded already
/// and `d` is what decoding the remaining ones from here gives.
pub open spec fn peers_after(done: Seq<PeerEntryModel>, d: Decoded<Seq<PeerEntryModel>>) -> Decoded<Seq<PeerEntryModel>> {
    match d {
        Ok((ps, rest)) => Ok((done + ps, rest)),
        Err(e) => Err(e),
    }
}

/// Reads `count` peer entries.
fn parse_peer_entries<'a>(stream: &mut &'a [u8], count: u16) -> (r: Result<Vec<PeerEntry>, MrtError>)
    ensures
        decodes_advancing(
            match r { Ok(v) => Ok(models(v@)), Err(e) => Err(e) },
            old(stream)@, final(stream)@, spec_peer_entries(old(stream)@, count as nat),
        ),
{
    let ghost s0 = stream@;
    let mut peer_entries: Vec<PeerEntry> = Vec::with_capacity(count as usize);
    let mut i: u16 = 0;
    proof {
        assert(models(peer_entries@) =~= Seq::<PeerEntryModel>::empty());
        assert(peers_after(Seq::empty(), spec_peer_entries(s0, count as nat)) =~~= spec_peer_entries(s0, count as nat));
    }
    while i < count
        invariant
            s0 == old(stream)@,
            i <= count,
            peer_entries@.len() == i,
            advanced(s0, stream@),
            spec_peer_entries(s0, count as nat) == peers_after(models(peer_entries@), spec_peer_entries(stream@, (count - i) as nat)),
        decreases count - i,
    {
        let ghost cur = stream@;
        let ghost done = models(peer_entries@);
        proof {
            if let Ok((p, rest)) = spec_peer_entry(cur) {
                if let Ok((ps, rest2)) = spec_peer_entries(rest, (count - i - 1) as nat) {
                    assert(done + (seq![p] + ps) =~= done.push(p) + ps);
                }
            }
        }
        let p = PeerEntry::parse(stream)?;
        proof {
            lemma_peer_entry_advances(cur);
            assert(models(peer_entries@.push(p)) =~= models(peer_entries@).push(p@));
        }
        peer_entries.push(p);
        i = i + 1;
    }
    proof {
        assert(models(peer_entries@) + Seq::<PeerEntryModel>::empty() =~= models(peer_entries@));
    }
    Ok(peer_entries)
}

impl PEER_INDEX_TABLE {
    /// Parse a PEER_INDEX_TABLE record.
    pub fn parse<'a>(stream: &mut &'a [u8]) -> (r: Result<Self, MrtError>)
        ensures
            decodes(res_view(r), old(stream)@, final(stream)@, spec_peer_index_table(old(stream)@)),
    {
        let start: &'a [u8] = *stream;
        let r = Self::parse_steps(stream);
        if r.is_err() {
            *stream = start;
        }
        r
    }

    /// The steps of [`Self::parse`], which may consume input before failing.
    fn parse_steps<'a>(stream: &mut &'a [u8]) -> (r: Result<Self, MrtError>)
        ensures
            decodes_advancing(res_view(r), old(stream)@, final(stream)@, spec_peer_index_table(old(stream)@)),
    {
        let ghost s0 = stream@;
        let collector_id = read_u32(stream)?;
        proof { lemma_skip_skip(s0, 4, 0); }
        let ghost s1 = stream@;
        let view_name_length = read_u16(stream)?;
        proof { lemma_skip_skip(s1, 2, 0); }
        let ghost s2 = stream@;

        let view_name_bytes = read_bytes(stream, view_name_length as usize)?;
        proof { lemma_skip_skip(s2, view_name_length as int, 0); }
        let view_name = string_from_utf8_lossy(view_name_bytes.as_slice());
        let ghost s3 = stream@;

        let peer_count = read_u16(stream)?;
        proof { lemma_skip_skip(s3, 2, 0); }
        let peer_entries = parse_peer_entries(stream, peer_count)?;
        Ok(PEER_INDEX_TABLE { collector_id, view_name, peer_entries })
    }
}

/// What is left after a peer entry is a suffix of the input.
proof fn lemma_peer_entry_advances(s: Seq<u8>)
    ensures
        spec_peer_entry(s) matches Ok((p, rest)) ==> advanced(s, rest),
{
    if let Ok((p, rest)) = spec_peer_entry(s) {
        let n = if peer_is_ipv6(p.peer_type) { 16int } else { 4int };
        let a = if peer_is_as4(p.peer_type) { 4int } else { 2int };
        lemma_skip_skip(s, 1, 4);
        lemma_skip_skip(s, 5, n);
        lemma_skip_skip(s, 5 + n, a);
    }
}

// ---------------------------------------------------------------------------
// Generic RIB records
// ---------------------------------------------------------------------------

/// The value of a generic RIB record.
pub struct RibGenericModel {
    pub sequence_number: u32,
    pub afi: AFI,
    pub safi: u8,
    pub nlri: Seq<u8>,
    pub entries: Seq<EntryModel>,
}

/// The part of a generic RIB record before its entries.
pub struct RibGenericHead {
    pub sequence_number: u32,
    pub afi: AFI,
    pub safi: u8,
    pub nlri: Seq<u8>,
    pub entry_count: u16,
}

/// The part of a generic RIB record before its entries: `sequence_number`
/// (u32), an AFI code (u16), `safi` (u8), a u16 length and that many NLRI
/// bytes, and an entry count (u16).
pub open spec fn spec_rib_generic_head(s: Seq<u8>) -> Decoded<RibGenericHead> {
    match take_u32(s) {
        Err(e) => Err(e),
        Ok((sequence_number, s1)) => match take_afi(s1) {
            Err(e) => Err(e),
            Ok((afi, s2)) => match take_u8(s2) {
                Err(e) => Err(e),
                Ok((safi, s3)) => match take_u16(s3) {
                    Err(e) => Err(e),
                    Ok((nlri_len, s4)) => match take_bytes(s4, nlri_len as int) {
                        Err(e) => Err(e),
                        Ok((nlri, s5)) => match take_u16(s5) {
                            Err(e) => Err(e),
                            Ok((entry_count, rest)) => Ok((
                                RibGenericHead { sequence_number, afi, safi, nlri, entry_count },
                                rest,
                            )),
                        },
                    },
                },
            },
        },
    }
}

/// A generic RIB record: its head followed by as many entries as the entry
/// count says.
pub open spec fn spec_rib_generic(s: Seq<u8>, addpath: bool) -> Decoded<RibGenericModel> {
    match spec_rib_generic_head(s) {
        Err(e) => Err(e),
        Ok((h, rest)) => match eof_or(spec_entries(rest, h.entry_count as nat, addpath)) {
            Err(e) => Err(e),
            Ok((entries, rest2)) => Ok((
                RibGenericModel {
                    sequence_number: h.sequence_number,
                    afi: h.afi,
                    safi: h.safi,
                    nlri: h.nlri,
                    entries,
                },
                rest2,
            )),
        },
    }
}

/// Reads the part of a generic RIB record before its entries.
fn parse_rib_generic_head<'a>(stream: &mut &'a [u8]) -> (r: Result<(u32, AFI, u8, Vec<u8>, u16), MrtError>)
    ensures
        advanced(old(stream)@, final(stream)@),
        match spec_rib_generic_head(old(stream)@) {
            Ok((h, rest)) => r matches Ok((sn, afi, safi, nlri, count)) && sn == h.sequence_number
                && afi == h.afi && safi == h.safi && nlri@ == h.nlri && count == h.entry_count
                && final(stream)@ == rest,
            Err(e) => r == Err::<(u32, AFI, u8, Vec<u8>, u16), MrtError>(e),
        },
{
    let ghost s0 = stream@;
    let sequence_number = read_u32(stream)?;
    proof { lemma_skip_skip(s0, 4, 0); }
    let ghost s1 = stream@;
    let afi = read_afi(stream)?;
    proof { lemma_skip_skip(s1, 2, 0); }
    let ghost s2 = stream@;
    let safi = read_u8(stream)?;
    proof { lemma_skip_skip(s2, 1, 0); }
    let ghost s3 = stream@;
    let nlri_len = read_u16(stream)?;
    proof { lemma_skip_skip(s3, 2, 0); }
    let ghost s4 = stream@;
    let nlri = read_bytes(stream, nlri_len as usize)?;
    proof { lemma_skip_skip(s4, nlri_len as int, 0); }
    let ghost s5 = stream@;
    let entry_count = read_u16(stream)?;
    proof { lemma_skip_skip(s5, 2, 0); }
    Ok((sequence_number, afi, safi, nlri, entry_count))
}

/// Generic RIB record with explicit AFI/SAFI.
#[derive(Debug, Clone)]
pub struct RIB_GENERIC {
    /// Sequence number within the dump
    pub sequence_number: u32,
    /// Address family identifier
    pub afi: AFI,
    /// Subsequent AFI
    pub safi: u8,
    /// NLRI (Network Layer Reachability Information)
    pub nlri: Vec<u8>,
    /// RIB entries for this NLRI
    pub entries: Vec<RIBEntry>,
}

impl View for RIB_GENERIC {
    type V = RibGenericModel;

    open spec fn view(&self) -> RibGenericModel {
        RibGenericModel {
            sequence_number: self.sequence_number,
            afi: self.afi,
            safi: self.safi,
            nlri: self.nlri@,
            entries: models(self.entries@),
        }
    }
}

impl RIB_GENERIC {
    /// Parse a RIB_GENERIC record.
    pub fn parse<'a>(stream: &mut &'a [u8]) -> (r: Result<Self, MrtError>)
        ensures
            decodes(res_view(r), old(stream)@, final(stream)@, spec_rib_generic(old(stream)@, false)),
    {
        let start: &'a [u8] = *stream;
        let r = Self::parse_steps(stream);
        if r.is_err() {
            *stream = start;
        }
        r
    }

    /// The steps of [`Self::parse`], which may consume input before failing.
    fn parse_steps<'a>(stream: &mut &'a [u8]) -> (r: Result<Self, MrtError>)
        ensures
            decodes_advancing(res_view(r), old(stream)@, final(stream)@, spec_rib_generic(old(stream)@, false)),
    {
        let (sequence_number, afi, safi, nlri, entry_count) = parse_rib_generic_head(stream)?;
        let entries = parse_rib_entries(stream, entry_count)?;
        Ok(RIB_GENERIC { sequence_number, afi, safi, nlri, entries })
    }
}

/// Generic RIB record with Add-Path extension.
#[derive(Debug, Clone)]
pub struct RIB_GENERIC_ADDPATH {
    /// Sequence number within the dump
    pub sequence_number: u32,
    /// Address family identifier
    pub afi: AFI,
    /// Subsequent AFI
    pub safi: u8,
    /// NLRI (Network Layer Reachability Information)
    pub nlri: Vec<u8>,
    /// RIB entries with path identifiers
    pub entries: Vec<RIBEntryAddPath>,
}

impl View for RIB_GENERIC_ADDPATH {
    type V = RibGenericModel;

    open spec fn view(&self) -> RibGenericModel {
        RibGenericModel {
            sequence_number: self.sequence_number,
            afi: self.afi,
            safi: self.safi,
            nlri: self.nlri@,
            entries: models(self.entries@),
        }
    }
}

impl RIB_GENERIC_ADDPATH {
    /// Parse a RIB_GENERIC_ADDPATH record.
    pub fn parse<'a>(stream: &mut &'a [u8]) -> (r: Result<Self, MrtError>)
        ensures
            decodes(res_view(r), old(stream)@, final(stream)@, spec_rib_generic(old(stream)@, true)),
    {
        let start: &'a [u8] = *stream;
        let r = Self::parse_steps(stream);
        if r.is_err() {
            *stream = start;
        }
        r
    }

    /// The steps of [`Self::parse`], which may consume input before failing.
    fn parse_steps<'a>(stream: &mut &'a [u8]) -> (r: Result<Self, MrtError>)
        ensures
            decodes_advancing(res_view(r), old(stream)@, final(stream)@, spec_rib_generic(old(stream)@, true)),
    {
        let (sequence_number, afi, safi, nlri, entry_count) = parse_rib_generic_head(stream)?;
        let entries = parse_rib_entries_addpath(stream, entry_count)?;
        Ok(RIB_GENERIC_ADDPATH { sequence_number, afi, safi, nlri, entries })
    }
}

// ---------------------------------------------------------------------------
// Zero-copy RIB records
// ---------------------------------------------------------------------------

/// Zero-copy view of a TABLE_DUMP_V2 RIB record (subtypes 2-5 and ADD-PATH 8-11).
///
/// Unlike [`RIB_AFI`], this borrows directly from the record body buffer:
/// no per-entry heap allocations and no copying of attribute bytes. Entries
/// are decoded lazily via [`RibRef::entries`].
#[derive(Debug, Clone, Copy)]
pub struct RibRef<'a> {
    /// Address family of the prefix
    pub afi: AFI,
    /// True for the *_MULTICAST subtypes
    pub multicast: bool,
    /// True for the RFC 8050 ADD-PATH subtypes (entries carry a path identifier)
    pub addpath: bool,
    /// Sequence number within the dump
    pub sequence_number: u32,
    /// Prefix length in bits
    pub prefix_length: u8,
    /// Prefix bytes (variable length based on prefix_length)
    pub prefix: &'a [u8],
    /// Number of RIB entries following the prefix
    pub entry_count: u16,
    /// The bytes after the fixed part of the record, which hold the entries
    pub entries_data: &'a [u8],
}

impl<'a> RibRef<'a> {
    /// Parse the fixed part of a RIB record from a record body slice.
    ///
    /// The entries themselves are not validated here; they are decoded
    /// on demand by the iterator returned from [`RibRef::entries`].
    pub fn parse(afi: AFI, multicast: bool, addpath: bool, body: &'a [u8]) -> (r: Result<Self, MrtError>)
        ensures
            match spec_rib_head(body@) {
                None => r == Err::<Self, MrtError>(MrtError::TruncatedRibRecord),
                Some((h, rest)) => r matches Ok(rib) && rib.afi == afi && rib.multicast == multicast
                    && rib.addpath == addpath && rib.sequence_number == h.sequence_number
                    && rib.prefix_length == h.prefix_length && rib.prefix@ == h.prefix
                    && rib.prefix@.len() == spec_prefix_bytes(rib.prefix_length)
                    && rib.entry_count == h.entry_count && rib.entries_data@ == rest,
            },
    {
        if body.len() < 4 {
            return Err(MrtError::TruncatedRibRecord);
        }
        let (seq, rest) = body.split_at(4);
        let sequence_number = u32_at(seq, 0);

        if rest.len() < 1 {
            return Err(MrtError::TruncatedRibRecord);
        }
        let prefix_length = rest[0];
        let (_, rest) = rest.split_at(1);

        let n = prefix_bytes_needed(prefix_length);
        if rest.len() < n {
            return Err(MrtError::TruncatedRibRecord);
        }
        let (prefix, rest) = rest.split_at(n);

        if rest.len() < 2 {
            return Err(MrtError::TruncatedRibRecord);
        }
        let (cnt, rest) = rest.split_at(2);
        let entry_count = u16_at(cnt, 0);

        Ok(RibRef {
            afi,
            multicast,
            addpath,
            sequence_number,
            prefix_length,
            prefix,
            entry_count,
            entries_data: rest,
        })
    }

    /// Iterate over the RIB entries without allocating.
    pub fn entries(&self) -> (r: RibEntryIter<'a>)
        ensures
            r@ == (RibEntryIterView {
                data: self.entries_data@,
                remaining: self.entry_count,
                addpath: self.addpath,
            }),
    {
        RibEntryIter {
            data: self.entries_data,
            remaining: self.entry_count,
            addpath: self.addpath,
        }
    }
}

/// Zero-copy view of a single RIB entry; attributes borrow the body buffer.
#[derive(Debug, Clone, Copy)]
pub struct RibEntryRef<'a> {
    /// Index into the peer index table
    pub peer_index: u16,
    /// Time this route was originated
    pub originated_time: u32,
    /// Path identifier (ADD-PATH subtypes only)
    pub path_id: Option<u32>,
    /// BGP path attributes
    pub attributes: &'a [u8],
}

impl<'a> View for RibEntryRef<'a> {
    type V = EntryModel;

    open spec fn view(&self) -> EntryModel {
        EntryModel {
            peer_index: self.peer_index,
            originated_time: self.originated_time,
            path_id: self.path_id,
            attributes: self.attributes@,
        }
    }
}

/// The state of a [`RibEntryIter`]: the bytes not yet decoded, how many
/// entries are still to come, and whether entries carry a path identifier.
pub struct RibEntryIterView {
    pub data: Seq<u8>,
    pub remaining: u16,
    pub addpath: bool,
}

/// Lazy iterator over the entries of a [`RibRef`].
#[derive(Debug, Clone)]
pub struct RibEntryIter<'a> {
    data: &'a [u8],
    remaining: u16,
    addpath: bool,
}

impl<'a> View for RibEntryIter<'a> {
    type V = RibEntryIterView;

    closed spec fn view(&self) -> RibEntryIterView {
        RibEntryIterView { data: self.data@, remaining: self.remaining, addpath: self.addpath }
    }
}

/// One step of the lazy iterator: the next entry and the bytes after it, or
/// which part of the entry the data ended in.
pub open spec fn iter_step(data: Seq<u8>, addpath: bool) -> Decoded<EntryModel> {
    if data.len() < entry_fixed_len(addpath) {
        Err(MrtError::TruncatedRibEntry)
    } else {
        match spec_entry(data, addpath) {
            Some(x) => Ok(x),
            None => Err(MrtError::TruncatedRibEntryAttributes),
        }
    }
}

/// Everything the lazy iterator yields from `data` with `remaining` entries
/// to come: the entries in order, ending with the first error, if any.
pub open spec fn iter_items(data: Seq<u8>, remaining: nat, addpath: bool) -> Seq<Result<EntryModel, MrtError>>
    decreases remaining,
{
    if remaining == 0 {
        Seq::empty()
    } else {
        match iter_step(data, addpath) {
            Err(e) => seq![Err(e)],
            Ok((e, rest)) => seq![Ok::<EntryModel, MrtError>(e)] + iter_items(rest, (remaining - 1) as nat, addpath),
        }
    }
}

/// Everything an iterator in state `v` yields.
pub open spec fn items(v: RibEntryIterView) -> Seq<Result<EntryModel, MrtError>> {
    iter_items(v.data, v.remaining as nat, v.addpath)
}

/// An iterator yields at most as many items as it has entries to come.
proof fn lemma_items_len(data: Seq<u8>, remaining: nat, addpath: bool)
    ensures
        iter_items(data, remaining, addpath).len() <= remaining,
    decreases remaining,
{
    if remaining > 0 {
        if let Ok((e, rest)) = iter_step(data, addpath) {
            lemma_items_len(rest, (remaining - 1) as nat, addpath);
        }
    }
}

/// The values of decoded entries, each as a successful item.
pub open spec fn oks(es: Seq<EntryModel>) -> Seq<Result<EntryModel, MrtError>> {
    es.map_values(|e: EntryModel| Ok::<EntryModel, MrtError>(e))
}

/// The lazy iterator over `n` entries yields exactly the entries that the
/// owned decoder reads, each as a success, and there are `n` of them; where
/// the owned decoder fails, the iterator yields an error.
pub proof fn law_iter_items_match_entries(data: Seq<u8>, n: nat, addpath: bool)
    ensures
        spec_entries(data, n, addpath) matches Some((es, _)) ==> es.len() == n
            && iter_items(data, n, addpath) == oks(es),
        spec_entries(data, n, addpath) is None ==> exists|i: int|
            0 <= i < iter_items(data, n, addpath).len() && (#[trigger] iter_items(data, n, addpath)[i]) is Err,
    decreases n,
{
    if n == 0 {
        assert(oks(Seq::empty()) =~= Seq::<Result<EntryModel, MrtError>>::empty());
    } else {
        match spec_entry(data, addpath) {
            None => {
                assert(iter_items(data, n, addpath)[0] is Err);
            },
            Some((e, rest)) => {
                law_iter_items_match_entries(rest, (n - 1) as nat, addpath);
                let tail = iter_items(rest, (n - 1) as nat, addpath);
                assert(iter_items(data, n, addpath) == seq![Ok::<EntryModel, MrtError>(e)] + tail);
                match spec_entries(rest, (n - 1) as nat, addpath) {
                    Some((es, _)) => {
                        assert(oks(seq![e] + es) =~= seq![Ok::<EntryModel, MrtError>(e)] + oks(es));
                    },
                    None => {
                        let i = choose|i: int| 0 <= i < tail.len() && (#[trigger] tail[i]) is Err;
                        assert(iter_items(data, n, addpath)[i + 1] == tail[i]);
                    },
                }
            },
        }
    }
}

/// The zero-copy reading of an AFI-specific RIB record agrees with the owned
/// one. Where the owned decoder reads a record from `body`, the zero-copy
/// decoder reads the same sequence number, prefix length, prefix and entry
/// count, and its iterator yields exactly the owned entries, all as
/// successes. Where the owned decoder fails, either the zero-copy decoder
/// fails or its iterator yields an error.
pub proof fn law_rib_ref_matches_owned(body: Seq<u8>, addpath: bool)
    ensures
        spec_rib_afi(body, addpath) matches Some((rib, _)) ==> {
            &&& spec_rib_head(body) matches Some((h, rest))
            &&& h.sequence_number == rib.sequence_number
            &&& h.prefix_length == rib.prefix_length
            &&& h.prefix == rib.prefix
            &&& h.entry_count == rib.entries.len()
            &&& iter_items(rest, h.entry_count as nat, addpath) == oks(rib.entries)
        },
        spec_rib_afi(body, addpath) is None ==> match spec_rib_head(body) {
            None => true,
            Some((h, rest)) => exists|i: int|
                0 <= i < iter_items(rest, h.entry_count as nat, addpath).len()
                && (#[trigger] iter_items(rest, h.entry_count as nat, addpath)[i]) is Err,
        },
{
    if let Some((h, rest)) = spec_rib_head(body) {
        law_iter_items_match_entries(rest, h.entry_count as nat, addpath);
    }
}

impl<'a> RibEntryIter<'a> {
    /// The next RIB entry, an error where the data ends inside one (after
    /// which the iterator is exhausted), or `None` when all are taken.
    pub fn next(&mut self) -> (r: Option<Result<RibEntryRef<'a>, MrtError>>)
        ensures
            final(self)@.addpath == old(self)@.addpath,
            old(self)@.remaining == 0 ==> r is None && final(self)@ == old(self)@,
            old(self)@.remaining > 0 ==> match iter_step(old(self)@.data, old(self)@.addpath) {
                Ok((e, rest)) => r matches Some(Ok(x)) && x@ == e && final(self)@.data == rest
                    && final(self)@.remaining == old(self)@.remaining - 1,
                Err(err) => r == Some(Err::<RibEntryRef<'a>, MrtError>(err))
                    && final(self)@.data == old(self)@.data && final(self)@.remaining == 0,
            },
            match r {
                None => items(old(self)@).len() == 0,
                Some(x) => items(old(self)@).len() > 0 && res_view(x) == items(old(self)@)[0]
                    && items(final(self)@) == items(old(self)@).drop_first(),
            },
    {
        if self.remaining == 0 {
            return None;
        }
        self.remaining = self.remaining - 1;

        let fixed_len: usize = if self.addpath { 12 } else { 8 };
        let data: &'a [u8] = self.data;
        if data.len() < fixed_len {
            self.remaining = 0;
            return Some(Err(MrtError::TruncatedRibEntry));
        }
        let (head, rest) = data.split_at(fixed_len);

        let peer_index = u16_at(head, 0);
        let originated_time = u32_at(head, 2);
        let (path_id, attr_len) = if self.addpath {
            (Some(u32_at(head, 6)), u16_at(head, 10))
        } else {
            (None, u16_at(head, 6))
        };

        if rest.len() < attr_len as usize {
            self.remaining = 0;
            return Some(Err(MrtError::TruncatedRibEntryAttributes));
        }
        let (attributes, rest) = rest.split_at(attr_len as usize);
        self.data = rest;

        Some(Ok(RibEntryRef {
            peer_index,
            originated_time,
            path_id,
            attributes,
        }))
    }

    /// Bounds on the number of items still to come: at least none, at most
    /// the number of entries not yet taken.
    pub fn size_hint(&self) -> (r: (usize, Option<usize>))
        ensures
            r.0 == 0,
            r.1 == Some(self@.remaining as usize),
            items(self@).len() <= self@.remaining,
    {
        proof { lemma_items_len(self@.data, self@.remaining as nat, self@.addpath); }
        (0, Some(self.remaining as usize))
    }
}

} // verus!
