//! Address families, IP addresses, and their wire forms.
use vstd::prelude::*;
use crate::bytes::{Decoded, decodes, res_view, take_u16, read_u16, read_slice, take_bytes};
use crate::error::MrtError;

verus! {

/// Address family identifier.
#[derive(Debug, Clone, Copy, PartialEq, Eq)]
pub enum AFI {
    IPV4,
    IPV6,
}

/// An IPv4 or IPv6 address, held as its octets in network order.
#[derive(Debug, Clone, Copy, PartialEq, Eq)]
pub enum IpAddr {
    V4([u8; 4]),
    V6([u8; 16]),
}

/// The mathematical value of an [`IpAddr`]: its family and its octets.
pub enum IpView {
    V4(Seq<u8>),
    V6(Seq<u8>),
}

impl View for IpAddr {
    type V = IpView;

    open spec fn view(&self) -> IpView {
        match self {
            IpAddr::V4(a) => IpView::V4(a@),
            IpAddr::V6(a) => IpView::V6(a@),
        }
    }
}

impl IpAddr {
    /// True for an IPv6 address.
    pub fn is_ipv6(&self) -> (r: bool)
        ensures
            r <==> self is V6,
    {
        match self {
            IpAddr::V4(_) => false,
            IpAddr::V6(_) => true,
        }
    }

    /// True for an IPv4 address.
    pub fn is_ipv4(&self) -> (r: bool)
        ensures
            r <==> self is V4,
    {
        match self {
            IpAddr::V4(_) => true,
            IpAddr::V6(_) => false,
        }
    }
}

/// The number of whole bytes that hold a prefix of `prefix_length` bits.
pub open spec fn spec_prefix_bytes(prefix_length: u8) -> int {
    (prefix_length + 7) / 8
}

/// The number of whole bytes that hold a prefix of `prefix_length` bits:
/// the bit count divided by eight, rounded up.
pub fn prefix_bytes_needed(prefix_length: u8) -> (r: usize)
    ensures
        r == spec_prefix_bytes(prefix_length),
        8 * r >= prefix_length,
        8 * r < prefix_length + 8,
{
    (prefix_length as usize + 7) / 8
}

/// The address family that an AFI code names on the wire.
pub open spec fn afi_of(code: u16) -> Result<AFI, MrtError> {
    if code == 1 {
        Ok(AFI::IPV4)
    } else if code == 2 {
        Ok(AFI::IPV6)
    } else {
        Err(MrtError::InvalidAfi)
    }
}

/// A big-endian AFI code: 1 is IPv4, 2 is IPv6, any other is refused.
pub open spec fn take_afi(s: Seq<u8>) -> Decoded<AFI> {
    match take_u16(s) {
        Err(e) => Err(e),
        Ok((code, rest)) => match afi_of(code) {
            Ok(afi) => Ok((afi, rest)),
            Err(e) => Err(e),
        },
    }
}

/// The number of octets of an address of the family.
pub open spec fn addr_len(afi: AFI) -> int {
    match afi {
        AFI::IPV4 => 4,
        AFI::IPV6 => 16,
    }
}

/// An address of the family, as its octets in network order.
pub open spec fn take_ip(s: Seq<u8>, afi: AFI) -> Decoded<IpView> {
    match take_bytes(s, addr_len(afi)) {
        Err(e) => Err(e),
        Ok((octets, rest)) => Ok((
            match afi {
                AFI::IPV4 => IpView::V4(octets),
                AFI::IPV6 => IpView::V6(octets),
            },
            rest,
        )),
    }
}

/// The address readers: an AFI code is the big-endian `u16` at the front,
/// 1 naming IPv4 and 2 IPv6, any other code refused without consuming
/// input; an address of a family is the next 4 (IPv4) or 16 (IPv6) bytes in
/// input order.
pub proof fn law_address_reads(
    s: Seq<u8>,
    ra: Result<AFI, MrtError>,
    newa: Seq<u8>,
    afi: AFI,
    ri: Result<IpAddr, MrtError>,
    newi: Seq<u8>,
)
    requires
        decodes(ra, s, newa, take_afi(s)),
        decodes(res_view(ri), s, newi, take_ip(s, afi)),
    ensures
        s.len() < 2 ==> ra == Err::<AFI, MrtError>(MrtError::UnexpectedEof) && newa == s,
        2 <= s.len() ==> {
            let code: int = 256 * s[0] + s[1];
            &&& code == 1 ==> ra == Ok::<AFI, MrtError>(AFI::IPV4) && newa == s.subrange(2, s.len() as int)
            &&& code == 2 ==> ra == Ok::<AFI, MrtError>(AFI::IPV6) && newa == s.subrange(2, s.len() as int)
            &&& (code != 1 && code != 2) ==> ra == Err::<AFI, MrtError>(MrtError::InvalidAfi) && newa == s
        },
        ri is Ok <==> (if afi == AFI::IPV4 { 4 } else { 16int }) <= s.len(),
        ri is Err ==> ri == Err::<IpAddr, MrtError>(MrtError::UnexpectedEof) && newi == s,
        afi == AFI::IPV4 ==> (ri matches Ok(a) ==> (a matches IpAddr::V4(o) && o@ == s.subrange(0, 4)
            && newi == s.subrange(4, s.len() as int))),
        afi == AFI::IPV6 ==> (ri matches Ok(a) ==> (a matches IpAddr::V6(o) && o@ == s.subrange(0, 16)
            && newi == s.subrange(16, s.len() as int))),
{
}

/// Reads a big-endian AFI code.
pub fn read_afi<'a>(stream: &mut &'a [u8]) -> (r: Result<AFI, MrtError>)
    ensures
        decodes(r, old(stream)@, final(stream)@, take_afi(old(stream)@)),
{
    let start: &'a [u8] = *stream;
    let code = read_u16(stream)?;
    if code == 1 {
        Ok(AFI::IPV4)
    } else if code == 2 {
        Ok(AFI::IPV6)
    } else {
        *stream = start;
        Err(MrtError::InvalidAfi)
    }
}

/// Reads the four octets of an IPv4 address.
pub fn read_ipv4<'a>(stream: &mut &'a [u8]) -> (r: Result<[u8; 4], MrtError>)
    ensures
        decodes(res_view(r), old(stream)@, final(stream)@, take_bytes(old(stream)@, 4)),
{
    let b = read_slice(stream, 4)?;
    let a = [b[0], b[1], b[2], b[3]];
    assert(a@ =~= b@);
    Ok(a)
}

/// Reads the sixteen octets of an IPv6 address.
pub fn read_ipv6<'a>(stream: &mut &'a [u8]) -> (r: Result<[u8; 16], MrtError>)
    ensures
        decodes(res_view(r), old(stream)@, final(stream)@, take_bytes(old(stream)@, 16)),
{
    let b = read_slice(stream, 16)?;
    let a = [
        b[0], b[1], b[2], b[3], b[4], b[5], b[6], b[7],
        b[8], b[9], b[10], b[11], b[12], b[13], b[14], b[15],
    ];
    assert(a@ =~= b@);
    Ok(a)
}

/// Reads an address of the given family.
pub fn read_ip_by_afi<'a>(stream: &mut &'a [u8], afi: &AFI) -> (r: Result<IpAddr, MrtError>)
    ensures
        decodes(res_view(r), old(stream)@, final(stream)@, take_ip(old(stream)@, *afi)),
{
    match afi {
        AFI::IPV4 => Ok(IpAddr::V4(read_ipv4(stream)?)),
        AFI::IPV6 => Ok(IpAddr::V6(read_ipv6(stream)?)),
    }
}

} // verus!
