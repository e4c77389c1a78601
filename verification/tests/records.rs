use mrt_ingester::address::{prefix_bytes_needed, read_afi, read_ip_by_afi, IpAddr, AFI};
use mrt_ingester::bytes::{read_bytes, read_u16, read_u32, read_u8};
use mrt_ingester::records::tabledump::{
    PeerEntry, RIBEntry, RIBEntryAddPath, RibRef, PEER_INDEX_TABLE, RIB_AFI, RIB_AFI_ADDPATH,
    RIB_GENERIC, RIB_GENERIC_ADDPATH, TABLE_DUMP, TABLE_DUMP_V2,
};
use mrt_ingester::{Header, MrtError};

fn header(record_type: u16, sub_type: u16) -> Header {
    Header { timestamp: 0, extended: 0, record_type, sub_type, length: 0 }
}

#[test]
fn big_endian_reads_follow_network_order() {
    let data: &[u8] = &[0x01, 0x02, 0x03, 0x04, 0x05, 0x06, 0x07];
    let mut s = data;
    assert_eq!(read_u32(&mut s), Ok(0x01020304));
    assert_eq!(read_u16(&mut s), Ok(0x0506));
    assert_eq!(read_u8(&mut s), Ok(0x07));
    assert_eq!(s.len(), 0);
    assert_eq!(read_u8(&mut s), Err(MrtError::UnexpectedEof));
}

#[test]
fn short_reads_leave_the_input_alone() {
    let data: &[u8] = &[0xAB, 0xCD, 0xEF];
    let mut s = data;
    assert_eq!(read_u32(&mut s), Err(MrtError::UnexpectedEof));
    assert_eq!(s, data);
    assert_eq!(read_bytes(&mut s, 4), Err(MrtError::UnexpectedEof));
    assert_eq!(read_bytes(&mut s, 2), Ok(vec![0xAB, 0xCD]));
    assert_eq!(s, &[0xEF]);
}

#[test]
fn prefix_bytes_round_up() {
    assert_eq!(prefix_bytes_needed(0), 0);
    assert_eq!(prefix_bytes_needed(1), 1);
    assert_eq!(prefix_bytes_needed(8), 1);
    assert_eq!(prefix_bytes_needed(9), 2);
    assert_eq!(prefix_bytes_needed(24), 3);
    assert_eq!(prefix_bytes_needed(32), 4);
    assert_eq!(prefix_bytes_needed(128), 16);
    assert_eq!(prefix_bytes_needed(255), 32);
}

#[test]
fn afi_codes() {
    assert_eq!(read_afi(&mut &[0x00u8, 0x01][..]), Ok(AFI::IPV4));
    assert_eq!(read_afi(&mut &[0x00u8, 0x02][..]), Ok(AFI::IPV6));
    assert_eq!(read_afi(&mut &[0x00u8, 0x03][..]), Err(MrtError::InvalidAfi));
    assert_eq!(read_afi(&mut &[0x00u8][..]), Err(MrtError::UnexpectedEof));
}

#[test]
fn addresses_by_family() {
    let data: &[u8] = &[1, 2, 3, 4, 5, 6, 7, 8, 9, 10, 11, 12, 13, 14, 15, 16, 17];
    let mut s = data;
    assert_eq!(read_ip_by_afi(&mut s, &AFI::IPV4), Ok(IpAddr::V4([1, 2, 3, 4])));
    let mut s = data;
    assert_eq!(
        read_ip_by_afi(&mut s, &AFI::IPV6),
        Ok(IpAddr::V6([1, 2, 3, 4, 5, 6, 7, 8, 9, 10, 11, 12, 13, 14, 15, 16]))
    );
    assert_eq!(s, &[17]);
    assert!(IpAddr::V4([0; 4]).is_ipv4());
    assert!(!IpAddr::V4([0; 4]).is_ipv6());
}

#[test]
fn rib_entry_leaves_following_bytes() {
    let data: &[u8] = &[0x00, 0x05, 0x00, 0x00, 0x00, 0x09, 0x00, 0x02, 0xAA, 0xBB, 0x77];
    let mut s = data;
    let e = RIBEntry::parse(&mut s).unwrap();
    assert_eq!(e.peer_index, 5);
    assert_eq!(e.originated_time, 9);
    assert_eq!(e.attributes, vec![0xAA, 0xBB]);
    assert_eq!(s, &[0x77]);
}

#[test]
fn rib_entry_truncated_attributes_is_eof() {
    let data: &[u8] = &[0x00, 0x05, 0x00, 0x00, 0x00, 0x09, 0x00, 0x03, 0xAA, 0xBB];
    assert_eq!(RIBEntry::parse(&mut &data[..]).unwrap_err(), MrtError::UnexpectedEof);
}

#[test]
fn rib_entry_addpath_reads_path_identifier() {
    let data: &[u8] = &[
        0x00, 0x01, 0x00, 0x00, 0x00, 0x02, 0x00, 0x00, 0x01, 0x00, 0x00, 0x01, 0x5A,
    ];
    let e = RIBEntryAddPath::parse(&mut &data[..]).unwrap();
    assert_eq!(e.peer_index, 1);
    assert_eq!(e.originated_time, 2);
    assert_eq!(e.path_identifier, 256);
    assert_eq!(e.attributes, vec![0x5A]);
}

#[test]
fn table_dump_ipv6() {
    let mut data = vec![0x00, 0x02, 0x00, 0x03];
    data.extend_from_slice(&[0x20, 0x01, 0x0d, 0xb8, 0, 0, 0, 0, 0, 0, 0, 0, 0, 0, 0, 0]);
    data.extend_from_slice(&[32, 0x01, 0x00, 0x00, 0x00, 0x10]);
    data.extend_from_slice(&[0xfe, 0x80, 0, 0, 0, 0, 0, 0, 0, 0, 0, 0, 0, 0, 0, 1]);
    data.extend_from_slice(&[0xFD, 0xE8, 0x00, 0x01, 0x42]);
    let td = TABLE_DUMP::parse(&header(12, 2), &mut &data[..]).unwrap();
    assert_eq!(td.view_number, 2);
    assert_eq!(td.sequence_number, 3);
    assert!(td.prefix.is_ipv6());
    assert_eq!(td.prefix_length, 32);
    assert_eq!(td.status, 1);
    assert_eq!(td.originated_time, 16);
    assert_eq!(td.peer_as, 65000);
    assert_eq!(td.attributes, vec![0x42]);
}

#[test]
fn table_dump_unknown_subtype_is_invalid_data() {
    let data: &[u8] = &[0u8; 40];
    let mut s = data;
    assert_eq!(TABLE_DUMP::parse(&header(12, 3), &mut s).unwrap_err(), MrtError::InvalidTableDumpSubtype);
    assert_eq!(s.len(), 40);
}

#[test]
fn table_dump_v2_unknown_subtype_is_invalid_data() {
    let data: &[u8] = &[0u8; 40];
    for sub_type in [0u16, 7, 13, 0xFFFF] {
        let mut s = data;
        assert_eq!(
            TABLE_DUMP_V2::parse(&header(13, sub_type), &mut s).unwrap_err(),
            MrtError::InvalidTableDumpV2Subtype
        );
        assert_eq!(s.len(), 40);
    }
}

fn generic_body(afi: u16, addpath: bool) -> Vec<u8> {
    let mut b = vec![0x00, 0x00, 0x00, 0x09];
    b.extend_from_slice(&afi.to_be_bytes());
    b.push(128); // safi
    b.extend_from_slice(&[0x00, 0x02, 0xC0, 0xA8]); // nlri
    b.extend_from_slice(&[0x00, 0x01]); // one entry
    b.extend_from_slice(&[0x00, 0x03, 0x00, 0x00, 0x00, 0x04]);
    if addpath {
        b.extend_from_slice(&[0x00, 0x00, 0x00, 0x05]);
    }
    b.extend_from_slice(&[0x00, 0x00]);
    b
}

#[test]
fn rib_generic_reads_afi_safi_and_nlri() {
    let body = generic_body(2, false);
    let r = RIB_GENERIC::parse(&mut &body[..]).unwrap();
    assert_eq!(r.sequence_number, 9);
    assert_eq!(r.afi, AFI::IPV6);
    assert_eq!(r.safi, 128);
    assert_eq!(r.nlri, vec![0xC0, 0xA8]);
    assert_eq!(r.entries.len(), 1);
    assert_eq!(r.entries[0].peer_index, 3);
    assert_eq!(r.entries[0].originated_time, 4);

    let body = generic_body(1, true);
    match TABLE_DUMP_V2::parse(&header(13, 12), &mut &body[..]).unwrap() {
        TABLE_DUMP_V2::RIB_GENERIC_ADDPATH(r) => {
            assert_eq!(r.afi, AFI::IPV4);
            assert_eq!(r.entries[0].path_identifier, 5);
        }
        _ => panic!("Expected RIB_GENERIC_ADDPATH"),
    }
    assert!(RIB_GENERIC_ADDPATH::parse(&mut &body[..]).is_ok());
}

#[test]
fn rib_generic_unknown_afi_is_invalid() {
    let body = generic_body(3, false);
    assert_eq!(RIB_GENERIC::parse(&mut &body[..]).unwrap_err(), MrtError::InvalidAfi);
}

#[test]
fn peer_type_bits_choose_address_and_as_sizes() {
    // IPv6 address, 16-bit AS
    let mut data = vec![0x01, 0, 0, 0, 1];
    data.extend_from_slice(&[0u8; 16]);
    data.extend_from_slice(&[0xFF, 0xFF]);
    let p = PeerEntry::parse(&mut &data[..]).unwrap();
    assert!(p.peer_ip_address.is_ipv6());
    assert_eq!(p.peer_as, 65535);
    // IPv4 address, 32-bit AS
    let data: &[u8] = &[0x02, 0, 0, 0, 1, 10, 0, 0, 2, 0x00, 0x02, 0x00, 0x01];
    let p = PeerEntry::parse(&mut &data[..]).unwrap();
    assert_eq!(p.peer_ip_address, IpAddr::V4([10, 0, 0, 2]));
    assert_eq!(p.peer_as, 0x00020001);
    assert_eq!(p.peer_bgp_id, 1);
}

#[test]
fn peer_index_table_view_name_replaces_invalid_utf8() {
    let data: &[u8] = &[0, 0, 0, 1, 0x00, 0x03, b'a', 0xFF, b'b', 0x00, 0x00];
    let t = PEER_INDEX_TABLE::parse(&mut &data[..]).unwrap();
    assert_eq!(t.view_name, "a\u{FFFD}b");
    assert_eq!(t.peer_entries.len(), 0);
}

#[test]
fn peer_index_table_truncated_peer_is_eof() {
    let data: &[u8] = &[0, 0, 0, 1, 0x00, 0x00, 0x00, 0x02, 0x00, 0, 0, 0, 1, 1, 2, 3, 4, 0, 1];
    assert_eq!(PEER_INDEX_TABLE::parse(&mut &data[..]).unwrap_err(), MrtError::UnexpectedEof);
}

fn addpath_body() -> Vec<u8> {
    vec![
        0x00, 0x00, 0x00, 0x02, 16, 10, 0, 0x00, 0x02, // head, two entries
        0x00, 0x07, 0x00, 0x00, 0x00, 0x01, 0x00, 0x00, 0x00, 0x2A, 0x00, 0x01, 0xEE,
        0x00, 0x08, 0x00, 0x00, 0x00, 0x02, 0x00, 0x00, 0x00, 0x2B, 0x00, 0x00,
    ]
}

#[test]
fn rib_ref_agrees_with_owned_addpath() {
    let body = addpath_body();
    let owned = RIB_AFI_ADDPATH::parse(&AFI::IPV4, &mut &body[..]).unwrap();
    let rib = RibRef::parse(AFI::IPV4, false, true, &body).unwrap();
    assert_eq!(rib.sequence_number, owned.sequence_number);
    assert_eq!(rib.prefix, &owned.prefix[..]);
    let mut iter = rib.entries();
    for o in &owned.entries {
        let r = iter.next().unwrap().unwrap();
        assert_eq!(r.peer_index, o.peer_index);
        assert_eq!(r.path_id, Some(o.path_identifier));
        assert_eq!(r.attributes, &o.attributes[..]);
    }
    assert!(iter.next().is_none());
}

#[test]
fn rib_ref_truncated_attributes_then_exhausted() {
    let mut body = addpath_body();
    body.truncate(body.len() - 12); // second entry cut inside its fixed part
    let owned = RIB_AFI_ADDPATH::parse(&AFI::IPV4, &mut &body[..]);
    assert_eq!(owned.unwrap_err(), MrtError::UnexpectedEof);
    let rib = RibRef::parse(AFI::IPV4, false, true, &body).unwrap();
    let mut iter = rib.entries();
    assert_eq!(iter.size_hint(), (0, Some(2)));
    assert!(iter.next().unwrap().is_ok());
    assert_eq!(iter.next().unwrap().unwrap_err(), MrtError::TruncatedRibEntry);
    assert_eq!(iter.size_hint(), (0, Some(0)));
    assert!(iter.next().is_none());

    let body: &[u8] = &[0, 0, 0, 1, 8, 10, 0x00, 0x01, 0x00, 0x01, 0, 0, 0, 0, 0x00, 0x05, 1, 2];
    let rib = RibRef::parse(AFI::IPV4, false, false, body).unwrap();
    let mut iter = rib.entries();
    assert_eq!(iter.next().unwrap().unwrap_err(), MrtError::TruncatedRibEntryAttributes);
    assert!(iter.next().is_none());
}

#[test]
fn rib_ref_truncated_fixed_part() {
    let body: &[u8] = &[0, 0, 0, 1, 24, 192, 168, 1, 0x00];
    assert_eq!(RibRef::parse(AFI::IPV4, false, false, body).unwrap_err(), MrtError::TruncatedRibRecord);
    assert_eq!(RibRef::parse(AFI::IPV4, false, false, &body[..3]).unwrap_err(), MrtError::TruncatedRibRecord);
    assert_eq!(RIB_AFI::parse(&AFI::IPV4, &mut &body[..]).unwrap_err(), MrtError::UnexpectedEof);
}

#[test]
fn rib_ref_keeps_flags_and_unvalidated_entries() {
    let body: &[u8] = &[0, 0, 0, 1, 0, 0xFF, 0xFF, 0xAB];
    let rib = RibRef::parse(AFI::IPV6, true, false, body).unwrap();
    assert_eq!(rib.afi, AFI::IPV6);
    assert!(rib.multicast);
    assert!(!rib.addpath);
    assert_eq!(rib.prefix.len(), 0);
    assert_eq!(rib.entry_count, 0xFFFF);
    assert_eq!(rib.entries_data, &[0xAB]);
}

#[test]
fn failed_decoders_leave_the_input_alone() {
    // RIB_AFI: fixed part fits, second entry does not
    let body = addpath_body();
    let short = &body[..body.len() - 3];
    let mut s = short;
    assert!(RIB_AFI_ADDPATH::parse(&AFI::IPV4, &mut s).is_err());
    assert_eq!(s, short);
    // PEER_INDEX_TABLE: truncated inside the second peer
    let data: &[u8] = &[0, 0, 0, 1, 0x00, 0x00, 0x00, 0x02, 0x00, 0, 0, 0, 1, 1, 2, 3, 4, 0, 1];
    let mut s = data;
    assert!(PEER_INDEX_TABLE::parse(&mut s).is_err());
    assert_eq!(s, data);
    // RIB_GENERIC: an undefined AFI after the sequence number was read
    let body = generic_body(3, false);
    let mut s = &body[..];
    assert_eq!(RIB_GENERIC::parse(&mut s).unwrap_err(), MrtError::InvalidAfi);
    assert_eq!(s, &body[..]);
    // read_afi puts back the code it refused
    let mut s: &[u8] = &[0x00, 0x07, 0x01];
    assert_eq!(read_afi(&mut s), Err(MrtError::InvalidAfi));
    assert_eq!(s.len(), 3);
}

#[test]
fn table_dump_v2_undefined_subtype_reads_nothing() {
    let data: &[u8] = &[0, 0, 0, 2, 16, 10, 0, 0, 0];
    let h = Header { timestamp: 1000, extended: 0, record_type: 13, sub_type: 7, length: 9 };
    let mut s = data;
    assert_eq!(TABLE_DUMP_V2::parse(&h, &mut s).unwrap_err(), MrtError::InvalidTableDumpV2Subtype);
    assert_eq!(s.len(), 9);
}

#[test]
fn table_dump_v2_depends_on_the_subtype_alone() {
    let data: &[u8] = &[0, 0, 0, 1, 24, 192, 168, 1, 0, 1, 0, 0, 0, 0, 0, 0, 0, 0, 0xEE];
    let h1 = Header { timestamp: 1, extended: 0, record_type: 13, sub_type: 2, length: 3 };
    let h2 = Header { timestamp: 99, extended: 5, record_type: 0, sub_type: 2, length: 1000 };
    let (mut s1, mut s2) = (data, data);
    let r1 = TABLE_DUMP_V2::parse(&h1, &mut s1).unwrap();
    let r2 = TABLE_DUMP_V2::parse(&h2, &mut s2).unwrap();
    assert_eq!(s1, &[0xEE]);
    assert_eq!(s1, s2);
    match (r1, r2) {
        (TABLE_DUMP_V2::RIB_IPV4_UNICAST(a), TABLE_DUMP_V2::RIB_IPV4_UNICAST(b)) => {
            assert_eq!(a.prefix, b.prefix);
            assert_eq!(a.entries.len(), b.entries.len());
        }
        _ => panic!("Expected RIB_IPV4_UNICAST"),
    }
    let mut s3 = data;
    let r3 = RIB_AFI::parse(&AFI::IPV6, &mut s3).unwrap();
    assert_eq!(s3, s1);
    assert_eq!(r3.prefix, vec![192, 168, 1]);
}
