use mrt_ingester::address::{IpAddr, AFI};
use mrt_ingester::records::tabledump::{
    PeerEntry, RibEntryRef, RibRef, RIB_AFI, TABLE_DUMP, TABLE_DUMP_V2,
};
use mrt_ingester::Header;

fn collect_entries<'a>(rib: &RibRef<'a>) -> Vec<RibEntryRef<'a>> {
    let mut iter = rib.entries();
    let mut out = Vec::new();
    while let Some(e) = iter.next() {
        out.push(e.unwrap());
    }
    out
}

#[test]
fn test_parse_table_dump_ipv4() {
    let header = Header {
        timestamp: 1000,
        extended: 0,
        record_type: 12,
        sub_type: 1, // AFI_IPv4
        length: 22,  // 2+2+4+1+1+4+4+2+2+0 = 22
    };
    let data: &[u8] = &[
        0x00, 0x00, // view_number = 0
        0x00, 0x01, // sequence_number = 1
        192, 168, 0, 0, // prefix
        0x18, // prefix_length = 24
        0x01, // status
        0x5F, 0x5E, 0x10, 0x00, // originated_time
        10, 0, 0, 1, // peer_address
        0x00, 0x64, // peer_as = 100
        0x00, 0x00, // attr_len = 0
    ];
    let result = TABLE_DUMP::parse(&header, &mut data.as_ref()).unwrap();
    assert_eq!(result.view_number, 0);
    assert_eq!(result.sequence_number, 1);
    assert_eq!(result.prefix, IpAddr::V4([192, 168, 0, 0]));
    assert_eq!(result.prefix_length, 24);
    assert_eq!(result.peer_address, IpAddr::V4([10, 0, 0, 1]));
    assert_eq!(result.peer_as, 100);
}

#[test]
fn test_rib_ref_matches_owned_parse() {
    // RIB_IPV4_UNICAST body: sequence=1, /24 prefix 192.168.1, 2 entries
    let body: &[u8] = &[
        0x00, 0x00, 0x00, 0x01, // sequence_number = 1
        24, // prefix_length = 24
        192, 168, 1, // prefix
        0x00, 0x02, // entry_count = 2
        // entry 0
        0x00, 0x05, // peer_index = 5
        0x5F, 0x5E, 0x10, 0x00, // originated_time
        0x00, 0x03, // attr_len = 3
        0xAA, 0xBB, 0xCC, // attributes
        // entry 1
        0x00, 0x06, // peer_index = 6
        0x5F, 0x5E, 0x10, 0x01, // originated_time
        0x00, 0x00, // attr_len = 0
    ];

    let owned = RIB_AFI::parse(&AFI::IPV4, &mut &body[..]).unwrap();
    let rib = RibRef::parse(AFI::IPV4, false, false, body).unwrap();

    assert_eq!(rib.sequence_number, owned.sequence_number);
    assert_eq!(rib.prefix_length, owned.prefix_length);
    assert_eq!(rib.prefix, &owned.prefix[..]);
    assert_eq!(rib.entry_count as usize, owned.entries.len());

    let entries = collect_entries(&rib);
    assert_eq!(entries.len(), owned.entries.len());
    for (r, o) in entries.iter().zip(&owned.entries) {
        assert_eq!(r.peer_index, o.peer_index);
        assert_eq!(r.originated_time, o.originated_time);
        assert_eq!(r.attributes, &o.attributes[..]);
        assert_eq!(r.path_id, None);
    }
}

#[test]
fn test_rib_ref_addpath() {
    let body: &[u8] = &[
        0x00, 0x00, 0x00, 0x02, // sequence_number = 2
        16, // prefix_length = 16
        10, 0, // prefix
        0x00, 0x01, // entry_count = 1
        0x00, 0x07, // peer_index = 7
        0x5F, 0x5E, 0x10, 0x00, // originated_time
        0x00, 0x00, 0x00, 0x2A, // path_id = 42
        0x00, 0x02, // attr_len = 2
        0xDE, 0xAD, // attributes
    ];

    let rib = RibRef::parse(AFI::IPV4, false, true, body).unwrap();
    let entries = collect_entries(&rib);
    assert_eq!(entries.len(), 1);
    assert_eq!(entries[0].peer_index, 7);
    assert_eq!(entries[0].path_id, Some(42));
    assert_eq!(entries[0].attributes, &[0xDE, 0xAD]);
}

#[test]
fn test_rib_ref_truncated_entry() {
    let body: &[u8] = &[
        0x00, 0x00, 0x00, 0x01, // sequence_number
        24, // prefix_length
        192, 168, 1, // prefix
        0x00, 0x01, // entry_count = 1
        0x00, 0x05, // peer_index (entry truncated after this)
    ];
    let rib = RibRef::parse(AFI::IPV4, false, false, body).unwrap();
    let mut iter = rib.entries();
    assert!(iter.next().unwrap().is_err());
    assert!(iter.next().is_none());
}

#[test]
fn test_parse_peer_index_table() {
    let header = Header {
        timestamp: 1000,
        extended: 0,
        record_type: 13,
        sub_type: 1, // PEER_INDEX_TABLE
        length: 100,
    };
    let data: &[u8] = &[
        0x0A, 0x00, 0x00, 0x01, // collector_id
        0x00, 0x04, // view_name_length = 4
        b't', b'e', b's', b't', // view_name = "test"
        0x00, 0x01, // peer_count = 1
        // Peer entry:
        0x00, // peer_type = 0 (IPv4, 16-bit AS)
        0x0A, 0x00, 0x00, 0x01, // peer_bgp_id
        192, 168, 1, 1, // peer_ip_address (IPv4)
        0x00, 0x64, // peer_as = 100 (16-bit)
    ];
    let result = TABLE_DUMP_V2::parse(&header, &mut data.as_ref()).unwrap();
    match result {
        TABLE_DUMP_V2::PEER_INDEX_TABLE(pit) => {
            assert_eq!(pit.collector_id, 0x0A000001);
            assert_eq!(pit.view_name, "test");
            assert_eq!(pit.peer_entries.len(), 1);
            assert_eq!(pit.peer_entries[0].peer_as, 100);
            assert_eq!(
                pit.peer_entries[0].peer_ip_address,
                IpAddr::V4([192, 168, 1, 1])
            );
        }
        _ => panic!("Expected PEER_INDEX_TABLE"),
    }
}

#[test]
fn test_parse_rib_ipv4_unicast() {
    let header = Header {
        timestamp: 1000,
        extended: 0,
        record_type: 13,
        sub_type: 2, // RIB_IPV4_UNICAST
        length: 100,
    };
    let data: &[u8] = &[
        0x00, 0x00, 0x00, 0x01, // sequence_number = 1
        0x18, // prefix_length = 24
        192, 168, 1, // prefix (3 bytes for /24)
        0x00, 0x01, // entry_count = 1
        // RIB entry:
        0x00, 0x00, // peer_index = 0
        0x5F, 0x5E, 0x10, 0x00, // originated_time
        0x00, 0x00, // attr_len = 0
    ];
    let result = TABLE_DUMP_V2::parse(&header, &mut data.as_ref()).unwrap();
    match result {
        TABLE_DUMP_V2::RIB_IPV4_UNICAST(rib) => {
            assert_eq!(rib.sequence_number, 1);
            assert_eq!(rib.prefix_length, 24);
            assert_eq!(rib.prefix, vec![192, 168, 1]);
            assert_eq!(rib.entries.len(), 1);
            assert_eq!(rib.entries[0].peer_index, 0);
        }
        _ => panic!("Expected RIB_IPV4_UNICAST"),
    }
}

#[test]
fn test_peer_type_flags() {
    // Test IPv6 + 32-bit AS
    // RFC 6396: bit 0 = IPv6 (1), bit 1 = AS4 (1) -> 0b11 = 0x03
    let data: &[u8] = &[
        0x03, // peer_type = 0b11 (bit0=IPv6, bit1=AS4)
        0x0A, 0x00, 0x00, 0x01, // peer_bgp_id
        // IPv6 address: 2001:db8::1
        0x20, 0x01, 0x0d, 0xb8, 0, 0, 0, 0, 0, 0, 0, 0, 0, 0, 0, 1,
        0x00, 0x01, 0x00, 0x00, // peer_as = 65536 (32-bit)
    ];
    let result = PeerEntry::parse(&mut data.as_ref()).unwrap();
    assert!(result.peer_ip_address.is_ipv6());
    assert_eq!(result.peer_as, 65536);
}
