//! What the record decoders read, stated byte by byte over their inputs and
//! results: which input bytes each field holds, in which order, and on which
//! inputs decoding succeeds.
use vstd::prelude::*;
use crate::address::{IpAddr, IpView};
use crate::bytes::{decodes, res_view, lemma_skip_skip};
use crate::text::utf8_lossy;
use crate::error::MrtError;
use super::{
    EntryModel, RIBEntry, RIBEntryAddPath, RibEntryRef, eof_or, iter_step,
    spec_entry, spec_entries, PeerEntry, PEER_INDEX_TABLE, spec_peer_entry, spec_peer_entries,
    spec_peer_index_table, RibRef, RIB_AFI, RIB_AFI_ADDPATH, spec_rib_head, spec_rib_afi,
    TABLE_DUMP, spec_table_dump, RIB_GENERIC, RIB_GENERIC_ADDPATH, spec_rib_generic, TABLE_DUMP_V2,
    spec_table_dump_v2, iter_items, spec_rib_generic_head,
};
use crate::address::{AFI, spec_prefix_bytes};

verus! {

/// The RIB entry decoder reads, from the front of `s`: the peer index from
/// bytes 0..2, the originated time from bytes 2..6 (all four, big-endian),
/// with ADD-PATH the path identifier from bytes 6..10, then a big-endian
/// attribute length and that many attribute bytes. It succeeds exactly when
/// `s` holds all of them, and leaves what follows.
pub proof fn law_entry_layout(s: Seq<u8>, addpath: bool)
    ensures
        ({
            let f: int = if addpath { 12 } else { 8 };
            let alen: int = s[f - 2] * 256 + s[f - 1];
            &&& spec_entry(s, addpath) is Some <==> (f <= s.len() && f + alen <= s.len())
            &&& spec_entry(s, addpath) matches Some((e, rest)) ==> {
                &&& e.peer_index == s[0] * 256 + s[1]
                &&& e.originated_time == s[2] * 16777216 + s[3] * 65536 + s[4] * 256 + s[5]
                &&& e.path_id == if addpath {
                    Some((s[6] * 16777216 + s[7] * 65536 + s[8] * 256 + s[9]) as u32)
                } else {
                    None
                }
                &&& e.attributes == s.subrange(f, f + alen)
                &&& rest == s.skip(f + alen)
            }
        }),
{
    let f: int = if addpath { 12 } else { 8 };
    if f <= s.len() {
        let alen: int = s[f - 2] * 256 + s[f - 1];
        if f + alen <= s.len() {
            let (e, rest) = spec_entry(s, addpath).unwrap();
            assert(e.attributes =~= s.subrange(f, f + alen));
            assert(rest =~= s.skip(f + alen));
            assert(e.originated_time == s[2] * 16777216 + s[3] * 65536 + s[4] * 256 + s[5]);
        }
    }
}

/// `RIBEntry::parse` on `s`: the fields of the entry it returns are the
/// bytes that [`law_entry_layout`] names, without a path identifier, and it
/// fails with an unexpected end of input, leaving `s`, exactly when `s` is
/// too short.
pub proof fn law_rib_entry_parse(s: Seq<u8>, r: Result<RIBEntry, MrtError>, new: Seq<u8>)
    requires
        decodes(res_view(r), s, new, eof_or(spec_entry(s, false))),
    ensures
        ({
            let alen: int = s[6] * 256 + s[7];
            &&& r is Ok <==> (8 <= s.len() && 8 + alen <= s.len())
            &&& r matches Ok(e) ==> {
                &&& e.peer_index == s[0] * 256 + s[1]
                &&& e.originated_time == s[2] * 16777216 + s[3] * 65536 + s[4] * 256 + s[5]
                &&& e.attributes@ == s.subrange(8, 8 + alen)
                &&& new == s.skip(8 + alen)
            }
            &&& r is Err ==> r == Err::<RIBEntry, MrtError>(MrtError::UnexpectedEof) && new == s
        }),
{
    law_entry_layout(s, false);
}

/// `RIBEntryAddPath::parse` on `s`: as [`law_rib_entry_parse`], with the
/// path identifier from bytes 6..10 and the attribute length from 10..12.
pub proof fn law_rib_entry_addpath_parse(s: Seq<u8>, r: Result<RIBEntryAddPath, MrtError>, new: Seq<u8>)
    requires
        decodes(res_view(r), s, new, eof_or(spec_entry(s, true))),
    ensures
        ({
            let alen: int = s[10] * 256 + s[11];
            &&& r is Ok <==> (12 <= s.len() && 12 + alen <= s.len())
            &&& r matches Ok(e) ==> {
                &&& e.peer_index == s[0] * 256 + s[1]
                &&& e.originated_time == s[2] * 16777216 + s[3] * 65536 + s[4] * 256 + s[5]
                &&& e.path_identifier == s[6] * 16777216 + s[7] * 65536 + s[8] * 256 + s[9]
                &&& e.attributes@ == s.subrange(12, 12 + alen)
                &&& new == s.skip(12 + alen)
            }
            &&& r is Err ==> r == Err::<RIBEntryAddPath, MrtError>(MrtError::UnexpectedEof) && new == s
        }),
{
    law_entry_layout(s, true);
}

/// One step of the lazy entry iterator on `data`: it reports a truncated
/// entry exactly when `data` is shorter than the fixed part, truncated
/// attributes exactly when the fixed part fits but the attributes do not,
/// and otherwise yields the entry whose fields are the bytes that
/// [`law_entry_layout`] names.
pub proof fn law_iter_step_layout(data: Seq<u8>, addpath: bool, x: RibEntryRef, rest: Seq<u8>)
    ensures
        ({
            let f: int = if addpath { 12 } else { 8 };
            let alen: int = data[f - 2] * 256 + data[f - 1];
            &&& (iter_step(data, addpath) == Err::<(EntryModel, Seq<u8>), MrtError>(MrtError::TruncatedRibEntry)) <==> data.len() < f
            &&& (iter_step(data, addpath) == Err::<(EntryModel, Seq<u8>), MrtError>(MrtError::TruncatedRibEntryAttributes))
                <==> (f <= data.len() && data.len() < f + alen)
            &&& iter_step(data, addpath) == Ok::<(EntryModel, Seq<u8>), MrtError>((x@, rest)) ==> {
                &&& x.peer_index == data[0] * 256 + data[1]
                &&& x.originated_time == data[2] * 16777216 + data[3] * 65536 + data[4] * 256 + data[5]
                &&& x.path_id == if addpath {
                    Some((data[6] * 16777216 + data[7] * 65536 + data[8] * 256 + data[9]) as u32)
                } else {
                    None
                }
                &&& x.attributes@ == data.subrange(f, f + alen)
                &&& rest == data.skip(f + alen)
            }
        }),
{
    law_entry_layout(data, addpath);
}

/// The `n` RIB entries decoded from `s` come in wire order: the `i`-th is
/// the entry that starts where the first `i` entries end; and the `n`
/// entries decode exactly when each of them does.
pub proof fn law_entries_in_wire_order(s: Seq<u8>, n: nat, addpath: bool)
    ensures
        spec_entries(s, n, addpath) is Some <==> forall|i: int| 0 <= i < n ==> {
            &&& #[trigger] spec_entries(s, i as nat, addpath) matches Some((_, ri))
            &&& spec_entry(ri, addpath) is Some
        },
        spec_entries(s, n, addpath) matches Some((es, _)) ==> {
            &&& es.len() == n
            &&& forall|i: int| 0 <= i < n ==> {
                &&& spec_entries(s, i as nat, addpath) matches Some((_, ri))
                &&& spec_entry(ri, addpath) matches Some((e, _))
                &&& #[trigger] es[i] == e
            }
        },
    decreases n,
{
    if n > 0 {
        if spec_entry(s, addpath) is None {
            let i0: int = 0;
            assert(spec_entries(s, i0 as nat, addpath) == Some((Seq::<EntryModel>::empty(), s)));
        }
        if let Some((e0, r1)) = spec_entry(s, addpath) {
            law_entries_in_wire_order(r1, (n - 1) as nat, addpath);
            assert forall|i: int| 1 <= i < n implies #[trigger] spec_entries(s, i as nat, addpath) == (match spec_entries(r1, (i - 1) as nat, addpath) {
                Some((es, r)) => Some((seq![e0] + es, r)),
                None => None,
            }) by {}
            if forall|j: int| 0 <= j < n - 1 ==> {
                &&& #[trigger] spec_entries(r1, j as nat, addpath) matches Some((_, rj))
                &&& spec_entry(rj, addpath) is Some
            } {
                assert forall|i: int| 0 <= i < n implies {
                    &&& #[trigger] spec_entries(s, i as nat, addpath) matches Some((_, ri))
                    &&& spec_entry(ri, addpath) is Some
                } by {
                    if i > 0 {
                        assert(spec_entries(r1, (i - 1) as nat, addpath) is Some);
                    }
                }
            } else {
                let j = choose|j: int| 0 <= j < n - 1 && !({
                    &&& #[trigger] spec_entries(r1, j as nat, addpath) matches Some((_, rj))
                    &&& spec_entry(rj, addpath) is Some
                });
                assert(spec_entries(s, (j + 1) as nat, addpath) == (match spec_entries(r1, j as nat, addpath) {
                    Some((es, r)) => Some((seq![e0] + es, r)),
                    None => None,
                }));
            }
            if let Some((es, _)) = spec_entries(s, n, addpath) {
                let tail = spec_entries(r1, (n - 1) as nat, addpath).unwrap().0;
                assert forall|i: int| 0 <= i < n implies {
                    &&& spec_entries(s, i as nat, addpath) matches Some((_, ri))
                    &&& spec_entry(ri, addpath) matches Some((e, _))
                    &&& #[trigger] es[i] == e
                } by {
                    if i > 0 {
                        assert(es[i] == tail[i - 1]);
                        assert(spec_entries(r1, (i - 1) as nat, addpath) is Some);
                    }
                }
            }
        }
    }
}

/// The peer entry decoder reads, from the front of `s`: the peer type from
/// byte 0, the BGP identifier from bytes 1..5 (big-endian), then an address
/// of 16 bytes in input order where bit 0 of the type is set and of 4 bytes
/// otherwise, then the AS number from the next 4 bytes where bit 1 of the
/// type is set and from the next 2 otherwise. It succeeds exactly when `s`
/// holds all of them, failing with an unexpected end of input otherwise, and
/// leaves what follows.
pub proof fn law_peer_entry_layout(s: Seq<u8>)
    ensures
        ({
            let a: int = if s[0] % 2 == 1 { 16 } else { 4 };
            let n: int = if (s[0] / 2) % 2 == 1 { 4 } else { 2 };
            &&& spec_peer_entry(s) is Ok <==> (1 <= s.len() && 5 + a + n <= s.len())
            &&& spec_peer_entry(s) is Err ==> spec_peer_entry(s) == Err::<(super::PeerEntryModel, Seq<u8>), MrtError>(MrtError::UnexpectedEof)
            &&& spec_peer_entry(s) matches Ok((p, rest)) ==> {
                &&& p.peer_type == s[0]
                &&& p.peer_bgp_id == s[1] * 16777216 + s[2] * 65536 + s[3] * 256 + s[4]
                &&& p.peer_ip_address == if s[0] % 2 == 1 {
                    IpView::V6(s.subrange(5, 21))
                } else {
                    IpView::V4(s.subrange(5, 9))
                }
                &&& p.peer_as == if (s[0] / 2) % 2 == 1 {
                    s[5 + a] * 16777216 + s[6 + a] * 65536 + s[7 + a] * 256 + s[8 + a]
                } else {
                    s[5 + a] * 256 + s[6 + a]
                }
                &&& rest == s.skip(5 + a + n)
            }
        }),
{
    if s.len() >= 1 {
        let a: int = if s[0] % 2 == 1 { 16 } else { 4 };
        let n: int = if (s[0] / 2) % 2 == 1 { 4 } else { 2 };
        if s.len() >= 5 {
            lemma_skip_skip(s, 1, 4);
            if s.len() >= 5 + a {
                lemma_skip_skip(s, 5, a);
                assert(s.skip(5).take(a) =~= s.subrange(5, 5 + a));
                if s.len() >= 5 + a + n {
                    lemma_skip_skip(s, 5 + a, n);
                }
            }
        }
    }
}

/// `PeerEntry::parse` on `s`: the entry it returns holds the bytes that
/// [`law_peer_entry_layout`] names; in particular an IPv6 peer's address is
/// input bytes 5..21 in order, an IPv4 peer's bytes 5..9.
pub proof fn law_peer_entry_parse(s: Seq<u8>, r: Result<PeerEntry, MrtError>, new: Seq<u8>)
    requires
        decodes(res_view(r), s, new, spec_peer_entry(s)),
    ensures
        ({
            let a: int = if s[0] % 2 == 1 { 16 } else { 4 };
            let n: int = if (s[0] / 2) % 2 == 1 { 4 } else { 2 };
            &&& r is Ok <==> (1 <= s.len() && 5 + a + n <= s.len())
            &&& r is Err ==> r == Err::<PeerEntry, MrtError>(MrtError::UnexpectedEof) && new == s
            &&& r matches Ok(p) ==> {
                &&& p.peer_type == s[0]
                &&& p.peer_bgp_id == s[1] * 16777216 + s[2] * 65536 + s[3] * 256 + s[4]
                &&& (s[0] % 2 == 1 ==> (p.peer_ip_address matches IpAddr::V6(o) && o@ == s.subrange(5, 21)))
                &&& (s[0] % 2 == 0 ==> (p.peer_ip_address matches IpAddr::V4(o) && o@ == s.subrange(5, 9)))
                &&& p.peer_as == if (s[0] / 2) % 2 == 1 {
                    s[5 + a] * 16777216 + s[6 + a] * 65536 + s[7 + a] * 256 + s[8 + a]
                } else {
                    s[5 + a] * 256 + s[6 + a]
                }
                &&& new == s.skip(5 + a + n)
            }
        }),
{
    law_peer_entry_layout(s);
}

/// The `n` peer entries decoded from `s` come in wire order: the `i`-th is
/// the entry that starts where the first `i` entries end; and the `n`
/// entries decode exactly when each of them does.
pub proof fn law_peer_entries_in_wire_order(s: Seq<u8>, n: nat)
    ensures
        spec_peer_entries(s, n) is Ok <==> forall|i: int| 0 <= i < n ==> {
            &&& #[trigger] spec_peer_entries(s, i as nat) matches Ok((_, ri))
            &&& spec_peer_entry(ri) is Ok
        },
        spec_peer_entries(s, n) is Err ==> spec_peer_entries(s, n)
            == Err::<(Seq<super::PeerEntryModel>, Seq<u8>), MrtError>(MrtError::UnexpectedEof),
        spec_peer_entries(s, n) matches Ok((ps, _)) ==> {
            &&& ps.len() == n
            &&& forall|i: int| 0 <= i < n ==> {
                &&& spec_peer_entries(s, i as nat) matches Ok((_, ri))
                &&& spec_peer_entry(ri) matches Ok((p, _))
                &&& #[trigger] ps[i] == p
            }
        },
    decreases n,
{
    if n > 0 {
        if spec_peer_entry(s) is Err {
            let i0: int = 0;
            assert(spec_peer_entries(s, i0 as nat) == Ok::<(Seq<super::PeerEntryModel>, Seq<u8>), MrtError>((Seq::empty(), s)));
            law_peer_entry_layout(s);
        }
        if let Ok((p0, r1)) = spec_peer_entry(s) {
            law_peer_entries_in_wire_order(r1, (n - 1) as nat);
            assert forall|i: int| 1 <= i < n implies #[trigger] spec_peer_entries(s, i as nat) == (match spec_peer_entries(r1, (i - 1) as nat) {
                Ok((ps, r)) => Ok((seq![p0] + ps, r)),
                Err(e) => Err(e),
            }) by {}
            if forall|j: int| 0 <= j < n - 1 ==> {
                &&& #[trigger] spec_peer_entries(r1, j as nat) matches Ok((_, rj))
                &&& spec_peer_entry(rj) is Ok
            } {
                assert forall|i: int| 0 <= i < n implies {
                    &&& #[trigger] spec_peer_entries(s, i as nat) matches Ok((_, ri))
                    &&& spec_peer_entry(ri) is Ok
                } by {
                    if i > 0 {
                        assert(spec_peer_entries(r1, (i - 1) as nat) is Ok);
                    }
                }
            } else {
                let j = choose|j: int| 0 <= j < n - 1 && !({
                    &&& #[trigger] spec_peer_entries(r1, j as nat) matches Ok((_, rj))
                    &&& spec_peer_entry(rj) is Ok
                });
                assert(spec_peer_entries(s, (j + 1) as nat) == (match spec_peer_entries(r1, j as nat) {
                    Ok((ps, r)) => Ok((seq![p0] + ps, r)),
                    Err(e) => Err(e),
                }));
            }
            if let Ok((ps, _)) = spec_peer_entries(s, n) {
                let tail = spec_peer_entries(r1, (n - 1) as nat).unwrap().0;
                assert forall|i: int| 0 <= i < n implies {
                    &&& spec_peer_entries(s, i as nat) matches Ok((_, ri))
                    &&& spec_peer_entry(ri) matches Ok((p, _))
                    &&& #[trigger] ps[i] == p
                } by {
                    if i > 0 {
                        assert(ps[i] == tail[i - 1]);
                        assert(spec_peer_entries(r1, (i - 1) as nat) is Ok);
                    }
                }
            }
        }
    }
}

/// `PEER_INDEX_TABLE::parse` on `s`: the collector id is bytes 0..4; the
/// view name is the lossy UTF-8 reading of the `name_len` bytes after the
/// big-endian length at 4..6; then comes a big-endian peer count, and the
/// table holds that many peers, the `i`-th being the peer entry that starts
/// where the first `i` peers after the count end: a RIB entry's peer index
/// `i` names the `i`-th peer on the wire.
pub proof fn law_peer_index_table_parse(s: Seq<u8>, r: Result<PEER_INDEX_TABLE, MrtError>, new: Seq<u8>)
    requires
        decodes(res_view(r), s, new, spec_peer_index_table(s)),
    ensures
        r is Err ==> new == s && r == Err::<PEER_INDEX_TABLE, MrtError>(MrtError::UnexpectedEof),
        ({
            let name_len: int = s[4] * 256 + s[5];
            let count: int = s[6 + name_len] * 256 + s[7 + name_len];
            let peers = s.skip(8 + name_len);
            r is Ok <==> (6 <= s.len() && 8 + name_len <= s.len() && forall|i: int| 0 <= i < count ==> {
                &&& #[trigger] spec_peer_entries(peers, i as nat) matches Ok((_, ri))
                &&& spec_peer_entry(ri) is Ok
            })
        }),
        r matches Ok(t) ==> {
            let name_len: int = s[4] * 256 + s[5];
            let count: int = s[6 + name_len] * 256 + s[7 + name_len];
            let peers = s.skip(8 + name_len);
            &&& t.collector_id == s[0] * 16777216 + s[1] * 65536 + s[2] * 256 + s[3]
            &&& t.view_name@ == utf8_lossy(s.subrange(6, 6 + name_len))
            &&& t.peer_entries@.len() == count
            &&& forall|i: int| 0 <= i < count ==> {
                &&& spec_peer_entries(peers, i as nat) matches Ok((_, ri))
                &&& spec_peer_entry(ri) matches Ok((p, _))
                &&& (#[trigger] t.peer_entries@[i])@ == p
            }
        },
{
    if s.len() >= 4 { lemma_skip_skip(s, 4, 0); }
    if s.len() >= 6 {
        let name_len: int = s[4] * 256 + s[5];
        lemma_skip_skip(s, 4, 2);
        if s.len() >= 6 + name_len {
            lemma_skip_skip(s, 6, name_len);
            if s.len() >= 8 + name_len {
                lemma_skip_skip(s, 6 + name_len, 2);
                let count: int = s[6 + name_len] * 256 + s[7 + name_len];
                law_peer_entries_in_wire_order(s.skip(8 + name_len), count as nat);
            }
        }
    }
    if let Ok(t) = r {
        let name_len: int = s[4] * 256 + s[5];
        lemma_skip_skip(s, 4, 2);
        lemma_skip_skip(s, 6, name_len);
        assert(s.skip(6).take(name_len) =~= s.subrange(6, 6 + name_len));
        lemma_skip_skip(s, 6 + name_len, 2);
        let count: int = s[6 + name_len] * 256 + s[7 + name_len];
        let peers = s.skip(8 + name_len);
        law_peer_entries_in_wire_order(peers, count as nat);
        assert forall|i: int| 0 <= i < count implies {
            &&& spec_peer_entries(peers, i as nat) matches Ok((_, ri))
            &&& spec_peer_entry(ri) matches Ok((p, _))
            &&& (#[trigger] t.peer_entries@[i])@ == p
        } by {
            let ps = spec_peer_entries(peers, count as nat).unwrap().0;
            assert(ps[i] == super::models(t.peer_entries@)[i]);
        }
    }
}

/// The fixed part of an AFI-specific RIB record: the sequence number from
/// bytes 0..4, the prefix length from byte 4, the prefix in the next
/// `ceil(prefix_length / 8)` bytes in input order, and the entry count from
/// the two bytes after it. It decodes exactly when the body holds all of
/// them, for every prefix length, and leaves what follows.
pub proof fn law_rib_head_layout(s: Seq<u8>)
    ensures
        ({
            let n: int = (s[4] + 7) / 8;
            &&& spec_rib_head(s) is Some <==> (5 <= s.len() && 7 + n <= s.len())
            &&& spec_rib_head(s) matches Some((h, rest)) ==> {
                &&& h.sequence_number == s[0] * 16777216 + s[1] * 65536 + s[2] * 256 + s[3]
                &&& h.prefix_length == s[4]
                &&& h.prefix == s.subrange(5, 5 + n)
                &&& h.entry_count == s[5 + n] * 256 + s[6 + n]
                &&& rest == s.skip(7 + n)
            }
        }),
{
    if s.len() >= 5 {
        let n: int = (s[4] + 7) / 8;
        lemma_skip_skip(s, 4, 1);
        if s.len() >= 5 + n {
            lemma_skip_skip(s, 5, n);
            assert(s.skip(5).take(n) =~= s.subrange(5, 5 + n));
            if s.len() >= 7 + n {
                lemma_skip_skip(s, 5 + n, 2);
            }
        }
    }
}

/// `RibRef::parse` on `body`: it reads the fixed part that
/// [`law_rib_head_layout`] names, keeps the flags it is given, and keeps all
/// bytes after the fixed part as the entry data; it fails, with a truncated
/// record, exactly when the body is shorter than the fixed part.
pub proof fn law_rib_ref_parse(afi: AFI, multicast: bool, addpath: bool, body: Seq<u8>, r: Result<RibRef, MrtError>)
    requires
        match spec_rib_head(body) {
            None => r == Err::<RibRef, MrtError>(MrtError::TruncatedRibRecord),
            Some((h, rest)) => r matches Ok(rib) && rib.afi == afi && rib.multicast == multicast
                && rib.addpath == addpath && rib.sequence_number == h.sequence_number
                && rib.prefix_length == h.prefix_length && rib.prefix@ == h.prefix
                && rib.prefix@.len() == spec_prefix_bytes(rib.prefix_length)
                && rib.entry_count == h.entry_count && rib.entries_data@ == rest,
        },
    ensures
        ({
            let n: int = (body[4] + 7) / 8;
            &&& r is Ok <==> (5 <= body.len() && 7 + n <= body.len())
            &&& r is Err ==> r == Err::<RibRef, MrtError>(MrtError::TruncatedRibRecord)
            &&& r matches Ok(rib) ==> {
                &&& rib.afi == afi && rib.multicast == multicast && rib.addpath == addpath
                &&& rib.sequence_number == body[0] * 16777216 + body[1] * 65536 + body[2] * 256 + body[3]
                &&& rib.prefix_length == body[4]
                &&& rib.prefix@ == body.subrange(5, 5 + n)
                &&& rib.entry_count == body[5 + n] * 256 + body[6 + n]
                &&& rib.entries_data@ == body.skip(7 + n)
            }
        }),
{
    law_rib_head_layout(body);
}

/// An AFI-specific RIB record (owned): its fixed part as
/// [`law_rib_head_layout`] names it, then exactly `entry_count` entries in
/// wire order, the `i`-th starting where the first `i` after the fixed part
/// end.
pub proof fn law_rib_afi_layout(s: Seq<u8>, addpath: bool)
    ensures
        spec_rib_afi(s, addpath) matches Some((rib, _)) ==> {
            let n: int = (s[4] + 7) / 8;
            let entries = s.skip(7 + n);
            &&& rib.sequence_number == s[0] * 16777216 + s[1] * 65536 + s[2] * 256 + s[3]
            &&& rib.prefix_length == s[4]
            &&& rib.prefix == s.subrange(5, 5 + n)
            &&& rib.entries.len() == s[5 + n] * 256 + s[6 + n]
            &&& forall|i: int| 0 <= i < rib.entries.len() ==> {
                &&& spec_entries(entries, i as nat, addpath) matches Some((_, ri))
                &&& spec_entry(ri, addpath) matches Some((e, _))
                &&& #[trigger] rib.entries[i] == e
            }
        },
{
    law_rib_head_layout(s);
    if let Some((h, rest)) = spec_rib_head(s) {
        law_entries_in_wire_order(rest, h.entry_count as nat, addpath);
    }
}

/// `RIB_AFI::parse` on `s`: the record it returns is the one that
/// [`law_rib_afi_layout`] describes, entries in wire order; a failure leaves
/// `s`.
pub proof fn law_rib_afi_parse(afi: AFI, s: Seq<u8>, r: Result<RIB_AFI, MrtError>, new: Seq<u8>)
    requires
        decodes(res_view(r), s, new, eof_or(spec_rib_afi(s, false))),
    ensures
        r is Err ==> new == s && res_view(r) == Err::<super::RibAfiModel, MrtError>(MrtError::UnexpectedEof),
        ({
            let n: int = (s[4] + 7) / 8;
            let count: int = s[5 + n] * 256 + s[6 + n];
            let entries = s.skip(7 + n);
            r is Ok <==> (5 <= s.len() && 7 + n <= s.len() && forall|i: int| 0 <= i < count ==> {
                &&& #[trigger] spec_entries(entries, i as nat, false) matches Some((_, ri))
                &&& spec_entry(ri, false) is Some
            })
        }),
        r matches Ok(rib) ==> {
            let n: int = (s[4] + 7) / 8;
            let entries = s.skip(7 + n);
            &&& rib.sequence_number == s[0] * 16777216 + s[1] * 65536 + s[2] * 256 + s[3]
            &&& rib.prefix_length == s[4]
            &&& rib.prefix@ == s.subrange(5, 5 + n)
            &&& rib.entries@.len() == s[5 + n] * 256 + s[6 + n]
            &&& forall|i: int| 0 <= i < rib.entries@.len() ==> {
                &&& spec_entries(entries, i as nat, false) matches Some((_, ri))
                &&& spec_entry(ri, false) matches Some((e, _))
                &&& (#[trigger] rib.entries@[i])@ == e
            }
        },
{
    law_rib_afi_layout(s, false);
    law_rib_head_layout(s);
    if let Some((h, rest)) = spec_rib_head(s) {
        law_entries_in_wire_order(rest, h.entry_count as nat, false);
    }
    if let Ok(rib) = r {
        assert forall|i: int| 0 <= i < rib.entries@.len() implies #[trigger] (rib.entries@[i])@ == rib@.entries[i] by {}
    }
}

/// `RIB_AFI_ADDPATH::parse` on `s`: as [`law_rib_afi_parse`], with ADD-PATH
/// entries.
pub proof fn law_rib_afi_addpath_parse(afi: AFI, s: Seq<u8>, r: Result<RIB_AFI_ADDPATH, MrtError>, new: Seq<u8>)
    requires
        decodes(res_view(r), s, new, eof_or(spec_rib_afi(s, true))),
    ensures
        r is Err ==> new == s && res_view(r) == Err::<super::RibAfiModel, MrtError>(MrtError::UnexpectedEof),
        ({
            let n: int = (s[4] + 7) / 8;
            let count: int = s[5 + n] * 256 + s[6 + n];
            let entries = s.skip(7 + n);
            r is Ok <==> (5 <= s.len() && 7 + n <= s.len() && forall|i: int| 0 <= i < count ==> {
                &&& #[trigger] spec_entries(entries, i as nat, true) matches Some((_, ri))
                &&& spec_entry(ri, true) is Some
            })
        }),
        r matches Ok(rib) ==> {
            let n: int = (s[4] + 7) / 8;
            let entries = s.skip(7 + n);
            &&& rib.sequence_number == s[0] * 16777216 + s[1] * 65536 + s[2] * 256 + s[3]
            &&& rib.prefix_length == s[4]
            &&& rib.prefix@ == s.subrange(5, 5 + n)
            &&& rib.entries@.len() == s[5 + n] * 256 + s[6 + n]
            &&& forall|i: int| 0 <= i < rib.entries@.len() ==> {
                &&& spec_entries(entries, i as nat, true) matches Some((_, ri))
                &&& spec_entry(ri, true) matches Some((e, _))
                &&& (#[trigger] rib.entries@[i])@ == e
            }
        },
{
    law_rib_afi_layout(s, true);
    law_rib_head_layout(s);
    if let Some((h, rest)) = spec_rib_head(s) {
        law_entries_in_wire_order(rest, h.entry_count as nat, true);
    }
    if let Ok(rib) = r {
        assert forall|i: int| 0 <= i < rib.entries@.len() implies #[trigger] (rib.entries@[i])@ == rib@.entries[i] by {}
    }
}

/// A TABLE_DUMP record of subtype 1 (IPv4, `a` = 4) or 2 (IPv6, `a` = 16)
/// reads, in order: view number (bytes 0..2), sequence number (2..4), the
/// prefix address (the next `a` bytes in input order), prefix length,
/// status, originated time (4 bytes), the peer address (`a` bytes in input
/// order), peer AS (2 bytes), and a big-endian attribute length with that
/// many attribute bytes. It succeeds exactly when the input holds all of
/// them; any other subtype is refused.
pub proof fn law_table_dump_layout(sub_type: u16, s: Seq<u8>)
    ensures
        !(sub_type == 1 || sub_type == 2) ==> spec_table_dump(sub_type, s)
            == Err::<(super::TableDumpModel, Seq<u8>), MrtError>(MrtError::InvalidTableDumpSubtype),
        (sub_type == 1 || sub_type == 2) ==> {
            let a: int = if sub_type == 1 { 4 } else { 16 };
            let alen: int = s[12 + 2 * a] * 256 + s[13 + 2 * a];
            &&& spec_table_dump(sub_type, s) is Ok <==> (14 + 2 * a <= s.len() && 14 + 2 * a + alen <= s.len())
            &&& spec_table_dump(sub_type, s) is Err ==> spec_table_dump(sub_type, s)
                == Err::<(super::TableDumpModel, Seq<u8>), MrtError>(MrtError::UnexpectedEof)
            &&& spec_table_dump(sub_type, s) matches Ok((t, rest)) ==> {
                &&& t.view_number == s[0] * 256 + s[1]
                &&& t.sequence_number == s[2] * 256 + s[3]
                &&& t.prefix == if sub_type == 1 {
                    IpView::V4(s.subrange(4, 4 + a))
                } else {
                    IpView::V6(s.subrange(4, 4 + a))
                }
                &&& t.prefix_length == s[4 + a]
                &&& t.status == s[5 + a]
                &&& t.originated_time == s[6 + a] * 16777216 + s[7 + a] * 65536 + s[8 + a] * 256 + s[9 + a]
                &&& t.peer_address == if sub_type == 1 {
                    IpView::V4(s.subrange(10 + a, 10 + 2 * a))
                } else {
                    IpView::V6(s.subrange(10 + a, 10 + 2 * a))
                }
                &&& t.peer_as == s[10 + 2 * a] * 256 + s[11 + 2 * a]
                &&& t.attributes == s.subrange(14 + 2 * a, 14 + 2 * a + alen)
                &&& rest == s.skip(14 + 2 * a + alen)
            }
        },
{
    if sub_type == 1 || sub_type == 2 {
        let a: int = if sub_type == 1 { 4 } else { 16 };
        if s.len() >= 2 { lemma_skip_skip(s, 2, 0); }
        if s.len() >= 4 { lemma_skip_skip(s, 2, 2); }
        if s.len() >= 4 + a {
            lemma_skip_skip(s, 4, a);
            assert(s.skip(4).take(a) =~= s.subrange(4, 4 + a));
        }
        if s.len() >= 5 + a { lemma_skip_skip(s, 4 + a, 1); }
        if s.len() >= 6 + a { lemma_skip_skip(s, 5 + a, 1); }
        if s.len() >= 10 + a { lemma_skip_skip(s, 6 + a, 4); }
        if s.len() >= 10 + 2 * a {
            lemma_skip_skip(s, 10 + a, a);
            assert(s.skip(10 + a).take(a) =~= s.subrange(10 + a, 10 + 2 * a));
        }
        if s.len() >= 12 + 2 * a { lemma_skip_skip(s, 10 + 2 * a, 2); }
        if s.len() >= 14 + 2 * a {
            lemma_skip_skip(s, 12 + 2 * a, 2);
            let alen: int = s[12 + 2 * a] * 256 + s[13 + 2 * a];
            if s.len() >= 14 + 2 * a + alen {
                lemma_skip_skip(s, 14 + 2 * a, alen);
                assert(s.skip(14 + 2 * a).take(alen) =~= s.subrange(14 + 2 * a, 14 + 2 * a + alen));
            }
        }
    }
}

/// `TABLE_DUMP::parse` on `s` under a header of subtype `sub_type`: the
/// record it returns holds the bytes that [`law_table_dump_layout`] names;
/// in particular an IPv6 prefix is input bytes 4..20 in order, an IPv4
/// prefix bytes 4..8. A failure leaves `s`.
pub proof fn law_table_dump_parse(sub_type: u16, s: Seq<u8>, r: Result<TABLE_DUMP, MrtError>, new: Seq<u8>)
    requires
        decodes(res_view(r), s, new, spec_table_dump(sub_type, s)),
    ensures
        r is Err ==> new == s,
        !(sub_type == 1 || sub_type == 2) ==> r == Err::<TABLE_DUMP, MrtError>(MrtError::InvalidTableDumpSubtype),
        (sub_type == 1 || sub_type == 2) ==> {
            let a: int = if sub_type == 1 { 4 } else { 16 };
            let alen: int = s[12 + 2 * a] * 256 + s[13 + 2 * a];
            &&& r is Ok <==> (14 + 2 * a <= s.len() && 14 + 2 * a + alen <= s.len())
            &&& r is Err ==> r == Err::<TABLE_DUMP, MrtError>(MrtError::UnexpectedEof)
            &&& r matches Ok(t) ==> {
                &&& t.view_number == s[0] * 256 + s[1]
                &&& t.sequence_number == s[2] * 256 + s[3]
                &&& (sub_type == 1 ==> (t.prefix matches IpAddr::V4(o) && o@ == s.subrange(4, 8)))
                &&& (sub_type == 2 ==> (t.prefix matches IpAddr::V6(o) && o@ == s.subrange(4, 20)))
                &&& t.prefix_length == s[4 + a]
                &&& t.status == s[5 + a]
                &&& t.originated_time == s[6 + a] * 16777216 + s[7 + a] * 65536 + s[8 + a] * 256 + s[9 + a]
                &&& (sub_type == 1 ==> (t.peer_address matches IpAddr::V4(o) && o@ == s.subrange(14, 18)))
                &&& (sub_type == 2 ==> (t.peer_address matches IpAddr::V6(o) && o@ == s.subrange(26, 42)))
                &&& t.peer_as == s[10 + 2 * a] * 256 + s[11 + 2 * a]
                &&& t.attributes@ == s.subrange(14 + 2 * a, 14 + 2 * a + alen)
                &&& new == s.skip(14 + 2 * a + alen)
            }
        },
{
    law_table_dump_layout(sub_type, s);
}

/// A generic RIB record reads: the sequence number (bytes 0..4), an AFI
/// code (4..6: 1 is IPv4, 2 is IPv6, any other is refused), the SAFI (6),
/// a big-endian NLRI length (7..9) and that many NLRI bytes in input order,
/// a big-endian entry count and that many entries in wire order.
pub proof fn law_rib_generic_layout(s: Seq<u8>, addpath: bool)
    ensures
        ({
            let nl: int = s[7] * 256 + s[8];
            let code: int = 256 * s[4] + s[5];
            let count: int = s[9 + nl] * 256 + s[10 + nl];
            let entries = s.skip(11 + nl);
            spec_rib_generic(s, addpath) is Ok <==> (9 <= s.len() && 11 + nl <= s.len() && (code == 1 || code == 2)
                && forall|i: int| 0 <= i < count ==> {
                    &&& #[trigger] spec_entries(entries, i as nat, addpath) matches Some((_, ri))
                    &&& spec_entry(ri, addpath) is Some
                })
        }),
        (6 <= s.len() && (256 * s[4] + s[5] != 1 && 256 * s[4] + s[5] != 2)) ==> spec_rib_generic(s, addpath)
            == Err::<(super::RibGenericModel, Seq<u8>), MrtError>(MrtError::InvalidAfi),
        spec_rib_generic(s, addpath) is Err ==> (spec_rib_generic(s, addpath)
            == Err::<(super::RibGenericModel, Seq<u8>), MrtError>(MrtError::InvalidAfi)
            || spec_rib_generic(s, addpath) == Err::<(super::RibGenericModel, Seq<u8>), MrtError>(MrtError::UnexpectedEof)),
        spec_rib_generic(s, addpath) matches Ok((g, _)) ==> {
            let nl: int = s[7] * 256 + s[8];
            let entries = s.skip(11 + nl);
            &&& g.sequence_number == s[0] * 16777216 + s[1] * 65536 + s[2] * 256 + s[3]
            &&& g.afi == if 256 * s[4] + s[5] == 1 { AFI::IPV4 } else { AFI::IPV6 }
            &&& 256 * s[4] + s[5] == 1 || 256 * s[4] + s[5] == 2
            &&& g.safi == s[6]
            &&& g.nlri == s.subrange(9, 9 + nl)
            &&& g.entries.len() == s[9 + nl] * 256 + s[10 + nl]
            &&& forall|i: int| 0 <= i < g.entries.len() ==> {
                &&& spec_entries(entries, i as nat, addpath) matches Some((_, ri))
                &&& spec_entry(ri, addpath) matches Some((e, _))
                &&& #[trigger] g.entries[i] == e
            }
        },
{
    lemma_rib_generic_head_layout(s);
    if let Ok((h, rest)) = spec_rib_generic_head(s) {
        law_entries_in_wire_order(rest, h.entry_count as nat, addpath);
    }
}

/// The part of a generic RIB record before its entries, byte by byte.
proof fn lemma_rib_generic_head_layout(s: Seq<u8>)
    ensures
        ({
            let nl: int = s[7] * 256 + s[8];
            let code: int = 256 * s[4] + s[5];
            &&& spec_rib_generic_head(s) is Ok <==> (9 <= s.len() && 11 + nl <= s.len() && (code == 1 || code == 2))
            &&& (6 <= s.len() && code != 1 && code != 2) ==> spec_rib_generic_head(s)
                == Err::<(super::RibGenericHead, Seq<u8>), MrtError>(MrtError::InvalidAfi)
            &&& spec_rib_generic_head(s) is Err ==> (spec_rib_generic_head(s)
                == Err::<(super::RibGenericHead, Seq<u8>), MrtError>(MrtError::InvalidAfi)
                || spec_rib_generic_head(s) == Err::<(super::RibGenericHead, Seq<u8>), MrtError>(MrtError::UnexpectedEof))
            &&& spec_rib_generic_head(s) matches Ok((h, rest)) ==> {
                &&& h.sequence_number == s[0] * 16777216 + s[1] * 65536 + s[2] * 256 + s[3]
                &&& h.afi == if code == 1 { AFI::IPV4 } else { AFI::IPV6 }
                &&& h.safi == s[6]
                &&& h.nlri == s.subrange(9, 9 + nl)
                &&& h.entry_count == s[9 + nl] * 256 + s[10 + nl]
                &&& rest == s.skip(11 + nl)
            }
        }),
{
    if s.len() >= 4 { lemma_skip_skip(s, 4, 0); }
    if s.len() >= 6 { lemma_skip_skip(s, 4, 2); }
    if s.len() >= 7 { lemma_skip_skip(s, 6, 1); }
    if s.len() >= 9 {
        lemma_skip_skip(s, 7, 2);
        let nl: int = s[7] * 256 + s[8];
        if s.len() >= 9 + nl {
            lemma_skip_skip(s, 9, nl);
            assert(s.skip(9).take(nl) =~= s.subrange(9, 9 + nl));
            if s.len() >= 11 + nl {
                lemma_skip_skip(s, 9 + nl, 2);
            }
        }
    }
}

/// `RIB_GENERIC::parse` on `s`: the record [`law_rib_generic_layout`]
/// describes, entries in wire order; a failure leaves `s`.
pub proof fn law_rib_generic_parse(s: Seq<u8>, r: Result<RIB_GENERIC, MrtError>, new: Seq<u8>)
    requires
        decodes(res_view(r), s, new, spec_rib_generic(s, false)),
    ensures
        r is Err ==> new == s,
        ({
            let nl: int = s[7] * 256 + s[8];
            let code: int = 256 * s[4] + s[5];
            let count: int = s[9 + nl] * 256 + s[10 + nl];
            let entries = s.skip(11 + nl);
            r is Ok <==> (9 <= s.len() && 11 + nl <= s.len() && (code == 1 || code == 2)
                && forall|i: int| 0 <= i < count ==> {
                    &&& #[trigger] spec_entries(entries, i as nat, false) matches Some((_, ri))
                    &&& spec_entry(ri, false) is Some
                })
        }),
        (6 <= s.len() && (256 * s[4] + s[5] != 1 && 256 * s[4] + s[5] != 2)) ==> r == Err::<RIB_GENERIC, MrtError>(MrtError::InvalidAfi),
        r matches Ok(g) ==> {
            let nl: int = s[7] * 256 + s[8];
            let entries = s.skip(11 + nl);
            &&& g.sequence_number == s[0] * 16777216 + s[1] * 65536 + s[2] * 256 + s[3]
            &&& g.afi == if 256 * s[4] + s[5] == 1 { AFI::IPV4 } else { AFI::IPV6 }
            &&& g.safi == s[6]
            &&& g.nlri@ == s.subrange(9, 9 + nl)
            &&& g.entries@.len() == s[9 + nl] * 256 + s[10 + nl]
            &&& forall|i: int| 0 <= i < g.entries@.len() ==> {
                &&& spec_entries(entries, i as nat, false) matches Some((_, ri))
                &&& spec_entry(ri, false) matches Some((e, _))
                &&& (#[trigger] g.entries@[i])@ == e
            }
        },
{
    law_rib_generic_layout(s, false);
    if let Ok(g) = r {
        assert forall|i: int| 0 <= i < g.entries@.len() implies #[trigger] (g.entries@[i])@ == g@.entries[i] by {}
    }
}

/// `RIB_GENERIC_ADDPATH::parse` on `s`: as [`law_rib_generic_parse`], with
/// ADD-PATH entries.
pub proof fn law_rib_generic_addpath_parse(s: Seq<u8>, r: Result<RIB_GENERIC_ADDPATH, MrtError>, new: Seq<u8>)
    requires
        decodes(res_view(r), s, new, spec_rib_generic(s, true)),
    ensures
        r is Err ==> new == s,
        ({
            let nl: int = s[7] * 256 + s[8];
            let code: int = 256 * s[4] + s[5];
            let count: int = s[9 + nl] * 256 + s[10 + nl];
            let entries = s.skip(11 + nl);
            r is Ok <==> (9 <= s.len() && 11 + nl <= s.len() && (code == 1 || code == 2)
                && forall|i: int| 0 <= i < count ==> {
                    &&& #[trigger] spec_entries(entries, i as nat, true) matches Some((_, ri))
                    &&& spec_entry(ri, true) is Some
                })
        }),
        (6 <= s.len() && (256 * s[4] + s[5] != 1 && 256 * s[4] + s[5] != 2)) ==> r == Err::<RIB_GENERIC_ADDPATH, MrtError>(MrtError::InvalidAfi),
        r matches Ok(g) ==> {
            let nl: int = s[7] * 256 + s[8];
            let entries = s.skip(11 + nl);
            &&& g.sequence_number == s[0] * 16777216 + s[1] * 65536 + s[2] * 256 + s[3]
            &&& g.afi == if 256 * s[4] + s[5] == 1 { AFI::IPV4 } else { AFI::IPV6 }
            &&& g.safi == s[6]
            &&& g.nlri@ == s.subrange(9, 9 + nl)
            &&& g.entries@.len() == s[9 + nl] * 256 + s[10 + nl]
            &&& forall|i: int| 0 <= i < g.entries@.len() ==> {
                &&& spec_entries(entries, i as nat, true) matches Some((_, ri))
                &&& spec_entry(ri, true) matches Some((e, _))
                &&& (#[trigger] g.entries@[i])@ == e
            }
        },
{
    law_rib_generic_layout(s, true);
    if let Ok(g) = r {
        assert forall|i: int| 0 <= i < g.entries@.len() implies #[trigger] (g.entries@[i])@ == g@.entries[i] by {}
    }
}

/// `TABLE_DUMP_V2::parse` under subtype `t` returns the variant that `t`
/// names (1 the peer index table; 2 to 5 IPv4 unicast, IPv4 multicast,
/// IPv6 unicast, IPv6 multicast; 6 generic; 8 to 12 the same with
/// ADD-PATH), and refuses every other subtype without consuming input.
pub proof fn law_table_dump_v2_variant(t: u16, s: Seq<u8>, r: Result<TABLE_DUMP_V2, MrtError>, new: Seq<u8>)
    requires
        decodes(res_view(r), s, new, spec_table_dump_v2(t, s)),
    ensures
        r is Err ==> new == s,
        !(1 <= t <= 6 || 8 <= t <= 12) ==> r == Err::<TABLE_DUMP_V2, MrtError>(MrtError::InvalidTableDumpV2Subtype),
        r matches Ok(v) ==> {
            &&& (t == 1 <==> v is PEER_INDEX_TABLE)
            &&& (t == 2 <==> v is RIB_IPV4_UNICAST)
            &&& (t == 3 <==> v is RIB_IPV4_MULTICAST)
            &&& (t == 4 <==> v is RIB_IPV6_UNICAST)
            &&& (t == 5 <==> v is RIB_IPV6_MULTICAST)
            &&& (t == 6 <==> v is RIB_GENERIC)
            &&& (t == 8 <==> v is RIB_IPV4_UNICAST_ADDPATH)
            &&& (t == 9 <==> v is RIB_IPV4_MULTICAST_ADDPATH)
            &&& (t == 10 <==> v is RIB_IPV6_UNICAST_ADDPATH)
            &&& (t == 11 <==> v is RIB_IPV6_MULTICAST_ADDPATH)
            &&& (t == 12 <==> v is RIB_GENERIC_ADDPATH)
        },
{
}

/// The lazy iterator stops at its first error: every item before the last
/// is an entry, and where all items are entries there are exactly as many
/// as the record's entry count.
pub proof fn law_iter_error_is_last(data: Seq<u8>, remaining: nat, addpath: bool)
    ensures
        forall|i: int| 0 <= i < iter_items(data, remaining, addpath).len() - 1
            ==> (#[trigger] iter_items(data, remaining, addpath)[i]) is Ok,
        iter_items(data, remaining, addpath).len() <= remaining,
        (iter_items(data, remaining, addpath).len() == 0 || iter_items(data, remaining, addpath).last() is Ok)
            ==> iter_items(data, remaining, addpath).len() == remaining,
    decreases remaining,
{
    if remaining > 0 {
        if let Ok((e, rest)) = iter_step(data, addpath) {
            law_iter_error_is_last(rest, (remaining - 1) as nat, addpath);
            let tail = iter_items(rest, (remaining - 1) as nat, addpath);
            let all = iter_items(data, remaining, addpath);
            assert(all == seq![Ok::<EntryModel, MrtError>(e)] + tail);
            assert forall|i: int| 0 <= i < all.len() - 1 implies (#[trigger] all[i]) is Ok by {
                if i > 0 {
                    assert(all[i] == tail[i - 1]);
                }
            }
            if tail.len() > 0 {
                assert(all.last() == tail.last());
            }
        }
    }
}

} // verus!
