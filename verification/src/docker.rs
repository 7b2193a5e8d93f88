//! Parser for the container runtime's JSON-lines output.
//!
//! Two listings arrive per collection: one line of JSON per container,
//! and one line of JSON per live-stats row. Stats are parsed first into
//! a lookup keyed by container name; containers are then parsed
//! independently and joined against that lookup — a container without a
//! stats row keeps all-zero usage figures rather than being dropped.
//! Unit-suffixed sizes are brought to a common unit of millionths of a
//! megabyte.

use vstd::prelude::*;
use crate::bytes::{
    clone_bytes, eq_bytes, ends_with, find_byte, find_sub, lines, rfind_byte, spec_ends_with,
    spec_find_byte, spec_find_sub, spec_lines, spec_rfind_byte, spec_split, spec_strip_suffix_all,
    spec_trim, split_by, strip_suffix_all, sub_vec, trim,
};
use crate::models::{ContainerState, DockerContainer, PortMapping};
use crate::numbers::{
    parse_scaled, parse_u16, pct_centi64, sat64, spec_parse_u16, spec_pct_centi64, spec_scaled_val,
};

verus! {

/// What serde_json reads out of one JSON text under one top-level key,
/// provided the text parses and the key holds a string: a function of
/// the text and the key alone.
pub uninterp spec fn json_string_field(text: Seq<u8>, key: Seq<char>) -> Option<Seq<u8>>;

/// Relies on serde_json's `from_slice`, `Value::get` and
/// `Value::as_str`: the string value under a top-level key, absent when
/// the text does not parse, lacks the key, or holds no string there.
#[verifier::external_body]
fn json_str_field(text: &[u8], key: &str) -> (r: Option<Vec<u8>>)
    ensures
        match r {
            Some(v) => json_string_field(text@, key@) == Some(v@),
            None => json_string_field(text@, key@) is None,
        },
{
    match serde_json::from_slice::<serde_json::Value>(text) {
        Ok(v) => v.get(key).and_then(|f| f.as_str()).map(|s| s.as_bytes().to_vec()),
        Err(_) => None,
    }
}

/// The epoch second named by an RFC 3339 date-and-time text: a function
/// of the text alone.
pub uninterp spec fn rfc3339_epoch(s: Seq<u8>) -> Option<i64>;

/// Relies on chrono's `DateTime::parse_from_rfc3339` and
/// `DateTime::timestamp`: the epoch second of an RFC 3339 text, absent
/// when the text is not valid UTF-8 or not a valid RFC 3339 value.
#[verifier::external_body]
fn rfc3339_to_epoch(s: &[u8]) -> (r: Option<i64>)
    ensures
        match r {
            Some(t) => rfc3339_epoch(s@) == Some(t),
            None => rfc3339_epoch(s@) is None,
        },
{
    match core::str::from_utf8(s) {
        Ok(t) => chrono::DateTime::parse_from_rfc3339(t).ok().map(|d| d.timestamp()),
        Err(_) => None,
    }
}

/// A size with a binary unit suffix, in millionths of a megabyte:
/// GiB/GB scale by 1024, MiB/MB stand as they are, KiB/KB/kB divide by
/// 1024, bare bytes divide by 1024 squared, and a text without a known
/// suffix counts as megabytes. An unparseable number counts as zero.
pub open spec fn spec_size_micro_mb(s: Seq<u8>) -> u64 {
    let t = spec_trim(s);
    if spec_ends_with(t, seq![71u8, 105u8, 66u8]) || spec_ends_with(t, seq![71u8, 66u8]) {
        let num = spec_trim(
            spec_strip_suffix_all(
                spec_strip_suffix_all(t, seq![71u8, 105u8, 66u8]),
                seq![71u8, 66u8],
            ),
        );
        match spec_scaled_val(num, 6) {
            Some(v) => sat64(v * 1024),
            None => 0,
        }
    } else if spec_ends_with(t, seq![77u8, 105u8, 66u8]) || spec_ends_with(t, seq![77u8, 66u8]) {
        let num = spec_trim(
            spec_strip_suffix_all(
                spec_strip_suffix_all(t, seq![77u8, 105u8, 66u8]),
                seq![77u8, 66u8],
            ),
        );
        match spec_scaled_val(num, 6) {
            Some(v) => sat64(v),
            None => 0,
        }
    } else if spec_ends_with(t, seq![75u8, 105u8, 66u8]) || spec_ends_with(t, seq![75u8, 66u8])
        || spec_ends_with(t, seq![107u8, 66u8]) {
        let num = spec_trim(
            spec_strip_suffix_all(
                spec_strip_suffix_all(
                    spec_strip_suffix_all(t, seq![75u8, 105u8, 66u8]),
                    seq![75u8, 66u8],
                ),
                seq![107u8, 66u8],
            ),
        );
        match spec_scaled_val(num, 6) {
            Some(v) => (sat64(v) / 1024) as u64,
            None => 0,
        }
    } else if spec_ends_with(t, seq![66u8]) {
        let num = spec_trim(spec_strip_suffix_all(t, seq![66u8]));
        match spec_scaled_val(num, 6) {
            Some(v) => (sat64(v) / 1048576) as u64,
            None => 0,
        }
    } else {
        match spec_scaled_val(t, 6) {
            Some(v) => sat64(v),
            None => 0,
        }
    }
}

/// Parse a unit-suffixed size into millionths of a megabyte.
pub fn parse_size_to_mb(s: &[u8]) -> (r: u64)
    ensures
        r == spec_size_micro_mb(s@),
{
    let t = trim(s);
    let gib: [u8; 3] = [71, 105, 66];
    let gb: [u8; 2] = [71, 66];
    let mib: [u8; 3] = [77, 105, 66];
    let mb: [u8; 2] = [77, 66];
    let kib: [u8; 3] = [75, 105, 66];
    let kb: [u8; 2] = [75, 66];
    let lkb: [u8; 2] = [107, 66];
    let bare: [u8; 1] = [66];
    proof {
        assert(gib@ =~= seq![71u8, 105u8, 66u8]);
        assert(gb@ =~= seq![71u8, 66u8]);
        assert(mib@ =~= seq![77u8, 105u8, 66u8]);
        assert(mb@ =~= seq![77u8, 66u8]);
        assert(kib@ =~= seq![75u8, 105u8, 66u8]);
        assert(kb@ =~= seq![75u8, 66u8]);
        assert(lkb@ =~= seq![107u8, 66u8]);
        assert(bare@ =~= seq![66u8]);
    }
    if ends_with(t.as_slice(), &gib) || ends_with(t.as_slice(), &gb) {
        let n1 = strip_suffix_all(t.as_slice(), &gib);
        let n2 = strip_suffix_all(n1.as_slice(), &gb);
        let num = trim(n2.as_slice());
        match parse_scaled(num.as_slice(), 6) {
            Some(v) => {
                let wide: u128 = v as u128 * 1024;
                if wide > u64::MAX as u128 {
                    u64::MAX
                } else {
                    proof {
                        let sv = spec_scaled_val(num@, 6)->Some_0;
                        if sv > u64::MAX {
                            assert(sv * 1024 >= sv * 1) by (nonlinear_arith)
                                requires sv >= 0,
                            ;
                        } else {
                            assert(v == sv);
                        }
                    }
                    wide as u64
                }
            },
            None => 0,
        }
    } else if ends_with(t.as_slice(), &mib) || ends_with(t.as_slice(), &mb) {
        let n1 = strip_suffix_all(t.as_slice(), &mib);
        let n2 = strip_suffix_all(n1.as_slice(), &mb);
        let num = trim(n2.as_slice());
        match parse_scaled(num.as_slice(), 6) {
            Some(v) => v,
            None => 0,
        }
    } else if ends_with(t.as_slice(), &kib) || ends_with(t.as_slice(), &kb) || ends_with(
        t.as_slice(),
        &lkb,
    ) {
        let n1 = strip_suffix_all(t.as_slice(), &kib);
        let n2 = strip_suffix_all(n1.as_slice(), &kb);
        let n3 = strip_suffix_all(n2.as_slice(), &lkb);
        let num = trim(n3.as_slice());
        match parse_scaled(num.as_slice(), 6) {
            Some(v) => v / 1024,
            None => 0,
        }
    } else if ends_with(t.as_slice(), &bare) {
        let n1 = strip_suffix_all(t.as_slice(), &bare);
        let num = trim(n1.as_slice());
        match parse_scaled(num.as_slice(), 6) {
            Some(v) => v / 1048576,
            None => 0,
        }
    } else {
        match parse_scaled(t.as_slice(), 6) {
            Some(v) => v,
            None => 0,
        }
    }
}

/// The usage part of a `used / limit` pair: the text before the first
/// separator, or the whole text without one.
pub open spec fn spec_first_of_pair(s: Seq<u8>) -> Seq<u8> {
    match spec_find_sub(s, seq![32u8, 47u8, 32u8], 0) {
        Some(i) => s.take(i),
        None => s,
    }
}

/// Memory usage and limit in millionths of a megabyte.
pub fn parse_memory_usage(usage: &[u8], limit: &[u8]) -> (r: (u64, u64))
    ensures
        r.0 == spec_size_micro_mb(spec_first_of_pair(usage@)),
        r.1 == spec_size_micro_mb(limit@),
{
    let sep: [u8; 3] = [32, 47, 32];
    proof {
        assert(sep@ =~= seq![32u8, 47u8, 32u8]);
    }
    let first: Vec<u8> = match find_sub(usage, &sep, 0) {
        Some(i) => sub_vec(usage, 0, i),
        None => {
            let w = sub_vec(usage, 0, usage.len());
            proof {
                assert(usage@.subrange(0, usage@.len() as int) =~= usage@);
            }
            w
        },
    };
    proof {
        if spec_find_sub(usage@, seq![32u8, 47u8, 32u8], 0) is Some {
            let i = spec_find_sub(usage@, seq![32u8, 47u8, 32u8], 0)->Some_0;
            assert(usage@.subrange(0, i) =~= usage@.take(i));
        }
    }
    let usage_mb = parse_size_to_mb(first.as_slice());
    let limit_mb = parse_size_to_mb(limit);
    (usage_mb, limit_mb)
}

/// Received and transmitted totals of a `rx / tx` pair, in millionths
/// of a megabyte; a missing half counts as zero.
pub open spec fn spec_net_io(s: Seq<u8>) -> (u64, u64) {
    let parts = spec_split(s, seq![32u8, 47u8, 32u8]);
    let rx = if parts.len() > 0 {
        spec_size_micro_mb(parts[0])
    } else {
        0u64
    };
    let tx = if parts.len() > 1 {
        spec_size_micro_mb(parts[1])
    } else {
        0u64
    };
    (rx, tx)
}

pub fn parse_network_io(s: &[u8]) -> (r: (u64, u64))
    ensures
        r == spec_net_io(s@),
{
    let sep: [u8; 3] = [32, 47, 32];
    proof {
        assert(sep@ =~= seq![32u8, 47u8, 32u8]);
    }
    let parts = split_by(s, &sep);
    let ghost pv = parts@.map_values(|p: Vec<u8>| p@);
    let rx = if parts.len() > 0 {
        proof {
            assert(pv[0] == parts@[0]@);
        }
        parse_size_to_mb(parts[0].as_slice())
    } else {
        0
    };
    let tx = if parts.len() > 1 {
        proof {
            assert(pv[1] == parts@[1]@);
        }
        parse_size_to_mb(parts[1].as_slice())
    } else {
        0
    };
    (rx, tx)
}

/// Mathematical image of one live-stats row.
#[verifier::ext_equal]
pub ghost struct StatsRec {
    pub name: Seq<u8>,
    pub cpu_percent_centi: u64,
    pub memory_usage_micro_mb: u64,
    pub memory_limit_micro_mb: u64,
    pub network_rx_micro_mb: u64,
    pub network_tx_micro_mb: u64,
    pub memory_percent_centi: u64,
}

/// One live-stats row as the join uses it.
pub struct StatsEntry {
    pub name: Vec<u8>,
    pub cpu_percent_centi: u64,
    pub memory_usage_micro_mb: u64,
    pub memory_limit_micro_mb: u64,
    pub network_rx_micro_mb: u64,
    pub network_tx_micro_mb: u64,
    pub memory_percent_centi: u64,
}

pub open spec fn spec_stats_view(e: StatsEntry) -> StatsRec {
    StatsRec {
        name: e.name@,
        cpu_percent_centi: e.cpu_percent_centi,
        memory_usage_micro_mb: e.memory_usage_micro_mb,
        memory_limit_micro_mb: e.memory_limit_micro_mb,
        network_rx_micro_mb: e.network_rx_micro_mb,
        network_tx_micro_mb: e.network_tx_micro_mb,
        memory_percent_centi: e.memory_percent_centi,
    }
}

/// The stats row one JSON line yields, if any: the five fields must all
/// be present as strings. The CPU share loses its percent signs; the
/// memory percentage is derived from usage and limit, zero without a
/// limit.
pub open spec fn spec_stats_line(line: Seq<u8>) -> Option<StatsRec> {
    match (
        json_string_field(line, "Container"@),
        json_string_field(line, "CPUPerc"@),
        json_string_field(line, "MemUsage"@),
        json_string_field(line, "MemLimit"@),
        json_string_field(line, "NetIO"@),
    ) {
        (Some(name), Some(cpu), Some(mem_usage), Some(mem_limit), Some(net_io)) => {
            let cpu_centi = match spec_scaled_val(spec_strip_suffix_all(cpu, seq![37u8]), 2) {
                Some(v) => sat64(v),
                None => 0u64,
            };
            let usage_mb = spec_size_micro_mb(spec_first_of_pair(mem_usage));
            let limit_mb = spec_size_micro_mb(mem_limit);
            let io = spec_net_io(net_io);
            Some(
                (StatsRec {
                    name,
                    cpu_percent_centi: cpu_centi,
                    memory_usage_micro_mb: usage_mb,
                    memory_limit_micro_mb: limit_mb,
                    network_rx_micro_mb: io.0,
                    network_tx_micro_mb: io.1,
                    memory_percent_centi: spec_pct_centi64(usage_mb as nat, limit_mb as nat),
                }),
            )
        },
        _ => None,
    }
}

fn stats_line(line: &[u8]) -> (r: Option<StatsEntry>)
    ensures
        match r {
            Some(e) => spec_stats_line(line@) == Some(spec_stats_view(e)),
            None => spec_stats_line(line@) is None,
        },
{
    let name = match json_str_field(line, "Container") {
        Some(v) => v,
        None => {
            return None;
        },
    };
    let cpu = match json_str_field(line, "CPUPerc") {
        Some(v) => v,
        None => {
            return None;
        },
    };
    let mem_usage = match json_str_field(line, "MemUsage") {
        Some(v) => v,
        None => {
            return None;
        },
    };
    let mem_limit = match json_str_field(line, "MemLimit") {
        Some(v) => v,
        None => {
            return None;
        },
    };
    let net_io = match json_str_field(line, "NetIO") {
        Some(v) => v,
        None => {
            return None;
        },
    };
    let pct: [u8; 1] = [37];
    proof {
        assert(pct@ =~= seq![37u8]);
    }
    let cpu_stripped = strip_suffix_all(cpu.as_slice(), &pct);
    let cpu_centi = match parse_scaled(cpu_stripped.as_slice(), 2) {
        Some(v) => v,
        None => 0,
    };
    let um = parse_memory_usage(mem_usage.as_slice(), mem_limit.as_slice());
    let io = parse_network_io(net_io.as_slice());
    let mem_pct = pct_centi64(um.0, um.1);
    let e = StatsEntry {
        name,
        cpu_percent_centi: cpu_centi,
        memory_usage_micro_mb: um.0,
        memory_limit_micro_mb: um.1,
        network_rx_micro_mb: io.0,
        network_tx_micro_mb: io.1,
        memory_percent_centi: mem_pct,
    };
    proof {
        assert(spec_stats_line(line@) =~= Some(spec_stats_view(e)));
    }
    Some(e)
}

/// The stats lookup of a whole listing: one row per line that parses,
/// blank lines skipped.
pub open spec fn spec_stats_of(ls: Seq<Seq<u8>>) -> Seq<StatsRec>
    decreases ls.len(),
{
    if ls.len() == 0 {
        Seq::empty()
    } else {
        spec_stats_of(ls.drop_last()) + (if spec_trim(ls.last()).len() == 0 {
            Seq::empty()
        } else {
            match spec_stats_line(ls.last()) {
                Some(rec) => seq![rec],
                None => Seq::empty(),
            }
        })
    }
}

/// The stats row joined to a container name: the first row under that
/// name, or all-zero usage figures when none matches.
pub open spec fn spec_stats_for(s: Seq<StatsRec>, name: Seq<u8>) -> StatsRec
    decreases s.len(),
{
    if s.len() == 0 {
        StatsRec {
            name,
            cpu_percent_centi: 0,
            memory_usage_micro_mb: 0,
            memory_limit_micro_mb: 0,
            network_rx_micro_mb: 0,
            network_tx_micro_mb: 0,
            memory_percent_centi: 0,
        }
    } else if s[0].name == name {
        s[0]
    } else {
        spec_stats_for(s.skip(1), name)
    }
}

fn stats_for(s: &Vec<StatsEntry>, name: &Vec<u8>) -> (r: StatsEntry)
    ensures
        spec_stats_view(r) == spec_stats_for(
            s@.map_values(|e: StatsEntry| spec_stats_view(e)),
            name@,
        ),
{
    let ghost m = s@.map_values(|e: StatsEntry| spec_stats_view(e));
    let mut k: usize = 0;
    proof {
        assert(m.skip(0) =~= m);
    }
    while k < s.len()
        invariant
            k <= s@.len(),
            m == s@.map_values(|e: StatsEntry| spec_stats_view(e)),
            spec_stats_for(m, name@) == spec_stats_for(m.skip(k as int), name@),
        decreases s@.len() - k,
    {
        proof {
            assert(m.skip(k as int)[0] == m[k as int]);
            assert(m.skip(k as int).skip(1) =~= m.skip(k + 1));
        }
        let e = &s[k];
        if eq_bytes(e.name.as_slice(), name.as_slice()) {
            let r = StatsEntry {
                name: clone_bytes(&e.name),
                cpu_percent_centi: e.cpu_percent_centi,
                memory_usage_micro_mb: e.memory_usage_micro_mb,
                memory_limit_micro_mb: e.memory_limit_micro_mb,
                network_rx_micro_mb: e.network_rx_micro_mb,
                network_tx_micro_mb: e.network_tx_micro_mb,
                memory_percent_centi: e.memory_percent_centi,
            };
            proof {
                assert(spec_stats_view(r) =~= spec_stats_for(m, name@));
            }
            return r;
        }
        k = k + 1;
    }
    proof {
        assert(m.skip(m.len() as int) =~= Seq::<StatsRec>::empty());
    }
    StatsEntry {
        name: clone_bytes(name),
        cpu_percent_centi: 0,
        memory_usage_micro_mb: 0,
        memory_limit_micro_mb: 0,
        network_rx_micro_mb: 0,
        network_tx_micro_mb: 0,
        memory_percent_centi: 0,
    }
}

/// Mathematical image of one port mapping.
#[verifier::ext_equal]
pub ghost struct MappingRec {
    pub container_port: u16,
    pub host_port: Option<u16>,
    pub protocol: Seq<u8>,
    pub host_ip: Option<Seq<u8>>,
}

pub open spec fn spec_mapping_view(m: PortMapping) -> MappingRec {
    MappingRec {
        container_port: m.container_port,
        host_port: m.host_port,
        protocol: m.protocol@,
        host_ip: match m.host_ip {
            Some(ip) => Some(ip@),
            None => None,
        },
    }
}

/// The host side of a bound mapping: the text before the last colon
/// and the port after it, or no binding at all without a colon.
pub open spec fn spec_host_side(host: Seq<u8>) -> (Option<Seq<u8>>, Option<u16>) {
    match spec_rfind_byte(host, 58) {
        Some(c) => (Some(host.take(c)), spec_parse_u16(host.subrange(c + 1, host.len() as int))),
        None => (None, None),
    }
}

/// The mapping one comma-separated piece yields, if any. A piece with
/// an arrow binds a host address and port to a container port; one
/// without describes a container-only port. Either way the container
/// side must carry a protocol after a slash; an unparseable container
/// port counts as zero.
pub open spec fn spec_mapping_piece(piece: Seq<u8>) -> Option<MappingRec> {
    if spec_trim(piece).len() == 0 {
        None
    } else {
        match spec_find_sub(piece, seq![45u8, 62u8], 0) {
            Some(a) => {
                let host = piece.take(a);
                let cont = piece.subrange(a + 2, piece.len() as int);
                match spec_find_byte(cont, 47, 0) {
                    Some(sl) => {
                        let cport = match spec_parse_u16(cont.take(sl)) {
                            Some(p) => p,
                            None => 0u16,
                        };
                        let hs = spec_host_side(host);
                        Some(
                            (MappingRec {
                                container_port: cport,
                                host_port: hs.1,
                                protocol: cont.subrange(sl + 1, cont.len() as int),
                                host_ip: hs.0,
                            }),
                        )
                    },
                    None => None,
                }
            },
            None => match spec_find_byte(piece, 47, 0) {
                Some(sl) => {
                    let cport = match spec_parse_u16(piece.take(sl)) {
                        Some(p) => p,
                        None => 0u16,
                    };
                    Some(
                        (MappingRec {
                            container_port: cport,
                            host_port: None,
                            protocol: piece.subrange(sl + 1, piece.len() as int),
                            host_ip: None,
                        }),
                    )
                },
                None => None,
            },
        }
    }
}

fn mapping_piece(piece: &[u8]) -> (r: Option<PortMapping>)
    ensures
        match r {
            Some(m) => spec_mapping_piece(piece@) == Some(spec_mapping_view(m)),
            None => spec_mapping_piece(piece@) is None,
        },
{
    let t = trim(piece);
    if t.len() == 0 {
        return None;
    }
    let n = piece.len();
    let arrow: [u8; 2] = [45, 62];
    proof {
        assert(arrow@ =~= seq![45u8, 62u8]);
    }
    match find_sub(piece, &arrow, 0) {
        Some(a) => {
            let host = sub_vec(piece, 0, a);
            let cont = sub_vec(piece, a + 2, n);
            proof {
                assert(host@ =~= piece@.take(a as int));
            }
            match find_byte(cont.as_slice(), 47, 0) {
                Some(sl) => {
                    let cport_str = sub_vec(cont.as_slice(), 0, sl);
                    proof {
                        assert(cport_str@ =~= cont@.take(sl as int));
                    }
                    let cport = match parse_u16(cport_str.as_slice()) {
                        Some(p) => p,
                        None => 0,
                    };
                    let protocol = sub_vec(cont.as_slice(), sl + 1, cont.len());
                    let hn = host.len();
                    let hs: (Option<Vec<u8>>, Option<u16>) = match rfind_byte(host.as_slice(), 58) {
                        Some(c) => {
                            let ip = sub_vec(host.as_slice(), 0, c);
                            proof {
                                assert(ip@ =~= host@.take(c as int));
                            }
                            (Some(ip), parse_u16(sub_vec(host.as_slice(), c + 1, hn).as_slice()))
                        },
                        None => (None, None),
                    };
                    let m = PortMapping {
                        container_port: cport,
                        host_port: hs.1,
                        protocol,
                        host_ip: hs.0,
                    };
                    proof {
                        assert(spec_mapping_piece(piece@) =~= Some(spec_mapping_view(m)));
                    }
                    Some(m)
                },
                None => None,
            }
        },
        None => {
            match find_byte(piece, 47, 0) {
                Some(sl) => {
                    let cport_str = sub_vec(piece, 0, sl);
                    proof {
                        assert(cport_str@ =~= piece@.take(sl as int));
                    }
                    let cport = match parse_u16(cport_str.as_slice()) {
                        Some(p) => p,
                        None => 0,
                    };
                    let protocol = sub_vec(piece, sl + 1, n);
                    let m = PortMapping {
                        container_port: cport,
                        host_port: None,
                        protocol,
                        host_ip: None,
                    };
                    proof {
                        assert(spec_mapping_piece(piece@) =~= Some(spec_mapping_view(m)));
                    }
                    Some(m)
                },
                None => None,
            }
        },
    }
}

/// The mappings of a whole port text, one comma-separated piece each.
pub open spec fn spec_mappings_of(ps: Seq<Seq<u8>>) -> Seq<MappingRec>
    decreases ps.len(),
{
    if ps.len() == 0 {
        Seq::empty()
    } else {
        spec_mappings_of(ps.drop_last()) + match spec_mapping_piece(ps.last()) {
            Some(rec) => seq![rec],
            None => Seq::empty(),
        }
    }
}

pub open spec fn spec_port_mappings(s: Seq<u8>) -> Seq<MappingRec> {
    spec_mappings_of(spec_split(s, seq![44u8, 32u8]))
}

/// Parse a container's published-ports text into its mappings.
pub fn parse_port_mappings(s: &[u8]) -> (r: Vec<PortMapping>)
    ensures
        r@.map_values(|m: PortMapping| spec_mapping_view(m)) == spec_port_mappings(s@),
{
    let sep: [u8; 2] = [44, 32];
    proof {
        assert(sep@ =~= seq![44u8, 32u8]);
    }
    let pieces = split_by(s, &sep);
    let ghost pv = pieces@.map_values(|p: Vec<u8>| p@);
    let mut r: Vec<PortMapping> = Vec::new();
    let mut k: usize = 0;
    proof {
        assert(pv.take(0) =~= Seq::<Seq<u8>>::empty());
    }
    while k < pieces.len()
        invariant
            k <= pieces@.len(),
            pv == pieces@.map_values(|p: Vec<u8>| p@),
            r@.map_values(|m: PortMapping| spec_mapping_view(m)) == spec_mappings_of(
                pv.take(k as int),
            ),
        decreases pieces@.len() - k,
    {
        proof {
            assert(pv.take(k + 1).drop_last() =~= pv.take(k as int));
            assert(pv.take(k + 1).last() == pv[k as int]);
        }
        match mapping_piece(pieces[k].as_slice()) {
            Some(m) => {
                r.push(m);
                proof {
                    assert(r@.map_values(|m: PortMapping| spec_mapping_view(m))
                        =~= r@.drop_last().map_values(|m: PortMapping| spec_mapping_view(m)) + seq![
                        spec_mapping_view(r@.last()),
                    ]);
                }
            },
            None => {},
        }
        k = k + 1;
    }
    proof {
        assert(pv.take(pv.len() as int) =~= pv);
    }
    r
}

/// Mathematical image of one container row after the stats join.
#[verifier::ext_equal]
pub ghost struct ContainerRec {
    pub id: Seq<u8>,
    pub name: Seq<u8>,
    pub image: Seq<u8>,
    pub status: Seq<u8>,
    pub state: ContainerState,
    pub created: i64,
    pub ports: Seq<MappingRec>,
    pub cpu_percent_centi: u64,
    pub memory_usage_micro_mb: u64,
    pub memory_limit_micro_mb: u64,
    pub memory_percent_centi: u64,
    pub network_rx_micro_mb: u64,
    pub network_tx_micro_mb: u64,
}

pub open spec fn spec_container_view(c: DockerContainer) -> ContainerRec {
    ContainerRec {
        id: c.id@,
        name: c.name@,
        image: c.image@,
        status: c.status@,
        state: c.state,
        created: c.created,
        ports: c.ports@.map_values(|m: PortMapping| spec_mapping_view(m)),
        cpu_percent_centi: c.cpu_percent_centi,
        memory_usage_micro_mb: c.memory_usage_micro_mb,
        memory_limit_micro_mb: c.memory_limit_micro_mb,
        memory_percent_centi: c.memory_percent_centi,
        network_rx_micro_mb: c.network_rx_micro_mb,
        network_tx_micro_mb: c.network_tx_micro_mb,
    }
}

/// The container state flags derived from the runtime's state word.
pub open spec fn spec_state_flags(state: Seq<u8>) -> ContainerState {
    ContainerState {
        running: state == seq![114u8, 117u8, 110u8, 110u8, 105u8, 110u8, 103u8],
        paused: state == seq![112u8, 97u8, 117u8, 115u8, 101u8, 100u8],
        restarting: state == seq![114u8, 101u8, 115u8, 116u8, 97u8, 114u8, 116u8, 105u8, 110u8, 103u8],
        dead: state == seq![100u8, 101u8, 97u8, 100u8],
        pid: None,
        exit_code: None,
        started_at: None,
        finished_at: None,
    }
}

/// The record one container JSON line yields, if any: the six text
/// fields must all be present; ports are optional; usage figures come
/// from the stats row of the same name, zeros without one; the creation
/// time is the RFC 3339 field's epoch second, zero when unparseable.
pub open spec fn spec_container_rec(line: Seq<u8>, stats: Seq<StatsRec>) -> Option<ContainerRec> {
    match (
        json_string_field(line, "ID"@),
        json_string_field(line, "Names"@),
        json_string_field(line, "Image"@),
        json_string_field(line, "Status"@),
        json_string_field(line, "State"@),
        json_string_field(line, "CreatedAt"@),
    ) {
        (Some(id), Some(name), Some(image), Some(status), Some(state), Some(created_at)) => {
            let ports = match json_string_field(line, "Ports"@) {
                Some(ps) => spec_port_mappings(ps),
                None => Seq::empty(),
            };
            let st = spec_stats_for(stats, name);
            Some(
                (ContainerRec {
                    id,
                    name,
                    image,
                    status,
                    state: spec_state_flags(state),
                    created: match rfc3339_epoch(created_at) {
                        Some(t) => t,
                        None => 0,
                    },
                    ports,
                    cpu_percent_centi: st.cpu_percent_centi,
                    memory_usage_micro_mb: st.memory_usage_micro_mb,
                    memory_limit_micro_mb: st.memory_limit_micro_mb,
                    memory_percent_centi: st.memory_percent_centi,
                    network_rx_micro_mb: st.network_rx_micro_mb,
                    network_tx_micro_mb: st.network_tx_micro_mb,
                }),
            )
        },
        _ => None,
    }
}

/// Parse one container line and join it against the stats rows.
pub fn parse_container_json(line: &[u8], stats: &Vec<StatsEntry>) -> (r: Option<DockerContainer>)
    ensures
        match r {
            Some(c) => spec_container_rec(
                line@,
                stats@.map_values(|e: StatsEntry| spec_stats_view(e)),
            ) == Some(spec_container_view(c)),
            None => spec_container_rec(
                line@,
                stats@.map_values(|e: StatsEntry| spec_stats_view(e)),
            ) is None,
        },
{
    let id = match json_str_field(line, "ID") {
        Some(v) => v,
        None => {
            return None;
        },
    };
    let name = match json_str_field(line, "Names") {
        Some(v) => v,
        None => {
            return None;
        },
    };
    let image = match json_str_field(line, "Image") {
        Some(v) => v,
        None => {
            return None;
        },
    };
    let status = match json_str_field(line, "Status") {
        Some(v) => v,
        None => {
            return None;
        },
    };
    let state_word = match json_str_field(line, "State") {
        Some(v) => v,
        None => {
            return None;
        },
    };
    let created_at = match json_str_field(line, "CreatedAt") {
        Some(v) => v,
        None => {
            return None;
        },
    };
    let ports: Vec<PortMapping> = match json_str_field(line, "Ports") {
        Some(ps) => parse_port_mappings(ps.as_slice()),
        None => Vec::new(),
    };
    let running_w: [u8; 7] = [114, 117, 110, 110, 105, 110, 103];
    let paused_w: [u8; 6] = [112, 97, 117, 115, 101, 100];
    let restarting_w: [u8; 10] = [114, 101, 115, 116, 97, 114, 116, 105, 110, 103];
    let dead_w: [u8; 4] = [100, 101, 97, 100];
    proof {
        assert(running_w@ =~= seq![114u8, 117u8, 110u8, 110u8, 105u8, 110u8, 103u8]);
        assert(paused_w@ =~= seq![112u8, 97u8, 117u8, 115u8, 101u8, 100u8]);
        assert(restarting_w@ =~= seq![
            114u8, 101u8, 115u8, 116u8, 97u8, 114u8, 116u8, 105u8, 110u8, 103u8,
        ]);
        assert(dead_w@ =~= seq![100u8, 101u8, 97u8, 100u8]);
    }
    let state = ContainerState {
        running: eq_bytes(state_word.as_slice(), &running_w),
        paused: eq_bytes(state_word.as_slice(), &paused_w),
        restarting: eq_bytes(state_word.as_slice(), &restarting_w),
        dead: eq_bytes(state_word.as_slice(), &dead_w),
        pid: None,
        exit_code: None,
        started_at: None,
        finished_at: None,
    };
    let st = stats_for(stats, &name);
    let created = match rfc3339_to_epoch(created_at.as_slice()) {
        Some(t) => t,
        None => 0,
    };
    let c = DockerContainer {
        id,
        name,
        image,
        status,
        state,
        created,
        ports,
        cpu_percent_centi: st.cpu_percent_centi,
        memory_usage_micro_mb: st.memory_usage_micro_mb,
        memory_limit_micro_mb: st.memory_limit_micro_mb,
        memory_percent_centi: st.memory_percent_centi,
        network_rx_micro_mb: st.network_rx_micro_mb,
        network_tx_micro_mb: st.network_tx_micro_mb,
    };
    proof {
        assert(spec_container_rec(line@, stats@.map_values(|e: StatsEntry| spec_stats_view(e)))
            =~= Some(spec_container_view(c)));
    }
    Some(c)
}

/// The container rows of a whole listing, blank lines skipped.
pub open spec fn spec_containers_of(ls: Seq<Seq<u8>>, stats: Seq<StatsRec>) -> Seq<ContainerRec>
    decreases ls.len(),
{
    if ls.len() == 0 {
        Seq::empty()
    } else {
        spec_containers_of(ls.drop_last(), stats) + (if spec_trim(ls.last()).len() == 0 {
            Seq::empty()
        } else {
            match spec_container_rec(ls.last(), stats) {
                Some(rec) => seq![rec],
                None => Seq::empty(),
            }
        })
    }
}

/// The full result of one container collection.
pub open spec fn spec_docker_containers(containers_json: Seq<u8>, stats_json: Seq<u8>) -> Seq<
    ContainerRec,
> {
    spec_containers_of(spec_lines(containers_json), spec_stats_of(spec_lines(stats_json)))
}

/// Parse the two listings of one container collection: stats first,
/// into a lookup keyed by name, then one row per parseable container
/// line, joined by name. The collection as a whole never fails; lines
/// that do not parse are skipped.
pub fn parse_docker_containers(containers_json: &[u8], stats_json: &[u8]) -> (r: Result<
    Vec<DockerContainer>,
    String,
>)
    ensures
        r is Ok,
        r->Ok_0@.map_values(|c: DockerContainer| spec_container_view(c)) == spec_docker_containers(
            containers_json@,
            stats_json@,
        ),
{
    let sls = lines(stats_json);
    let ghost slv = sls@.map_values(|p: Vec<u8>| p@);
    let mut stats: Vec<StatsEntry> = Vec::new();
    let mut k: usize = 0;
    proof {
        assert(slv.take(0) =~= Seq::<Seq<u8>>::empty());
    }
    while k < sls.len()
        invariant
            k <= sls@.len(),
            slv == sls@.map_values(|p: Vec<u8>| p@),
            stats@.map_values(|e: StatsEntry| spec_stats_view(e)) == spec_stats_of(
                slv.take(k as int),
            ),
        decreases sls@.len() - k,
    {
        proof {
            assert(slv.take(k + 1).drop_last() =~= slv.take(k as int));
            assert(slv.take(k + 1).last() == slv[k as int]);
        }
        let t = trim(sls[k].as_slice());
        if t.len() > 0 {
            match stats_line(sls[k].as_slice()) {
                Some(e) => {
                    stats.push(e);
                    proof {
                        assert(stats@.map_values(|e: StatsEntry| spec_stats_view(e))
                            =~= stats@.drop_last().map_values(|e: StatsEntry| spec_stats_view(e))
                            + seq![spec_stats_view(stats@.last())]);
                    }
                },
                None => {},
            }
        }
        k = k + 1;
    }
    proof {
        assert(slv.take(slv.len() as int) =~= slv);
    }
    let ghost stats_v = spec_stats_of(spec_lines(stats_json@));
    let cls = lines(containers_json);
    let ghost clv = cls@.map_values(|p: Vec<u8>| p@);
    let mut containers: Vec<DockerContainer> = Vec::new();
    let mut j: usize = 0;
    proof {
        assert(clv.take(0) =~= Seq::<Seq<u8>>::empty());
    }
    while j < cls.len()
        invariant
            j <= cls@.len(),
            clv == cls@.map_values(|p: Vec<u8>| p@),
            stats@.map_values(|e: StatsEntry| spec_stats_view(e)) == stats_v,
            containers@.map_values(|c: DockerContainer| spec_container_view(c))
                == spec_containers_of(clv.take(j as int), stats_v),
        decreases cls@.len() - j,
    {
        proof {
            assert(clv.take(j + 1).drop_last() =~= clv.take(j as int));
            assert(clv.take(j + 1).last() == clv[j as int]);
        }
        let t = trim(cls[j].as_slice());
        if t.len() > 0 {
            match parse_container_json(cls[j].as_slice(), &stats) {
                Some(c) => {
                    containers.push(c);
                    proof {
                        assert(containers@.map_values(|c: DockerContainer| spec_container_view(c))
                            =~= containers@.drop_last().map_values(
                            |c: DockerContainer| spec_container_view(c),
                        ) + seq![spec_container_view(containers@.last())]);
                    }
                },
                None => {},
            }
        }
        j = j + 1;
    }
    proof {
        assert(clv.take(clv.len() as int) =~= clv);
    }
    Ok(containers)
}

} // verus!
