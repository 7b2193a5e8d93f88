//! Parsers for the two socket-table tools.
//!
//! The primary tool's rows are whitespace-tokenized with the protocol,
//! state and local address in fixed columns and the owning process in a
//! trailing section; the fallback tool uses different columns and skips
//! a two-line header. Both parsers drop malformed lines silently and
//! sort their result ascending by port. The fallback runs exactly when
//! the primary tool produced no usable row.

use vstd::prelude::*;
use crate::bytes::{
    clone_bytes, eq_bytes, find_byte, find_sub, join_space_from, lines, rfind_byte, spec_find_byte,
    spec_find_sub, spec_join_space, spec_lines, spec_rfind_byte, spec_split, spec_starts_with,
    spec_tokens, spec_upper_byte, split_by, starts_with, sub_vec, to_ascii_upper, tokens,
};
use crate::models::PortInfo;
use crate::numbers::{parse_u16, parse_u32, spec_parse_u16, spec_parse_u32};

verus! {

/// Mathematical image of one socket record.
#[verifier::ext_equal]
pub ghost struct PortRec {
    pub port: u16,
    pub protocol: Seq<u8>,
    pub state: Seq<u8>,
    pub program: Seq<u8>,
    pub pid: Option<u32>,
    pub address: Seq<u8>,
}

pub open spec fn spec_port_view(p: PortInfo) -> PortRec {
    PortRec {
        port: p.port,
        protocol: p.protocol@,
        state: p.state@,
        program: p.program@,
        pid: p.pid,
        address: p.address@,
    }
}

/// The placeholder program name when no owning process is listed.
pub open spec fn unknown_program_seq() -> Seq<u8> {
    seq![85u8, 110u8, 107u8, 110u8, 111u8, 119u8, 110u8]
}

fn unknown_program() -> (r: Vec<u8>)
    ensures
        r@ == unknown_program_seq(),
{
    let una: [u8; 7] = [85, 110, 107, 110, 111, 119, 110];
    proof {
        assert(una@ =~= unknown_program_seq());
    }
    sub_vec(&una, 0, 7)
}

/// The text after the last colon, or the whole text without one; this
/// is where both tools keep the port number of a local address.
pub open spec fn spec_after_last_colon(s: Seq<u8>) -> Seq<u8> {
    match spec_rfind_byte(s, 58) {
        Some(i) => s.subrange(i + 1, s.len() as int),
        None => s,
    }
}

fn after_last_colon(s: &Vec<u8>) -> (r: Vec<u8>)
    ensures
        r@ == spec_after_last_colon(s@),
{
    let n = s.len();
    match rfind_byte(s.as_slice(), 58) {
        Some(i) => sub_vec(s.as_slice(), i + 1, n),
        None => {
            let r = sub_vec(s.as_slice(), 0, s.len());
            proof {
                assert(s@.subrange(0, s@.len() as int) =~= s@);
            }
            r
        },
    }
}

/// The program name in the primary tool's process section: the text
/// between the opening quote of the first process entry and the next
/// quote, or the placeholder.
pub open spec fn spec_ss_program(info: Seq<u8>) -> Seq<u8> {
    match spec_find_sub(info, seq![40u8, 40u8, 34u8], 0) {
        Some(st) => match spec_find_byte(info, 34, st + 3) {
            Some(e) => info.subrange(st + 3, e),
            None => unknown_program_seq(),
        },
        None => unknown_program_seq(),
    }
}

/// The process id in the primary tool's process section: the digits
/// between `pid=` and the following comma, if they parse.
pub open spec fn spec_ss_pid(info: Seq<u8>) -> Option<u32> {
    match spec_find_sub(info, seq![112u8, 105u8, 100u8, 61u8], 0) {
        Some(ps) => match spec_find_byte(info, 44, ps + 4) {
            Some(c) => spec_parse_u32(info.subrange(ps + 4, c)),
            None => None,
        },
        None => None,
    }
}

/// The record one primary-tool row yields, if any: at least seven
/// columns, with a parseable port after the last colon of column four.
pub open spec fn spec_ss_line(line: Seq<u8>) -> Option<PortRec> {
    let toks = spec_tokens(line);
    if toks.len() < 7 {
        None
    } else {
        match spec_parse_u16(spec_after_last_colon(toks[4])) {
            Some(port) => {
                let info = spec_join_space(toks.skip(6));
                Some(
                    (PortRec {
                        port,
                        protocol: toks[0].map_values(|b: u8| spec_upper_byte(b)),
                        state: toks[1],
                        program: spec_ss_program(info),
                        pid: spec_ss_pid(info),
                        address: toks[4],
                    }),
                )
            },
            None => None,
        }
    }
}

fn ss_line(line: &[u8]) -> (r: Option<PortInfo>)
    ensures
        match r {
            Some(p) => spec_ss_line(line@) == Some(spec_port_view(p)),
            None => spec_ss_line(line@) is None,
        },
{
    let toks = tokens(line);
    let ghost tv = toks@.map_values(|p: Vec<u8>| p@);
    if toks.len() < 7 {
        return None;
    }
    let local = &toks[4];
    let port_str = after_last_colon(local);
    let port = match parse_u16(port_str.as_slice()) {
        Some(v) => v,
        None => {
            return None;
        },
    };
    let info = join_space_from(&toks, 6);
    let info_len = info.len();
    let pat_open: [u8; 3] = [40, 40, 34];
    let pat_pid: [u8; 4] = [112, 105, 100, 61];
    proof {
        assert(pat_open@ =~= seq![40u8, 40u8, 34u8]);
        assert(pat_pid@ =~= seq![112u8, 105u8, 100u8, 61u8]);
    }
    let program: Vec<u8> = match find_sub(info.as_slice(), &pat_open, 0) {
        Some(st) => match find_byte(info.as_slice(), 34, st + 3) {
            Some(e) => sub_vec(info.as_slice(), st + 3, e),
            None => unknown_program(),
        },
        None => unknown_program(),
    };
    let pid: Option<u32> = match find_sub(info.as_slice(), &pat_pid, 0) {
        Some(ps) => match find_byte(info.as_slice(), 44, ps + 4) {
            Some(c) => parse_u32(sub_vec(info.as_slice(), ps + 4, c).as_slice()),
            None => None,
        },
        None => None,
    };
    let p = PortInfo {
        port,
        protocol: to_ascii_upper(toks[0].as_slice()),
        state: clone_bytes(&toks[1]),
        program,
        pid,
        address: clone_bytes(local),
    };
    proof {
        assert(spec_ss_line(line@) =~= Some(spec_port_view(p)));
    }
    Some(p)
}

/// The fixed state shown for a datagram row of the fallback tool.
pub open spec fn unconn_seq() -> Seq<u8> {
    seq![85u8, 78u8, 67u8, 79u8, 78u8, 78u8]
}

pub open spec fn tcp_prefix() -> Seq<u8> {
    seq![116u8, 99u8, 112u8]
}

/// Upper-case protocol label of a fallback-tool row.
pub open spec fn spec_netstat_protocol(raw: Seq<u8>) -> Seq<u8> {
    if spec_starts_with(raw, tcp_prefix()) {
        seq![84u8, 67u8, 80u8]
    } else {
        seq![85u8, 68u8, 80u8]
    }
}

/// Process id and program name from the trailing column of a fallback
/// row: a `pid/name` pair, or the placeholder for a bare dash or any
/// other shape.
pub open spec fn spec_netstat_proc(last: Seq<u8>) -> (Option<u32>, Seq<u8>) {
    if last == seq![45u8] {
        (None, unknown_program_seq())
    } else {
        let parts = spec_split(last, seq![47u8]);
        if parts.len() == 2 {
            match spec_parse_u32(parts[0]) {
                Some(pid) => (Some(pid), parts[1]),
                None => (None, unknown_program_seq()),
            }
        } else {
            (None, unknown_program_seq())
        }
    }
}

/// The record one fallback-tool row yields, if any.
pub open spec fn spec_netstat_line(line: Seq<u8>) -> Option<PortRec> {
    let toks = spec_tokens(line);
    if toks.len() < 7 {
        None
    } else {
        match spec_parse_u16(spec_after_last_colon(toks[3])) {
            Some(port) => {
                let pp = spec_netstat_proc(toks[toks.len() - 1]);
                Some(
                    (PortRec {
                        port,
                        protocol: spec_netstat_protocol(toks[0]),
                        state: if spec_starts_with(toks[0], tcp_prefix()) {
                            toks[5]
                        } else {
                            unconn_seq()
                        },
                        program: pp.1,
                        pid: pp.0,
                        address: toks[3],
                    }),
                )
            },
            None => None,
        }
    }
}

fn netstat_line(line: &[u8]) -> (r: Option<PortInfo>)
    ensures
        match r {
            Some(p) => spec_netstat_line(line@) == Some(spec_port_view(p)),
            None => spec_netstat_line(line@) is None,
        },
{
    let toks = tokens(line);
    let ghost tv = toks@.map_values(|p: Vec<u8>| p@);
    if toks.len() < 7 {
        return None;
    }
    let local = &toks[3];
    let port_str = after_last_colon(local);
    let port = match parse_u16(port_str.as_slice()) {
        Some(v) => v,
        None => {
            return None;
        },
    };
    let tcp: [u8; 3] = [116, 99, 112];
    proof {
        assert(tcp@ =~= tcp_prefix());
    }
    let is_tcp = starts_with(toks[0].as_slice(), &tcp);
    let protocol: Vec<u8>;
    let state: Vec<u8>;
    if is_tcp {
        let pr: [u8; 3] = [84, 67, 80];
        proof {
            assert(pr@ =~= seq![84u8, 67u8, 80u8]);
        }
        protocol = sub_vec(&pr, 0, 3);
        state = clone_bytes(&toks[5]);
    } else {
        let pr: [u8; 3] = [85, 68, 80];
        let un: [u8; 6] = [85, 78, 67, 79, 78, 78];
        proof {
            assert(pr@ =~= seq![85u8, 68u8, 80u8]);
            assert(un@ =~= unconn_seq());
        }
        protocol = sub_vec(&pr, 0, 3);
        state = sub_vec(&un, 0, 6);
    }
    let last = &toks[toks.len() - 1];
    let ghost pp = spec_netstat_proc(last@);
    proof {
        assert(last@ == tv[tv.len() - 1]);
    }
    let dash: [u8; 1] = [45];
    proof {
        assert(dash@ =~= seq![45u8]);
    }
    let mut pid: Option<u32> = None;
    let mut program: Vec<u8> = unknown_program();
    if !eq_bytes(last.as_slice(), &dash) {
        let slash: [u8; 1] = [47];
        proof {
            assert(slash@ =~= seq![47u8]);
        }
        let parts = split_by(last.as_slice(), &slash);
        let ghost sv = spec_split(last@, seq![47u8]);
        proof {
            assert(sv == parts@.map_values(|p: Vec<u8>| p@));
        }
        if parts.len() == 2 {
            proof {
                assert(sv[0] == parts@[0]@);
                assert(sv[1] == parts@[1]@);
            }
            match parse_u32(parts[0].as_slice()) {
                Some(v) => {
                    pid = Some(v);
                    program = clone_bytes(&parts[1]);
                },
                None => {},
            }
        }
    }
    proof {
        assert(pid == pp.0);
        assert(program@ == pp.1);
    }
    let p = PortInfo {
        port,
        protocol,
        state,
        program,
        pid,
        address: clone_bytes(local),
    };
    proof {
        assert(tv[0] == toks@[0]@);
        assert(tv[3] == toks@[3]@);
        if spec_starts_with(tv[0], tcp_prefix()) {
            assert(tv[5] == toks@[5]@);
        }
        assert(spec_netstat_line(line@) =~= Some(spec_port_view(p)));
    }
    Some(p)
}

/// `x` inserted behind every record with at most its port, keeping an
/// ascending list ascending and insertion stable.
pub open spec fn spec_insert_port(x: PortRec, s: Seq<PortRec>) -> Seq<PortRec>
    decreases s.len(),
{
    if s.len() == 0 {
        seq![x]
    } else if s[0].port <= x.port {
        seq![s[0]] + spec_insert_port(x, s.skip(1))
    } else {
        seq![x] + s
    }
}

/// `s` sorted ascending by port, equal ports keeping their original order.
pub open spec fn spec_sort_ports(s: Seq<PortRec>) -> Seq<PortRec>
    decreases s.len(),
{
    if s.len() == 0 {
        Seq::empty()
    } else {
        spec_insert_port(s.last(), spec_sort_ports(s.drop_last()))
    }
}

pub open spec fn asc_by_port(s: Seq<PortRec>) -> bool {
    forall|i: int, j: int| 0 <= i < j < s.len() ==> (#[trigger] s[i]).port <= (#[trigger] s[j]).port
}

proof fn lemma_insert_port_sorted(x: PortRec, s: Seq<PortRec>)
    requires
        asc_by_port(s),
    ensures
        asc_by_port(spec_insert_port(x, s)),
        spec_insert_port(x, s).len() == s.len() + 1,
        forall|i: int|
            0 <= i < spec_insert_port(x, s).len() ==> ((#[trigger] spec_insert_port(x, s)[i]) == x
                || exists|j: int| 0 <= j < s.len() && spec_insert_port(x, s)[i] == s[j]),
    decreases s.len(),
{
    if s.len() == 0 {
    } else if s[0].port <= x.port {
        assert(asc_by_port(s.skip(1))) by {
            assert(forall|i: int, j: int|
                0 <= i < j < s.skip(1).len() ==> (#[trigger] s.skip(1)[i]).port <= (
                #[trigger] s.skip(1)[j]).port);
        }
        lemma_insert_port_sorted(x, s.skip(1));
        let r = seq![s[0]] + spec_insert_port(x, s.skip(1));
        assert forall|i: int, j: int| 0 <= i < j < r.len() implies (#[trigger] r[i]).port <= (
        #[trigger] r[j]).port by {
            if i > 0 {
                assert(r[i] == spec_insert_port(x, s.skip(1))[i - 1]);
                assert(r[j] == spec_insert_port(x, s.skip(1))[j - 1]);
            } else {
                assert(r[j] == spec_insert_port(x, s.skip(1))[j - 1]);
                let rj = spec_insert_port(x, s.skip(1))[j - 1];
                if rj == x {
                } else {
                    let jj = choose|jj: int|
                        0 <= jj < s.skip(1).len() && spec_insert_port(x, s.skip(1))[j - 1] == s.skip(
                            1,
                        )[jj];
                    assert(s.skip(1)[jj] == s[jj + 1]);
                }
            }
        }
        assert forall|i: int| 0 <= i < r.len() implies ((#[trigger] r[i]) == x || exists|j: int|
            0 <= j < s.len() && r[i] == s[j]) by {
            if i == 0 {
                assert(r[0] == s[0]);
            } else {
                let y = spec_insert_port(x, s.skip(1))[i - 1];
                assert(r[i] == y);
                if y == x {
                } else {
                    let jj = choose|jj: int| 0 <= jj < s.skip(1).len() && y == s.skip(1)[jj];
                    assert(y == s[jj + 1]);
                }
            }
        }
    } else {
        let r = seq![x] + s;
        assert forall|i: int| 0 <= i < r.len() implies ((#[trigger] r[i]) == x || exists|j: int|
            0 <= j < s.len() && r[i] == s[j]) by {
            if i > 0 {
                assert(r[i] == s[i - 1]);
            }
        }
    }
}

/// What both parsers return is sorted ascending by port.
pub proof fn lemma_sort_ports_sorted(s: Seq<PortRec>)
    ensures
        asc_by_port(spec_sort_ports(s)),
        spec_sort_ports(s).len() == s.len(),
    decreases s.len(),
{
    if s.len() > 0 {
        lemma_sort_ports_sorted(s.drop_last());
        lemma_insert_port_sorted(s.last(), spec_sort_ports(s.drop_last()));
    }
}

/// Insert one record into a vector kept ascending by port.
fn insert_port(r: &mut Vec<PortInfo>, x: PortInfo)
    ensures
        final(r)@.map_values(|p: PortInfo| spec_port_view(p)) == spec_insert_port(
            spec_port_view(x),
            old(r)@.map_values(|p: PortInfo| spec_port_view(p)),
        ),
{
    let ghost xv = spec_port_view(x);
    let ghost m = r@.map_values(|p: PortInfo| spec_port_view(p));
    let mut pos: usize = 0;
    proof {
        assert(m.skip(0) =~= m);
        assert(m.take(0) + spec_insert_port(xv, m.skip(0)) =~= spec_insert_port(xv, m));
    }
    while pos < r.len() && r[pos].port <= x.port
        invariant
            pos <= r@.len(),
            m == r@.map_values(|p: PortInfo| spec_port_view(p)),
            xv == spec_port_view(x),
            spec_insert_port(xv, m) == m.take(pos as int) + spec_insert_port(
                xv,
                m.skip(pos as int),
            ),
        decreases r@.len() - pos,
    {
        proof {
            let tail = m.skip(pos as int);
            assert(tail[0] == m[pos as int]);
            assert(m[pos as int].port == r@[pos as int].port);
            assert(tail.skip(1) =~= m.skip(pos + 1));
            assert(spec_insert_port(xv, tail) == seq![tail[0]] + spec_insert_port(
                xv,
                tail.skip(1),
            ));
            assert(m.take(pos as int) + (seq![tail[0]] + spec_insert_port(xv, tail.skip(1)))
                =~= m.take(pos + 1) + spec_insert_port(xv, m.skip(pos + 1)));
        }
        pos = pos + 1;
    }
    proof {
        let tail = m.skip(pos as int);
        if pos < r@.len() {
            assert(tail[0] == m[pos as int]);
            assert(m[pos as int].port == r@[pos as int].port);
            assert(spec_insert_port(xv, tail) == seq![xv] + tail);
        } else {
            assert(tail =~= Seq::<PortRec>::empty());
            assert(spec_insert_port(xv, tail) == seq![xv]);
        }
        assert(m.take(pos as int) + (seq![xv] + m.skip(pos as int)) =~= m.insert(pos as int, xv));
        assert(m.take(pos as int) + seq![xv] + m.skip(pos as int) =~= m.insert(pos as int, xv));
        assert(r@.insert(pos as int, x).map_values(|p: PortInfo| spec_port_view(p)) =~= m.insert(
            pos as int,
            xv,
        ));
    }
    r.insert(pos, x);
}

/// The sorted records of the primary tool's whole output.
pub open spec fn spec_ss_records_of(ls: Seq<Seq<u8>>) -> Seq<PortRec>
    decreases ls.len(),
{
    if ls.len() == 0 {
        Seq::empty()
    } else {
        spec_ss_records_of(ls.drop_last()) + match spec_ss_line(ls.last()) {
            Some(rec) => seq![rec],
            None => Seq::empty(),
        }
    }
}

pub open spec fn spec_ss_records(out: Seq<u8>) -> Seq<PortRec> {
    spec_ss_records_of(spec_lines(out))
}

/// Parse the primary tool's output: one record per well-formed row,
/// sorted ascending by port.
pub fn parse_ss_output(output: &[u8]) -> (r: Vec<PortInfo>)
    ensures
        r@.map_values(|p: PortInfo| spec_port_view(p)) == spec_sort_ports(spec_ss_records(output@)),
        asc_by_port(r@.map_values(|p: PortInfo| spec_port_view(p))),
{
    let ls = lines(output);
    let ghost lv = ls@.map_values(|p: Vec<u8>| p@);
    let mut sorted: Vec<PortInfo> = Vec::new();
    let mut k: usize = 0;
    proof {
        assert(lv.take(0) =~= Seq::<Seq<u8>>::empty());
    }
    while k < ls.len()
        invariant
            k <= ls@.len(),
            lv == ls@.map_values(|p: Vec<u8>| p@),
            sorted@.map_values(|p: PortInfo| spec_port_view(p)) == spec_sort_ports(
                spec_ss_records_of(lv.take(k as int)),
            ),
        decreases ls@.len() - k,
    {
        proof {
            assert(lv.take(k + 1).drop_last() =~= lv.take(k as int));
            assert(lv.take(k + 1).last() == lv[k as int]);
            assert(spec_ss_records_of(lv.take(k + 1)).drop_last() =~= spec_ss_records_of(
                lv.take(k as int),
            ) || spec_ss_records_of(lv.take(k + 1)) =~= spec_ss_records_of(lv.take(k as int)));
        }
        match ss_line(ls[k].as_slice()) {
            Some(p) => {
                proof {
                    let recs = spec_ss_records_of(lv.take(k + 1));
                    assert(recs =~= spec_ss_records_of(lv.take(k as int)) + seq![
                        spec_port_view(p),
                    ]);
                    assert(recs.drop_last() =~= spec_ss_records_of(lv.take(k as int)));
                    assert(recs.last() == spec_port_view(p));
                }
                insert_port(&mut sorted, p);
            },
            None => {
                proof {
                    assert(spec_ss_records_of(lv.take(k + 1)) =~= spec_ss_records_of(
                        lv.take(k as int),
                    ));
                }
            },
        }
        k = k + 1;
    }
    proof {
        assert(lv.take(lv.len() as int) =~= lv);
        lemma_sort_ports_sorted(spec_ss_records(output@));
    }
    sorted
}

/// The sorted records of the fallback tool's output, whose first two
/// lines are a header.
pub open spec fn spec_netstat_records_of(ls: Seq<Seq<u8>>) -> Seq<PortRec>
    decreases ls.len(),
{
    if ls.len() == 0 {
        Seq::empty()
    } else {
        spec_netstat_records_of(ls.drop_last()) + match spec_netstat_line(ls.last()) {
            Some(rec) => seq![rec],
            None => Seq::empty(),
        }
    }
}

pub open spec fn spec_netstat_records(out: Seq<u8>) -> Seq<PortRec> {
    let ls = spec_lines(out);
    if ls.len() <= 2 {
        Seq::empty()
    } else {
        spec_netstat_records_of(ls.skip(2))
    }
}

/// Parse the fallback tool's output: the two header lines are skipped,
/// then one record per well-formed row, sorted ascending by port.
pub fn parse_netstat_output(output: &[u8]) -> (r: Vec<PortInfo>)
    ensures
        r@.map_values(|p: PortInfo| spec_port_view(p)) == spec_sort_ports(
            spec_netstat_records(output@),
        ),
        asc_by_port(r@.map_values(|p: PortInfo| spec_port_view(p))),
{
    let ls = lines(output);
    let ghost lv = ls@.map_values(|p: Vec<u8>| p@);
    let mut sorted: Vec<PortInfo> = Vec::new();
    if ls.len() <= 2 {
        proof {
            lemma_sort_ports_sorted(spec_netstat_records(output@));
        }
        return sorted;
    }
    let ghost body = lv.skip(2);
    let mut k: usize = 2;
    proof {
        assert(body.take(0) =~= Seq::<Seq<u8>>::empty());
    }
    while k < ls.len()
        invariant
            2 <= k <= ls@.len(),
            2 < ls@.len(),
            lv == ls@.map_values(|p: Vec<u8>| p@),
            body == lv.skip(2),
            sorted@.map_values(|p: PortInfo| spec_port_view(p)) == spec_sort_ports(
                spec_netstat_records_of(body.take(k - 2)),
            ),
        decreases ls@.len() - k,
    {
        proof {
            assert(body.take(k - 2 + 1).drop_last() =~= body.take(k - 2));
            assert(body.take(k - 2 + 1).last() == body[k - 2]);
            assert(body[k - 2] == lv[k as int]);
        }
        match netstat_line(ls[k].as_slice()) {
            Some(p) => {
                proof {
                    let recs = spec_netstat_records_of(body.take(k - 2 + 1));
                    assert(recs =~= spec_netstat_records_of(body.take(k - 2)) + seq![
                        spec_port_view(p),
                    ]);
                    assert(recs.drop_last() =~= spec_netstat_records_of(body.take(k - 2)));
                    assert(recs.last() == spec_port_view(p));
                }
                insert_port(&mut sorted, p);
            },
            None => {
                proof {
                    assert(spec_netstat_records_of(body.take(k - 2 + 1))
                        =~= spec_netstat_records_of(body.take(k - 2)));
                }
            },
        }
        k = k + 1;
    }
    proof {
        assert(body.take(body.len() as int) =~= body);
        lemma_sort_ports_sorted(spec_netstat_records(output@));
    }
    sorted
}

/// The two-tier decision: the fallback tool runs exactly when the
/// primary tool failed or parsed to zero rows; with at least one usable
/// primary row the fallback must not run.
pub fn need_port_fallback(primary_failed: bool, primary_ports: &Vec<PortInfo>) -> (r: bool)
    ensures
        r == (primary_failed || primary_ports@.len() == 0),
{
    primary_failed || primary_ports.len() == 0
}

} // verus!
