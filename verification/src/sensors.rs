//! Parser for the thermal/power sensor tool's free-form output.
//!
//! The tool's output is not a strict grammar, so the parse is
//! line-oriented and heuristic. The CPU temperature is the maximum over
//! every line that carries a known CPU marker and a degrees-Celsius
//! suffix; power is taken from lines with a power marker and a Watts
//! suffix that carry no alarm marker, and there the last parsed line
//! wins. The two heuristics are deliberately asymmetric.

use vstd::prelude::*;
use crate::bytes::{
    contains_sub, find_byte, find_sub, lines, rfind_byte, spec_contains, spec_find_byte,
    spec_find_sub, spec_lines, spec_rfind_byte, spec_trim, sub_vec, trim,
};
use crate::numbers::{parse_scaled, sat64, spec_scaled_val};

verus! {

/// The degree sign in the tool's UTF-8 output.
pub open spec fn degree_seq() -> Seq<u8> {
    seq![194u8, 176u8]
}

/// Whether a (trimmed) line reports a CPU temperature: one of the CPU
/// aggregate markers together with a degrees-Celsius suffix.
pub open spec fn spec_is_temp_line(l: Seq<u8>) -> bool {
    &&& (spec_contains(l, seq![67u8, 111u8, 114u8, 101u8])  // Core
        || spec_contains(l, seq![84u8, 99u8, 116u8, 108u8])  // Tctl
        || spec_contains(l, seq![84u8, 100u8, 105u8, 101u8])  // Tdie
        || spec_contains(l, seq![80u8, 97u8, 99u8, 107u8, 97u8, 103u8, 101u8]))  // Package
    &&& spec_contains(l, degree_seq() + seq![67u8])  // degrees Celsius
}

/// The temperature on one line, in thousandths of a degree: the text
/// between the first plus sign and the next one (or the line's end),
/// cut before the degree sign.
pub open spec fn spec_line_temp(l: Seq<u8>) -> Option<u64> {
    if !spec_is_temp_line(l) {
        None
    } else {
        match spec_find_byte(l, 43, 0) {
            Some(p) => {
                let end = match spec_find_byte(l, 43, p + 1) {
                    Some(q) => q,
                    None => l.len() as int,
                };
                let seg = l.subrange(p + 1, end);
                let num = match spec_find_sub(seg, degree_seq(), 0) {
                    Some(i) => seg.take(i),
                    None => seg,
                };
                match spec_scaled_val(spec_trim(num), 3) {
                    Some(v) => Some(sat64(v)),
                    None => None,
                }
            },
            None => None,
        }
    }
}

/// Whether a (trimmed) line reports power: a power marker and a Watts
/// suffix, and no alarm marker.
pub open spec fn spec_is_power_line(l: Seq<u8>) -> bool {
    &&& (spec_contains(l, seq![112u8, 111u8, 119u8, 101u8, 114u8])  // power
        || spec_contains(l, seq![80u8, 111u8, 119u8, 101u8, 114u8])  // Power
        || spec_contains(l, seq![80u8, 80u8, 84u8]))  // PPT
    &&& spec_contains(l, seq![87u8])  // Watts
    &&& !spec_contains(l, seq![65u8, 76u8, 65u8, 82u8, 77u8])  // ALARM
}

/// The power on one line, in thousandths of a Watt: the first
/// whitespace-delimited token after the last colon.
pub open spec fn spec_line_power(l: Seq<u8>) -> Option<u64> {
    if !spec_is_power_line(l) {
        None
    } else {
        match spec_rfind_byte(l, 58) {
            Some(c) => {
                let t = spec_trim(l.subrange(c + 1, l.len() as int));
                let tok = match spec_find_byte(t, 32, 0) {
                    Some(i) => t.take(i),
                    None => t,
                };
                match spec_scaled_val(tok, 3) {
                    Some(v) => Some(sat64(v)),
                    None => None,
                }
            },
            None => None,
        }
    }
}

/// The reading of a whole output: temperature is the maximum over all
/// matching lines, power is the last matching line.
pub open spec fn spec_sensors_of(ls: Seq<Seq<u8>>) -> (Option<u64>, Option<u64>)
    decreases ls.len(),
{
    if ls.len() == 0 {
        (None, None)
    } else {
        let pre = spec_sensors_of(ls.drop_last());
        let tl = spec_trim(ls.last());
        let temp = match spec_line_temp(tl) {
            Some(t) => match pre.0 {
                Some(o) => if o >= t {
                    Some(o)
                } else {
                    Some(t)
                },
                None => Some(t),
            },
            None => pre.0,
        };
        let power = match spec_line_power(tl) {
            Some(p) => Some(p),
            None => pre.1,
        };
        (temp, power)
    }
}

pub open spec fn spec_sensors(out: Seq<u8>) -> (Option<u64>, Option<u64>) {
    spec_sensors_of(spec_lines(out))
}

fn line_temp(tl: &[u8]) -> (r: Option<u64>)
    ensures
        r == spec_line_temp(tl@),
{
    let core_m: [u8; 4] = [67, 111, 114, 101];
    let tctl_m: [u8; 4] = [84, 99, 116, 108];
    let tdie_m: [u8; 4] = [84, 100, 105, 101];
    let pkg_m: [u8; 7] = [80, 97, 99, 107, 97, 103, 101];
    let degc: [u8; 3] = [194, 176, 67];
    let deg: [u8; 2] = [194, 176];
    proof {
        assert(core_m@ =~= seq![67u8, 111u8, 114u8, 101u8]);
        assert(tctl_m@ =~= seq![84u8, 99u8, 116u8, 108u8]);
        assert(tdie_m@ =~= seq![84u8, 100u8, 105u8, 101u8]);
        assert(pkg_m@ =~= seq![80u8, 97u8, 99u8, 107u8, 97u8, 103u8, 101u8]);
        assert(degc@ =~= degree_seq() + seq![67u8]);
        assert(deg@ =~= degree_seq());
    }
    let marked = contains_sub(tl, &core_m) || contains_sub(tl, &tctl_m) || contains_sub(tl, &tdie_m)
        || contains_sub(tl, &pkg_m);
    if !(marked && contains_sub(tl, &degc)) {
        return None;
    }
    let n = tl.len();
    match find_byte(tl, 43, 0) {
        Some(p) => {
            let end = match find_byte(tl, 43, p + 1) {
                Some(q) => q,
                None => n,
            };
            let seg = sub_vec(tl, p + 1, end);
            let num = match find_sub(seg.as_slice(), &deg, 0) {
                Some(i) => sub_vec(seg.as_slice(), 0, i),
                None => {
                    let w = sub_vec(seg.as_slice(), 0, seg.len());
                    proof {
                        assert(seg@.subrange(0, seg@.len() as int) =~= seg@);
                    }
                    w
                },
            };
            proof {
                assert(seg@.subrange(0, seg@.len() as int) =~= seg@);
                if spec_find_sub(seg@, degree_seq(), 0) is Some {
                    let i = spec_find_sub(seg@, degree_seq(), 0)->Some_0;
                    assert(seg@.subrange(0, i) =~= seg@.take(i));
                }
            }
            let t = trim(num.as_slice());
            parse_scaled(t.as_slice(), 3)
        },
        None => None,
    }
}

fn line_power(tl: &[u8]) -> (r: Option<u64>)
    ensures
        r == spec_line_power(tl@),
{
    let power_m: [u8; 5] = [112, 111, 119, 101, 114];
    let cap_power_m: [u8; 5] = [80, 111, 119, 101, 114];
    let ppt_m: [u8; 3] = [80, 80, 84];
    let watts_m: [u8; 1] = [87];
    let alarm_m: [u8; 5] = [65, 76, 65, 82, 77];
    proof {
        assert(power_m@ =~= seq![112u8, 111u8, 119u8, 101u8, 114u8]);
        assert(cap_power_m@ =~= seq![80u8, 111u8, 119u8, 101u8, 114u8]);
        assert(ppt_m@ =~= seq![80u8, 80u8, 84u8]);
        assert(watts_m@ =~= seq![87u8]);
        assert(alarm_m@ =~= seq![65u8, 76u8, 65u8, 82u8, 77u8]);
    }
    let marked = contains_sub(tl, &power_m) || contains_sub(tl, &cap_power_m) || contains_sub(
        tl,
        &ppt_m,
    );
    if !(marked && contains_sub(tl, &watts_m) && !contains_sub(tl, &alarm_m)) {
        return None;
    }
    let n = tl.len();
    match rfind_byte(tl, 58) {
        Some(c) => {
            let part = sub_vec(tl, c + 1, n);
            let t = trim(part.as_slice());
            let tok = match find_byte(t.as_slice(), 32, 0) {
                Some(i) => sub_vec(t.as_slice(), 0, i),
                None => {
                    let w = sub_vec(t.as_slice(), 0, t.len());
                    proof {
                        assert(t@.subrange(0, t@.len() as int) =~= t@);
                    }
                    w
                },
            };
            proof {
                if spec_find_byte(t@, 32, 0) is Some {
                    let i = spec_find_byte(t@, 32, 0)->Some_0;
                    assert(t@.subrange(0, i) =~= t@.take(i));
                }
            }
            parse_scaled(tok.as_slice(), 3)
        },
        None => None,
    }
}

/// Parse the sensor tool's whole output into the optional CPU
/// temperature (maximum across matching lines) and power draw (last
/// matching line), both in thousandths of their unit. Either side is
/// absent when no line matched and parsed.
pub fn parse_sensors_output(output: &[u8]) -> (r: (Option<u64>, Option<u64>))
    ensures
        r == spec_sensors(output@),
{
    let ls = lines(output);
    let ghost lv = ls@.map_values(|p: Vec<u8>| p@);
    let mut temperature: Option<u64> = None;
    let mut power: Option<u64> = None;
    let mut k: usize = 0;
    proof {
        assert(lv.take(0) =~= Seq::<Seq<u8>>::empty());
    }
    while k < ls.len()
        invariant
            k <= ls@.len(),
            lv == ls@.map_values(|p: Vec<u8>| p@),
            (temperature, power) == spec_sensors_of(lv.take(k as int)),
        decreases ls@.len() - k,
    {
        proof {
            assert(lv.take(k + 1).drop_last() =~= lv.take(k as int));
            assert(lv.take(k + 1).last() == lv[k as int]);
        }
        let tl = trim(ls[k].as_slice());
        match line_temp(tl.as_slice()) {
            Some(t) => {
                temperature = match temperature {
                    Some(o) => if o >= t {
                        Some(o)
                    } else {
                        Some(t)
                    },
                    None => Some(t),
                };
            },
            None => {},
        }
        match line_power(tl.as_slice()) {
            Some(p) => {
                power = Some(p);
            },
            None => {},
        }
        k = k + 1;
    }
    proof {
        assert(lv.take(lv.len() as int) =~= lv);
    }
    (temperature, power)
}

} // verus!
