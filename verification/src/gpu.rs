//! Parser for the GPU query tool's CSV output.
//!
//! Each output line describes one GPU as comma-space-separated fields:
//! name, index, memory total/used/free, utilization and temperature are
//! mandatory — a line with fewer than seven fields, or where any of the
//! six numeric mandatory fields fails to parse, yields no record. The
//! five trailing fields (power draw, power limit, fan speed, graphics
//! and memory clock) are optional: a `[N/A]` sentinel or a parse
//! failure leaves that field unknown without invalidating the record.

use vstd::prelude::*;
use crate::bytes::{clone_bytes, eq_bytes, lines, spec_lines, spec_split, split_by};
use crate::models::GpuInfo;
use crate::numbers::{
    parse_scaled, parse_u32, parse_u8, sat64, spec_parse_u32, spec_parse_u8, spec_scaled_val,
};

verus! {

/// The field separator of the CSV form.
pub open spec fn gpu_sep() -> Seq<u8> {
    seq![44u8, 32u8]
}

/// The sentinel the tool prints for a value it cannot report.
pub open spec fn na_sentinel() -> Seq<u8> {
    seq![91u8, 78u8, 47u8, 65u8, 93u8]
}

/// Mathematical image of one GPU record.
#[verifier::ext_equal]
pub ghost struct GpuRec {
    pub name: Seq<u8>,
    pub index: u32,
    pub memory_total_mb: u32,
    pub memory_used_mb: u32,
    pub memory_free_mb: u32,
    pub utilization_percent: u8,
    pub temperature_celsius: u8,
    pub power_draw_milli_w: Option<u64>,
    pub power_limit_milli_w: Option<u64>,
    pub fan_speed_percent: Option<u8>,
    pub graphics_clock_mhz: Option<u32>,
    pub memory_clock_mhz: Option<u32>,
}

pub open spec fn spec_gpu_view(g: GpuInfo) -> GpuRec {
    GpuRec {
        name: g.name@,
        index: g.index,
        memory_total_mb: g.memory_total_mb,
        memory_used_mb: g.memory_used_mb,
        memory_free_mb: g.memory_free_mb,
        utilization_percent: g.utilization_percent,
        temperature_celsius: g.temperature_celsius,
        power_draw_milli_w: g.power_draw_milli_w,
        power_limit_milli_w: g.power_limit_milli_w,
        fan_speed_percent: g.fan_speed_percent,
        graphics_clock_mhz: g.graphics_clock_mhz,
        memory_clock_mhz: g.memory_clock_mhz,
    }
}

/// An optional field parsed in thousandths: absent, the sentinel, or
/// unparseable all yield unknown.
pub open spec fn spec_opt_milli(parts: Seq<Seq<u8>>, i: int) -> Option<u64> {
    if i >= parts.len() || parts[i] == na_sentinel() {
        None
    } else {
        match spec_scaled_val(parts[i], 3) {
            Some(v) => Some(sat64(v)),
            None => None,
        }
    }
}

pub open spec fn spec_opt_u8(parts: Seq<Seq<u8>>, i: int) -> Option<u8> {
    if i >= parts.len() || parts[i] == na_sentinel() {
        None
    } else {
        spec_parse_u8(parts[i])
    }
}

pub open spec fn spec_opt_u32(parts: Seq<Seq<u8>>, i: int) -> Option<u32> {
    if i >= parts.len() || parts[i] == na_sentinel() {
        None
    } else {
        spec_parse_u32(parts[i])
    }
}

/// The record one CSV line yields, if any.
pub open spec fn spec_gpu_line(line: Seq<u8>) -> Option<GpuRec> {
    let parts = spec_split(line, gpu_sep());
    if parts.len() < 7 {
        None
    } else {
        match (
            spec_parse_u32(parts[1]),
            spec_parse_u32(parts[2]),
            spec_parse_u32(parts[3]),
            spec_parse_u32(parts[4]),
            spec_parse_u8(parts[5]),
            spec_parse_u8(parts[6]),
        ) {
            (
                Some(index),
                Some(memory_total_mb),
                Some(memory_used_mb),
                Some(memory_free_mb),
                Some(utilization_percent),
                Some(temperature_celsius),
            ) => Some(
                (GpuRec {
                    name: parts[0],
                    index,
                    memory_total_mb,
                    memory_used_mb,
                    memory_free_mb,
                    utilization_percent,
                    temperature_celsius,
                    power_draw_milli_w: spec_opt_milli(parts, 7),
                    power_limit_milli_w: spec_opt_milli(parts, 8),
                    fan_speed_percent: spec_opt_u8(parts, 9),
                    graphics_clock_mhz: spec_opt_u32(parts, 10),
                    memory_clock_mhz: spec_opt_u32(parts, 11),
                }),
            ),
            _ => None,
        }
    }
}

/// The records of a sequence of lines, in order, skipping lines that
/// yield none.
pub open spec fn spec_gpu_records_of(ls: Seq<Seq<u8>>) -> Seq<GpuRec>
    decreases ls.len(),
{
    if ls.len() == 0 {
        Seq::empty()
    } else {
        spec_gpu_records_of(ls.drop_last()) + match spec_gpu_line(ls.last()) {
            Some(rec) => seq![rec],
            None => Seq::empty(),
        }
    }
}

/// The records of the whole tool output.
pub open spec fn spec_gpu_records(out: Seq<u8>) -> Seq<GpuRec> {
    spec_gpu_records_of(spec_lines(out))
}

fn opt_milli(parts: &Vec<Vec<u8>>, i: usize) -> (r: Option<u64>)
    ensures
        r == spec_opt_milli(parts@.map_values(|p: Vec<u8>| p@), i as int),
{
    if i >= parts.len() {
        return None;
    }
    let na: [u8; 5] = [91, 78, 47, 65, 93];
    proof {
        assert(na@ =~= na_sentinel());
    }
    let t = &parts[i];
    if eq_bytes(t.as_slice(), &na) {
        return None;
    }
    parse_scaled(t.as_slice(), 3)
}

fn opt_u8(parts: &Vec<Vec<u8>>, i: usize) -> (r: Option<u8>)
    ensures
        r == spec_opt_u8(parts@.map_values(|p: Vec<u8>| p@), i as int),
{
    if i >= parts.len() {
        return None;
    }
    let na: [u8; 5] = [91, 78, 47, 65, 93];
    proof {
        assert(na@ =~= na_sentinel());
    }
    let t = &parts[i];
    if eq_bytes(t.as_slice(), &na) {
        return None;
    }
    parse_u8(t.as_slice())
}

fn opt_u32(parts: &Vec<Vec<u8>>, i: usize) -> (r: Option<u32>)
    ensures
        r == spec_opt_u32(parts@.map_values(|p: Vec<u8>| p@), i as int),
{
    if i >= parts.len() {
        return None;
    }
    let na: [u8; 5] = [91, 78, 47, 65, 93];
    proof {
        assert(na@ =~= na_sentinel());
    }
    let t = &parts[i];
    if eq_bytes(t.as_slice(), &na) {
        return None;
    }
    parse_u32(t.as_slice())
}

/// Parse one CSV line into a GPU record.
fn gpu_line(line: &[u8]) -> (r: Option<GpuInfo>)
    ensures
        match r {
            Some(g) => spec_gpu_line(line@) == Some(spec_gpu_view(g)),
            None => spec_gpu_line(line@) is None,
        },
{
    let sep: [u8; 2] = [44, 32];
    proof {
        assert(sep@ =~= gpu_sep());
    }
    let parts = split_by(line, &sep);
    let ghost pv = parts@.map_values(|p: Vec<u8>| p@);
    if parts.len() < 7 {
        return None;
    }
    let index = match parse_u32(parts[1].as_slice()) {
        Some(v) => v,
        None => {
            return None;
        },
    };
    let memory_total_mb = match parse_u32(parts[2].as_slice()) {
        Some(v) => v,
        None => {
            return None;
        },
    };
    let memory_used_mb = match parse_u32(parts[3].as_slice()) {
        Some(v) => v,
        None => {
            return None;
        },
    };
    let memory_free_mb = match parse_u32(parts[4].as_slice()) {
        Some(v) => v,
        None => {
            return None;
        },
    };
    let utilization_percent = match parse_u8(parts[5].as_slice()) {
        Some(v) => v,
        None => {
            return None;
        },
    };
    let temperature_celsius = match parse_u8(parts[6].as_slice()) {
        Some(v) => v,
        None => {
            return None;
        },
    };
    let g = GpuInfo {
        name: clone_bytes(&parts[0]),
        index,
        memory_total_mb,
        memory_used_mb,
        memory_free_mb,
        utilization_percent,
        temperature_celsius,
        power_draw_milli_w: opt_milli(&parts, 7),
        power_limit_milli_w: opt_milli(&parts, 8),
        fan_speed_percent: opt_u8(&parts, 9),
        graphics_clock_mhz: opt_u32(&parts, 10),
        memory_clock_mhz: opt_u32(&parts, 11),
    };
    proof {
        assert(spec_gpu_line(line@) =~= Some(spec_gpu_view(g)));
    }
    Some(g)
}

/// Parse the GPU tool's whole output: one record per valid line, and
/// no result at all when no line is valid — callers cannot tell a
/// missing tool from a machine without GPUs.
pub fn parse_nvidia_smi_output(output: &[u8]) -> (r: Option<Vec<GpuInfo>>)
    ensures
        match r {
            Some(v) => v@.map_values(|g: GpuInfo| spec_gpu_view(g)) == spec_gpu_records(output@)
                && v@.len() > 0,
            None => spec_gpu_records(output@).len() == 0,
        },
{
    let ls = lines(output);
    let ghost lv = ls@.map_values(|p: Vec<u8>| p@);
    let mut gpus: Vec<GpuInfo> = Vec::new();
    let mut k: usize = 0;
    proof {
        assert(lv.take(0) =~= Seq::<Seq<u8>>::empty());
    }
    while k < ls.len()
        invariant
            k <= ls@.len(),
            lv == ls@.map_values(|p: Vec<u8>| p@),
            gpus@.map_values(|g: GpuInfo| spec_gpu_view(g)) == spec_gpu_records_of(
                lv.take(k as int),
            ),
        decreases ls@.len() - k,
    {
        proof {
            assert(lv.take(k + 1).drop_last() =~= lv.take(k as int));
            assert(lv.take(k + 1).last() == lv[k as int]);
        }
        match gpu_line(ls[k].as_slice()) {
            Some(g) => {
                gpus.push(g);
                proof {
                    assert(gpus@.map_values(|g: GpuInfo| spec_gpu_view(g))
                        =~= gpus@.drop_last().map_values(|g: GpuInfo| spec_gpu_view(g)) + seq![
                        spec_gpu_view(gpus@.last()),
                    ]);
                }
            },
            None => {},
        }
        k = k + 1;
    }
    proof {
        assert(lv.take(lv.len() as int) =~= lv);
    }
    if gpus.len() > 0 {
        Some(gpus)
    } else {
        None
    }
}

/// A CSV line with exactly seven fields whose six numeric mandatory
/// fields parse yields exactly one record, with every optional field
/// unknown.
pub proof fn lemma_gpu_line_seven_fields(line: Seq<u8>)
    requires
        spec_split(line, gpu_sep()).len() == 7,
        spec_parse_u32(spec_split(line, gpu_sep())[1]) is Some,
        spec_parse_u32(spec_split(line, gpu_sep())[2]) is Some,
        spec_parse_u32(spec_split(line, gpu_sep())[3]) is Some,
        spec_parse_u32(spec_split(line, gpu_sep())[4]) is Some,
        spec_parse_u8(spec_split(line, gpu_sep())[5]) is Some,
        spec_parse_u8(spec_split(line, gpu_sep())[6]) is Some,
    ensures
        spec_gpu_line(line) is Some,
        ({
            let parts = spec_split(line, gpu_sep());
            let rec = spec_gpu_line(line)->Some_0;
            &&& rec.name == parts[0]
            &&& rec.index == spec_parse_u32(parts[1])->Some_0
            &&& rec.memory_total_mb == spec_parse_u32(parts[2])->Some_0
            &&& rec.memory_used_mb == spec_parse_u32(parts[3])->Some_0
            &&& rec.memory_free_mb == spec_parse_u32(parts[4])->Some_0
            &&& rec.utilization_percent == spec_parse_u8(parts[5])->Some_0
            &&& rec.temperature_celsius == spec_parse_u8(parts[6])->Some_0
            &&& rec.power_draw_milli_w is None
            &&& rec.power_limit_milli_w is None
            &&& rec.fan_speed_percent is None
            &&& rec.graphics_clock_mhz is None
            &&& rec.memory_clock_mhz is None
        }),
{
}

/// A line with fewer than seven fields produces no record.
pub proof fn lemma_gpu_line_short(line: Seq<u8>)
    requires
        spec_split(line, gpu_sep()).len() < 7,
    ensures
        spec_gpu_line(line) is None,
{
}

/// The sentinel in the power-draw field leaves that field unknown
/// without invalidating the record.
pub proof fn lemma_gpu_line_na_power(line: Seq<u8>)
    requires
        spec_split(line, gpu_sep()).len() >= 8,
        spec_split(line, gpu_sep())[7] == na_sentinel(),
        spec_gpu_line(line) is Some,
    ensures
        spec_gpu_line(line)->Some_0.power_draw_milli_w is None,
{
}

} // verus!
