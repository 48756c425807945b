//! The Apple HID vendor brightness protocol: scaling between percentages and
//! a model's native brightness units, and the layout of the feature report.

use vstd::prelude::*;
use vstd::arithmetic::div_mod::{lemma_div_is_ordered, lemma_fundamental_div_mod, lemma_mod_bound};

use crate::devices::DeviceSpec;

verus! {

/// Size in bytes of the brightness feature report.
pub const REPORT_SIZE: usize = 7;

/// Report id of the brightness feature report.
pub const REPORT_ID: u8 = 1;

/// A percentage clamped to [0, 100].
pub open spec fn clamp_percent(p: int) -> int {
    if p > 100 {
        100
    } else if p < 0 {
        0
    } else {
        p
    }
}

/// Width of a protocol range; an empty or inverted range has width 0.
pub open spec fn range_width(min: int, max: int) -> int {
    if max > min {
        max - min
    } else {
        0
    }
}

/// Native value for a percentage: `min + floor((max - min) * p / 100)`, with
/// the percentage first clamped to 100.
pub open spec fn spec_percentage_to_native(min: int, max: int, p: int) -> int {
    min + range_width(min, max) * clamp_percent(p) / 100
}

/// Percentage for a native value: 0 at or below `min`, 100 at or above `max`,
/// `floor((v - min) * 100 / (max - min))` in between.
pub open spec fn spec_native_to_percentage(min: int, max: int, v: int) -> int {
    if v <= min {
        0
    } else if v >= max {
        100
    } else {
        (v - min) * 100 / (max - min)
    }
}

/// The feature report that sets native value `v`: report id, `v` in four
/// little-endian bytes, two bytes of padding.
pub open spec fn spec_report_bytes(v: u32) -> Seq<u8> {
    seq![
        REPORT_ID,
        (v % 256) as u8,
        ((v / 256) % 256) as u8,
        ((v / 65536) % 256) as u8,
        (v / 16777216) as u8,
        0u8,
        0u8,
    ]
}

/// The feature report that sets `percentage` on a display of model `spec`.
pub open spec fn spec_report_for(spec: DeviceSpec, percentage: u16) -> Seq<u8> {
    spec_report_bytes(
        spec_percentage_to_native(
            spec.min_brightness_value as int,
            spec.max_brightness_value as int,
            percentage as int,
        ) as u32,
    )
}

/// The request that reads the brightness: the report id, then zeros.
pub open spec fn spec_request_bytes() -> Seq<u8> {
    seq![REPORT_ID, 0u8, 0u8, 0u8, 0u8, 0u8, 0u8]
}

/// Native value of a report's brightness bytes (little-endian).
pub open spec fn spec_le_u32(b0: u8, b1: u8, b2: u8, b3: u8) -> int {
    b0 as int + 256 * b1 as int + 65536 * b2 as int + 16777216 * b3 as int
}

proof fn lemma_scaled_within_range(range: int, p: int)
    requires
        range >= 0,
        0 <= p <= 100,
    ensures
        0 <= range * p / 100 <= range,
{
    assert(0 <= range * p <= range * 100) by (nonlinear_arith)
        requires
            range >= 0,
            0 <= p <= 100,
    ;
    lemma_div_is_ordered(0, range * p, 100);
    lemma_div_is_ordered(range * p, range * 100, 100);
    assert(range * 100 / 100 == range);
}

impl DeviceSpec {
    /// Converts a percentage to this model's native brightness value.
    pub fn percentage_to_protocol_value(&self, percentage: u16) -> (r: u32)
        ensures
            r as int == spec_percentage_to_native(
                self.min_brightness_value as int,
                self.max_brightness_value as int,
                percentage as int,
            ),
            self.min_brightness_value <= r,
            self.wf() ==> r <= self.max_brightness_value,
    {
        let p: u16 = if percentage > 100 {
            100
        } else {
            percentage
        };
        let range: u32 = if self.max_brightness_value > self.min_brightness_value {
            self.max_brightness_value - self.min_brightness_value
        } else {
            0
        };
        proof {
            lemma_scaled_within_range(range as int, p as int);
            assert((range as u64) * (p as u64) <= (range as u64) * 100) by (nonlinear_arith)
                requires
                    p <= 100,
            ;
        }
        let scaled: u64 = (range as u64) * (p as u64) / 100;
        (self.min_brightness_value as u64 + scaled) as u32
    }

    /// Converts a native brightness value of this model to a percentage.
    pub fn protocol_value_to_percentage(&self, value: u32) -> (r: u16)
        ensures
            r as int == spec_native_to_percentage(
                self.min_brightness_value as int,
                self.max_brightness_value as int,
                value as int,
            ),
            r <= 100,
    {
        let min_value = self.min_brightness_value;
        let max_value = self.max_brightness_value;
        if value <= min_value {
            return 0;
        }
        if value >= max_value {
            return 100;
        }
        let range = self.brightness_range();
        let d: u64 = (value - min_value) as u64;
        proof {
            lemma_fundamental_div_mod(d * 100, range as int);
            lemma_mod_bound(d * 100, range as int);
            lemma_div_is_ordered(d * 100, range * 100, range as int);
            assert((range * 100) / (range as int) == 100) by {
                lemma_fundamental_div_mod(range * 100, range as int);
                lemma_mod_bound(range * 100, range as int);
                assert((range as int) * ((range * 100) / (range as int)) <= range * 100);
                assert((range * 100) / (range as int) <= 100) by (nonlinear_arith)
                    requires
                        (range as int) * ((range * 100) / (range as int)) <= range * 100,
                        range > 0,
                ;
                assert((range * 100) / (range as int) >= 100) by (nonlinear_arith)
                    requires
                        range * 100 == (range as int) * ((range * 100) / (range as int)) + (range
                            * 100) % (range as int),
                        (range * 100) % (range as int) < range,
                        range > 0,
                ;
            }
        }
        ((d * 100) / (range as u64)) as u16
    }
}

/// Within `[min, max]`, converting a native value to a percentage and back
/// lands at most one percentage step (`(max - min) / 100` native units) below
/// the value; and a percentage is always in [0, 100], whatever the value.
pub proof fn lemma_native_round_trip(min: u32, max: u32, v: u32)
    requires
        min < max,
    ensures
        0 <= spec_native_to_percentage(min as int, max as int, v as int) <= 100,
        min <= v <= max ==> {
            let n = spec_percentage_to_native(
                min as int,
                max as int,
                spec_native_to_percentage(min as int, max as int, v as int),
            );
            &&& n <= v
            &&& 100 * (v - n) < (max - min) + 100
            &&& (v == min || v == max) ==> n == v
        },
{
    let range = max - min;
    let d = v - min;
    if min < v < max {
        let p = d * 100 / range;
        lemma_fundamental_div_mod(d * 100, range);
        lemma_mod_bound(d * 100, range);
        lemma_div_is_ordered(d * 100, range * 100, range);
        lemma_fundamental_div_mod(range * 100, range);
        lemma_mod_bound(range * 100, range);
        assert(p <= 100) by (nonlinear_arith)
            requires
                p == d * 100 / range,
                d < range,
                range > 0,
                d * 100 == range * p + (d * 100) % range,
                (d * 100) % range >= 0,
        ;
        assert(p >= 0) by (nonlinear_arith)
            requires
                p == d * 100 / range,
                d > 0,
                range > 0,
                d * 100 == range * p + (d * 100) % range,
                (d * 100) % range < range,
        ;
        let q = range * p / 100;
        lemma_fundamental_div_mod(range * p, 100);
        lemma_mod_bound(range * p, 100);
        assert(clamp_percent(p) == p);
        assert(spec_native_to_percentage(min as int, max as int, v as int) == p);
        assert(spec_percentage_to_native(min as int, max as int, p) == min + q);
        assert(d >= q && 100 * (d - q) < range + 100) by (nonlinear_arith)
            requires
                d * 100 == range * p + (d * 100) % range,
                0 <= (d * 100) % range < range,
                range * p == 100 * q + (range * p) % 100,
                0 <= (range * p) % 100 < 100,
        ;
    } else if v <= min {
        assert(range * 0 == 0);
    } else {
        assert(range * 100 / 100 == range);
    }
}

/// Where the width of the range is a multiple of 100 (as for every model in
/// the device table), a percentage survives the trip to native units and
/// back unchanged.
pub proof fn lemma_percentage_round_trip(min: u32, max: u32, p: u16)
    requires
        min < max,
        (max - min) % 100 == 0,
        p <= 100,
    ensures
        spec_native_to_percentage(
            min as int,
            max as int,
            spec_percentage_to_native(min as int, max as int, p as int),
        ) == p,
{
    let range = max - min;
    let step = range / 100;
    lemma_fundamental_div_mod(range as int, 100);
    assert(range * p == 100 * (step * p)) by (nonlinear_arith)
        requires
            range == 100 * step,
    ;
    assert((100 * (step * p)) / 100 == step * p);
    let n = min + step * p;
    if p == 0 {
    } else if p == 100 {
        assert(step * 100 == range);
    } else {
        assert(step * p < range && step * p > 0) by (nonlinear_arith)
            requires
                range == 100 * step,
                0 < p < 100,
                range > 0,
        ;
        assert((step * p) * 100 == range * p) by (nonlinear_arith)
            requires
                range == 100 * step,
        ;
        assert(range * p / range == p) by {
            lemma_fundamental_div_mod(range * p, range as int);
            lemma_mod_bound(range * p, range as int);
            assert(range * p / range == p) by (nonlinear_arith)
                requires
                    range * p == range * (range * p / range) + (range * p) % range,
                    0 <= (range * p) % range < range,
                    range > 0,
            ;
        }
    }
}

/// For any range at least 100 native units wide, a percentage taken to
/// native units and back comes out unchanged or one lower. (On narrower
/// ranges several percentages share one native value, and the bound fails:
/// on a range of width 1, 50% reads back as 0%.)
pub proof fn lemma_percentage_round_trip_general(min: u32, max: u32, p: u16)
    requires
        min < max,
        max - min >= 100,
        p <= 100,
    ensures
        p - 1 <= spec_native_to_percentage(
            min as int,
            max as int,
            spec_percentage_to_native(min as int, max as int, p as int),
        ) <= p,
{
    let range = (max - min) as int;
    let q = range * p / 100;
    lemma_fundamental_div_mod(range * p, 100);
    lemma_mod_bound(range * p, 100);
    assert(spec_percentage_to_native(min as int, max as int, p as int) == min + q);
    if q == 0 {
        assert(p == 0) by (nonlinear_arith)
            requires
                range * p == 100 * q + (range * p) % 100,
                (range * p) % 100 < 100,
                q == 0,
                range >= 100,
                p >= 0,
        ;
    } else if q >= range {
        assert(p == 100) by (nonlinear_arith)
            requires
                range * p == 100 * q + (range * p) % 100,
                (range * p) % 100 >= 0,
                q >= range,
                range > 0,
                p <= 100,
        ;
        assert(range * 100 / 100 == range);
    } else {
        assert(q > 0);
        let t = q * 100 / range;
        lemma_fundamental_div_mod(q * 100, range);
        lemma_mod_bound(q * 100, range);
        assert(t <= p && t >= p - 1) by (nonlinear_arith)
            requires
                q * 100 == range * t + (q * 100) % range,
                0 <= (q * 100) % range < range,
                range * p == 100 * q + (range * p) % 100,
                0 <= (range * p) % 100 < 100,
                range >= 100,
        ;
    }
}

/// Builds the feature report that sets a native brightness value: report id,
/// the value in four little-endian bytes, two bytes of padding.
pub fn brightness_report(value: u32) -> (r: [u8; 7])
    ensures
        r@ == spec_report_bytes(value),
        r@.len() == REPORT_SIZE,
        r@[0] == REPORT_ID,
        spec_le_u32(r@[1], r@[2], r@[3], r@[4]) == value,
        r@[5] == 0,
        r@[6] == 0,
{
    let b0 = (value % 256) as u8;
    let b1 = ((value / 256) % 256) as u8;
    let b2 = ((value / 65536) % 256) as u8;
    let b3 = (value / 16777216) as u8;
    let r = [REPORT_ID, b0, b1, b2, b3, 0, 0];
    assert(r@ =~= spec_report_bytes(value));
    r
}

/// An empty report buffer carrying the brightness report id, for reading.
pub fn brightness_request() -> (r: [u8; 7])
    ensures
        r@ == spec_request_bytes(),
        r@.len() == REPORT_SIZE,
        r@[0] == REPORT_ID,
        forall|i: int| 1 <= i < 7 ==> r@[i] == 0,
{
    let r = [REPORT_ID, 0, 0, 0, 0, 0, 0];
    assert(r@ =~= spec_request_bytes());
    r
}

/// Reads the native brightness value out of a feature report.
pub fn report_value(buf: &[u8; 7]) -> (r: u32)
    ensures
        r as int == spec_le_u32(buf@[1], buf@[2], buf@[3], buf@[4]),
{
    buf[1] as u32 + (buf[2] as u32) * 256 + (buf[3] as u32) * 65536 + (buf[4] as u32) * 16777216
}

} // verus!
