//! Piecewise-linear interpolation over a speed curve.

use crate::fan_config::SpeedPoint;
use vstd::arithmetic::div_mod::{lemma_div_is_ordered, lemma_div_multiples_vanish};
use vstd::arithmetic::mul::{lemma_mul_inequality, lemma_mul_is_commutative};
use vstd::prelude::*;

verus! {

/// The duty on the segment from `a` to `b` at temperature `t`.
///
/// On a segment of positive width the duty moves linearly from `a.speed` to
/// `b.speed`; the fractional part of the offset from `a.speed` is dropped, so
/// the result never leaves the interval between the two speeds. A segment of
/// zero width has the duty of its first point.
pub open spec fn segment_duty(a: SpeedPoint, b: SpeedPoint, t: int) -> int {
    let run = b.temp - a.temp;
    let rise = b.speed - a.speed;
    let offset = t - a.temp;
    if run <= 0 {
        a.speed as int
    } else if rise >= 0 {
        a.speed + (offset * rise) / run
    } else {
        a.speed - (offset * (-rise)) / run
    }
}

/// Segment `i` of the curve, from point `i` to point `i + 1`, encloses `t`.
pub open spec fn brackets(curve: Seq<SpeedPoint>, i: int, t: int) -> bool {
    0 <= i && i + 1 < curve.len() && curve[i].temp <= t <= curve[i + 1].temp
}

/// The duty of the first segment at or after index `i` that encloses `t`, or
/// the last point's speed when no such segment exists.
pub open spec fn scan_from(curve: Seq<SpeedPoint>, t: int, i: int) -> int
    recommends
        0 <= i,
        curve.len() > 0,
    decreases curve.len() - i,
{
    if i < 0 || i + 1 >= curve.len() {
        curve.last().speed as int
    } else if brackets(curve, i, t) {
        segment_duty(curve[i], curve[i + 1], t)
    } else {
        scan_from(curve, t, i + 1)
    }
}

/// The duty that a curve assigns to a temperature.
///
/// An empty curve gives 0. At or below the first point the duty is the first
/// point's speed, at or above the last point it is the last point's speed,
/// and in between it is interpolated on the first enclosing segment.
pub open spec fn duty_at(curve: Seq<SpeedPoint>, t: int) -> int {
    if curve.len() == 0 {
        0
    } else if t <= curve[0].temp {
        curve[0].speed as int
    } else if t >= curve.last().temp {
        curve.last().speed as int
    } else {
        scan_from(curve, t, 0)
    }
}

proof fn lemma_scaled_quotient_bounded(offset: int, rise: int, run: int)
    requires
        0 <= offset <= run,
        0 < run,
        0 <= rise,
    ensures
        0 <= (offset * rise) / run <= rise,
        0 <= offset * rise <= run * rise,
{
    lemma_mul_inequality(offset, run, rise);
    assert(0 <= offset * rise) by (nonlinear_arith)
        requires
            0 <= offset,
            0 <= rise,
    ;
    lemma_div_is_ordered(offset * rise, run * rise, run);
    lemma_mul_is_commutative(run, rise);
    lemma_div_multiples_vanish(rise, run);
    lemma_div_is_ordered(0, offset * rise, run);
}

/// The duty on a segment lies between the speeds of its two end points.
pub proof fn lemma_segment_duty_between(a: SpeedPoint, b: SpeedPoint, t: int)
    requires
        a.temp <= t <= b.temp,
    ensures
        a.speed <= b.speed ==> a.speed <= segment_duty(a, b, t) <= b.speed,
        a.speed >= b.speed ==> b.speed <= segment_duty(a, b, t) <= a.speed,
{
    let run = b.temp - a.temp;
    let rise = b.speed - a.speed;
    if run > 0 {
        if rise >= 0 {
            lemma_scaled_quotient_bounded(t - a.temp, rise, run);
        } else {
            lemma_scaled_quotient_bounded(t - a.temp, -rise, run);
        }
    }
}

/// The smallest speed among the points of a non-empty curve.
pub open spec fn min_speed(curve: Seq<SpeedPoint>) -> int
    recommends
        curve.len() > 0,
    decreases curve.len(),
{
    if curve.len() <= 1 {
        curve[0].speed as int
    } else {
        let rest = min_speed(curve.drop_last());
        if curve.last().speed < rest {
            curve.last().speed as int
        } else {
            rest
        }
    }
}

/// The largest speed among the points of a non-empty curve.
pub open spec fn max_speed(curve: Seq<SpeedPoint>) -> int
    recommends
        curve.len() > 0,
    decreases curve.len(),
{
    if curve.len() <= 1 {
        curve[0].speed as int
    } else {
        let rest = max_speed(curve.drop_last());
        if curve.last().speed > rest {
            curve.last().speed as int
        } else {
            rest
        }
    }
}

/// Temperatures never fall along the curve.
pub open spec fn temps_nondecreasing(curve: Seq<SpeedPoint>) -> bool {
    forall|i: int, j: int| 0 <= i <= j < curve.len() ==> curve[i].temp <= curve[j].temp
}

/// Speeds never fall along the curve.
pub open spec fn speeds_nondecreasing(curve: Seq<SpeedPoint>) -> bool {
    forall|i: int, j: int| 0 <= i <= j < curve.len() ==> curve[i].speed <= curve[j].speed
}

/// Every point's speed lies between `min_speed` and `max_speed`.
pub proof fn lemma_speed_bounds(curve: Seq<SpeedPoint>, i: int)
    requires
        0 <= i < curve.len(),
    ensures
        min_speed(curve) <= curve[i].speed <= max_speed(curve),
    decreases curve.len(),
{
    if curve.len() > 1 && i < curve.len() - 1 {
        lemma_speed_bounds(curve.drop_last(), i);
    }
}

/// `min_speed` and `max_speed` are speeds of points of the curve.
pub proof fn lemma_speed_bounds_attained(curve: Seq<SpeedPoint>) -> (at: (int, int))
    requires
        curve.len() > 0,
    ensures
        0 <= at.0 < curve.len(),
        0 <= at.1 < curve.len(),
        curve[at.0].speed == min_speed(curve),
        curve[at.1].speed == max_speed(curve),
    decreases curve.len(),
{
    if curve.len() <= 1 {
        (0, 0)
    } else {
        let rest = lemma_speed_bounds_attained(curve.drop_last());
        let last = curve.len() - 1;
        (
            if curve.last().speed < min_speed(curve.drop_last()) {
                last
            } else {
                rest.0
            },
            if curve.last().speed > max_speed(curve.drop_last()) {
                last
            } else {
                rest.1
            },
        )
    }
}

proof fn lemma_scan_within_range(curve: Seq<SpeedPoint>, t: int, i: int)
    requires
        curve.len() > 0,
        0 <= i,
    ensures
        min_speed(curve) <= scan_from(curve, t, i) <= max_speed(curve),
    decreases curve.len() - i,
{
    if i + 1 >= curve.len() {
        lemma_speed_bounds(curve, curve.len() - 1);
    } else if brackets(curve, i, t) {
        lemma_segment_duty_between(curve[i], curve[i + 1], t);
        lemma_speed_bounds(curve, i);
        lemma_speed_bounds(curve, i + 1);
    } else {
        lemma_scan_within_range(curve, t, i + 1);
    }
}

/// The duty of a non-empty curve at any temperature lies between the
/// smallest and the largest speed of its points.
pub proof fn lemma_duty_within_range(curve: Seq<SpeedPoint>, t: int)
    requires
        curve.len() > 0,
    ensures
        min_speed(curve) <= duty_at(curve, t) <= max_speed(curve),
{
    lemma_speed_bounds(curve, 0);
    lemma_speed_bounds(curve, curve.len() - 1);
    lemma_scan_within_range(curve, t, 0);
}

/// Outside the curve the duty is clamped: at or below the first point it is
/// the first point's speed, and above the first point and at or above the
/// last point it is the last point's speed.
pub proof fn lemma_duty_clamps(curve: Seq<SpeedPoint>, t: int)
    requires
        curve.len() > 0,
    ensures
        t <= curve[0].temp ==> duty_at(curve, t) == curve[0].speed,
        t > curve[0].temp && t >= curve.last().temp ==> duty_at(curve, t) == curve.last().speed,
        temps_nondecreasing(curve) && t > curve.last().temp ==> duty_at(curve, t)
            == curve.last().speed,
{
}

/// Strictly inside a curve some segment encloses the temperature, and the
/// duty is that of the first such segment, whose index is returned.
pub proof fn lemma_duty_on_first_bracket(curve: Seq<SpeedPoint>, t: int) -> (k: int)
    requires
        curve.len() > 0,
        curve[0].temp < t < curve.last().temp,
    ensures
        brackets(curve, k, t),
        forall|j: int| 0 <= j < k ==> !brackets(curve, j, t),
        duty_at(curve, t) == segment_duty(curve[k], curve[k + 1], t),
{
    let k = lemma_scan_finds(curve, t, 0);
    lemma_scan_skips(curve, t, 0, k);
    k
}

proof fn lemma_scan_finds(curve: Seq<SpeedPoint>, t: int, i: int) -> (k: int)
    requires
        0 <= i,
        i + 1 < curve.len(),
        curve[i].temp <= t < curve.last().temp,
    ensures
        i <= k,
        brackets(curve, k, t),
        forall|j: int| i <= j < k ==> !brackets(curve, j, t),
    decreases curve.len() - i,
{
    if brackets(curve, i, t) {
        i
    } else {
        lemma_scan_finds(curve, t, i + 1)
    }
}

proof fn lemma_scan_skips(curve: Seq<SpeedPoint>, t: int, i: int, k: int)
    requires
        curve.len() > 0,
        0 <= i <= k < curve.len(),
        forall|j: int| i <= j < k ==> !brackets(curve, j, t),
    ensures
        scan_from(curve, t, i) == scan_from(curve, t, k),
    decreases k - i,
{
    if i < k {
        lemma_scan_skips(curve, t, i + 1, k);
    }
}

proof fn lemma_first_bracket(curve: Seq<SpeedPoint>, t: int, i: int) -> (k: int)
    requires
        temps_nondecreasing(curve),
        0 <= i,
        i + 1 < curve.len(),
        curve[i].temp < t <= curve.last().temp,
    ensures
        i <= k,
        k + 1 < curve.len(),
        curve[k].temp < t <= curve[k + 1].temp,
        scan_from(curve, t, i) == segment_duty(curve[k], curve[k + 1], t),
    decreases curve.len() - i,
{
    if t <= curve[i + 1].temp {
        i
    } else {
        lemma_first_bracket(curve, t, i + 1)
    }
}

proof fn lemma_segment_duty_monotonic(a: SpeedPoint, b: SpeedPoint, t1: int, t2: int)
    requires
        a.temp < t1 <= t2 <= b.temp,
        a.speed <= b.speed,
    ensures
        segment_duty(a, b, t1) <= segment_duty(a, b, t2),
{
    let run = b.temp - a.temp;
    let rise = b.speed - a.speed;
    lemma_mul_inequality(t1 - a.temp, t2 - a.temp, rise);
    lemma_div_is_ordered((t1 - a.temp) * rise, (t2 - a.temp) * rise, run);
}

/// Point `i` takes part in the duties of the curve: it is the first or the
/// last point, or an end of a segment of positive width.
pub open spec fn decisive(curve: Seq<SpeedPoint>, i: int) -> bool {
    &&& 0 <= i < curve.len()
    &&& (i == 0 || i == curve.len() - 1 || curve[i - 1].temp < curve[i].temp || curve[i].temp
        < curve[i + 1].temp)
}

/// Speeds never fall from one decisive point to a later one.
pub open spec fn decisive_speeds_nondecreasing(curve: Seq<SpeedPoint>) -> bool {
    forall|i: int, j: int|
        0 <= i <= j < curve.len() && decisive(curve, i) && decisive(curve, j) ==> curve[i].speed
            <= curve[j].speed
}

proof fn lemma_duty_between_ends(curve: Seq<SpeedPoint>, t: int)
    requires
        curve.len() > 0,
        temps_nondecreasing(curve),
        decisive_speeds_nondecreasing(curve),
    ensures
        curve[0].speed <= duty_at(curve, t) <= curve.last().speed,
{
    let last = curve.len() - 1;
    assert(decisive(curve, 0) && decisive(curve, last));
    if curve[0].temp < t < curve.last().temp {
        let k = lemma_first_bracket(curve, t, 0);
        assert(decisive(curve, k) && decisive(curve, k + 1));
        lemma_segment_duty_between(curve[k], curve[k + 1], t);
    }
}

/// On a curve whose temperatures never fall, and whose speeds never fall
/// from one decisive point to a later one, a higher temperature never gets a
/// lower duty.
pub proof fn lemma_duty_monotonic_on_decisive_points(curve: Seq<SpeedPoint>, t1: int, t2: int)
    requires
        temps_nondecreasing(curve),
        decisive_speeds_nondecreasing(curve),
        t1 <= t2,
    ensures
        duty_at(curve, t1) <= duty_at(curve, t2),
{
    if curve.len() == 0 {
    } else if t1 <= curve[0].temp || t2 >= curve.last().temp {
        lemma_duty_between_ends(curve, t1);
        lemma_duty_between_ends(curve, t2);
    } else {
        let k1 = lemma_first_bracket(curve, t1, 0);
        let k2 = lemma_first_bracket(curve, t2, 0);
        assert(decisive(curve, k1) && decisive(curve, k1 + 1));
        assert(decisive(curve, k2) && decisive(curve, k2 + 1));
        lemma_segment_duty_between(curve[k1], curve[k1 + 1], t1);
        lemma_segment_duty_between(curve[k2], curve[k2 + 1], t2);
        if k1 == k2 {
            lemma_segment_duty_monotonic(curve[k1], curve[k1 + 1], t1, t2);
        } else if k1 < k2 {
            assert(curve[k1 + 1].speed <= curve[k2].speed);
        } else {
            assert(curve[k2 + 1].temp <= curve[k1].temp);
        }
    }
}

/// On a curve whose temperatures and speeds never fall, a higher temperature
/// never gets a lower duty.
pub proof fn lemma_duty_monotonic(curve: Seq<SpeedPoint>, t1: int, t2: int)
    requires
        temps_nondecreasing(curve),
        speeds_nondecreasing(curve),
        t1 <= t2,
    ensures
        duty_at(curve, t1) <= duty_at(curve, t2),
{
    lemma_duty_monotonic_on_decisive_points(curve, t1, t2);
}

/// On a segment of positive width the duty is the straight line through the
/// two points, rounded towards the first point's speed: it is off by less
/// than one unit, and exact at both ends.
pub proof fn lemma_segment_duty_accuracy(a: SpeedPoint, b: SpeedPoint, t: int)
    requires
        a.temp < b.temp,
        a.temp <= t <= b.temp,
    ensures
        ({
            let run = b.temp - a.temp;
            let line = a.speed * run + (t - a.temp) * (b.speed - a.speed);
            let duty = segment_duty(a, b, t);
            &&& a.speed <= b.speed ==> duty * run <= line < (duty + 1) * run
            &&& a.speed >= b.speed ==> (duty - 1) * run < line <= duty * run
        }),
        segment_duty(a, b, a.temp as int) == a.speed,
        segment_duty(a, b, b.temp as int) == b.speed,
{
    let run = b.temp - a.temp;
    let offset = t - a.temp;
    let base = a.speed as int;
    let duty = segment_duty(a, b, t);
    let line = base * run + offset * (b.speed - a.speed);
    if a.speed <= b.speed {
        let rise = b.speed - a.speed;
        let q = (offset * rise) / run;
        lemma_scaled_quotient_bounded(offset, rise, run);
        lemma_quotient_brackets(offset * rise, run);
        assert((base + q) * run == base * run + q * run) by (nonlinear_arith);
        assert((base + q + 1) * run == base * run + (q + 1) * run) by (nonlinear_arith);
        if rise == 0 {
            assert(offset * 0 == 0);
            assert((base - 1) * run < base * run) by (nonlinear_arith)
                requires
                    run > 0,
            ;
        }
        lemma_mul_is_commutative(run, rise);
        lemma_div_multiples_vanish(rise, run);
    } else {
        let fall = a.speed - b.speed;
        let q = (offset * fall) / run;
        lemma_scaled_quotient_bounded(offset, fall, run);
        lemma_quotient_brackets(offset * fall, run);
        assert(offset * (b.speed - a.speed) == -(offset * fall)) by (nonlinear_arith)
            requires
                fall == a.speed - b.speed,
        ;
        assert((base - q) * run == base * run - q * run) by (nonlinear_arith);
        assert((base - q - 1) * run == base * run - (q + 1) * run) by (nonlinear_arith);
        lemma_mul_is_commutative(run, fall);
        lemma_div_multiples_vanish(fall, run);
    }
    assert(0 * (b.speed - a.speed) == 0);
    assert(0 * (a.speed - b.speed) == 0);
    assert(0int / run == 0);
}

proof fn lemma_quotient_brackets(x: int, d: int)
    requires
        0 <= x,
        0 < d,
    ensures
        (x / d) * d <= x < (x / d + 1) * d,
{
    vstd::arithmetic::div_mod::lemma_fundamental_div_mod(x, d);
    vstd::arithmetic::div_mod::lemma_mod_bound(x, d);
    assert((x / d + 1) * d == (x / d) * d + d) by (nonlinear_arith);
    lemma_mul_is_commutative(x / d, d);
}

/// Interpolates on one segment that encloses `t`.
fn interpolate_segment(a: SpeedPoint, b: SpeedPoint, t: i32) -> (duty: i32)
    requires
        a.temp <= t <= b.temp,
    ensures
        duty == segment_duty(a, b, t as int),
{
    if a.temp == b.temp {
        return a.speed;
    }
    let run: u64 = (b.temp as i64 - a.temp as i64) as u64;
    let offset: u64 = (t as i64 - a.temp as i64) as u64;
    if b.speed >= a.speed {
        let rise: u64 = (b.speed as i64 - a.speed as i64) as u64;
        proof {
            lemma_scaled_quotient_bounded(offset as int, rise as int, run as int);
            assert(run * rise <= 0xffff_ffff * 0xffff_ffff) by (nonlinear_arith)
                requires
                    0 <= run <= 0xffff_ffff,
                    0 <= rise <= 0xffff_ffff,
            ;
        }
        let gain: u64 = offset * rise / run;
        (a.speed as i64 + gain as i64) as i32
    } else {
        let fall: u64 = (a.speed as i64 - b.speed as i64) as u64;
        proof {
            lemma_scaled_quotient_bounded(offset as int, fall as int, run as int);
            assert(run * fall <= 0xffff_ffff * 0xffff_ffff) by (nonlinear_arith)
                requires
                    0 <= run <= 0xffff_ffff,
                    0 <= fall <= 0xffff_ffff,
            ;
        }
        let loss: u64 = offset * fall / run;
        (a.speed as i64 - loss as i64) as i32
    }
}

/// Maps a temperature to a duty along a speed curve.
pub fn duty_for(temperature: i32, curve: &[SpeedPoint]) -> (duty: i32)
    ensures
        duty == duty_at(curve@, temperature as int),
        curve@.len() > 0 ==> min_speed(curve@) <= duty <= max_speed(curve@),
{
    let n = curve.len();
    proof {
        if n > 0 {
            lemma_duty_within_range(curve@, temperature as int);
        }
    }
    if n == 0 {
        return 0;
    }
    if temperature <= curve[0].temp {
        return curve[0].speed;
    }
    if temperature >= curve[n - 1].temp {
        return curve[n - 1].speed;
    }
    let mut i: usize = 0;
    while i + 1 < n
        invariant
            n == curve@.len(),
            n > 0,
            i < n,
            duty_at(curve@, temperature as int) == scan_from(curve@, temperature as int, i as int),
            min_speed(curve@) <= duty_at(curve@, temperature as int) <= max_speed(curve@),
        decreases n - i,
    {
        let a = curve[i];
        let b = curve[i + 1];
        if a.temp <= temperature && temperature <= b.temp {
            return interpolate_segment(a, b, temperature);
        }
        i += 1;
    }
    curve[n - 1].speed
}

} // verus!
