use vstd::prelude::*;
use vstd::arithmetic::div_mod::{lemma_div_is_ordered, lemma_fundamental_div_mod_converse};

use crate::config::CurvePoint;

verus! {

/// `n / d` rounded to the nearest integer, halves rounded up (for `d > 0`).
pub open spec fn div_nearest(n: int, d: int) -> int {
    (2 * n + d) / (2 * d)
}

/// Points `i` and `i + 1` of the curve enclose `temp`.
pub open spec fn brackets(pts: Seq<CurvePoint>, i: int, temp: int) -> bool {
    0 <= i < pts.len() - 1 && pts[i].temp <= temp <= pts[i + 1].temp
}

/// Segment `i` is the first segment of the curve that encloses `temp`.
pub open spec fn is_first_bracket(pts: Seq<CurvePoint>, i: int, temp: int) -> bool {
    &&& brackets(pts, i, temp)
    &&& forall|j: int| 0 <= j < i ==> !#[trigger] brackets(pts, j, temp)
}

/// The speed on the straight line from `p1` to `p2` at `temp`, rounded to
/// the nearest duty cycle; a segment of zero width gives the speed of `p1`.
pub open spec fn segment_speed(p1: CurvePoint, p2: CurvePoint, temp: int) -> int {
    if p1.temp == p2.temp {
        p1.speed as int
    } else {
        let dt = p2.temp - p1.temp;
        div_nearest(p1.speed * dt + (temp - p1.temp) * (p2.speed - p1.speed), dt)
    }
}

/// The fan speed that the curve `pts` gives at `temp`: the speed of the
/// first point below the curve's first temperature, the speed of the last
/// point above its last temperature, and in between the linear
/// interpolation on the first segment that encloses `temp`.
pub open spec fn curve_speed(temp: int, pts: Seq<CurvePoint>) -> int {
    if pts.len() == 0 {
        0
    } else if pts.len() == 1 {
        pts[0].speed as int
    } else if temp <= pts[0].temp {
        pts[0].speed as int
    } else if temp >= pts.last().temp {
        pts.last().speed as int
    } else if exists|i: int| is_first_bracket(pts, i, temp) {
        let i = choose|i: int| is_first_bracket(pts, i, temp);
        segment_speed(pts[i], pts[i + 1], temp)
    } else {
        pts.last().speed as int
    }
}

/// The first enclosing segment is unique.
proof fn lemma_first_bracket_unique(pts: Seq<CurvePoint>, i: int, k: int, temp: int)
    requires
        is_first_bracket(pts, i, temp),
        is_first_bracket(pts, k, temp),
    ensures
        i == k,
{
    if i < k {
        assert(!brackets(pts, i, temp));
    } else if k < i {
        assert(!brackets(pts, k, temp));
    }
}

/// `curve_speed` on the segment that the search found.
proof fn lemma_curve_speed_at_bracket(pts: Seq<CurvePoint>, i: int, temp: int)
    requires
        pts.len() >= 2,
        pts[0].temp < temp < pts.last().temp,
        is_first_bracket(pts, i, temp),
    ensures
        curve_speed(temp, pts) == segment_speed(pts[i], pts[i + 1], temp),
{
    let k = choose|k: int| is_first_bracket(pts, k, temp);
    lemma_first_bracket_unique(pts, i, k, temp);
}

/// The value of a segment lies between the speeds of its two ends.
pub proof fn lemma_segment_speed_bounds(p1: CurvePoint, p2: CurvePoint, temp: int)
    requires
        p1.temp <= temp <= p2.temp,
    ensures
        p1.speed <= p2.speed ==> p1.speed <= segment_speed(p1, p2, temp) <= p2.speed,
        p2.speed <= p1.speed ==> p2.speed <= segment_speed(p1, p2, temp) <= p1.speed,
{
    if p1.temp != p2.temp {
        let dt: int = p2.temp - p1.temp;
        let x: int = temp - p1.temp;
        let s1: int = p1.speed as int;
        let s2: int = p2.speed as int;
        let n: int = s1 * dt + x * (s2 - s1);
        assert(0 <= x <= dt && dt > 0);
        if s1 <= s2 {
            assert(s1 * dt <= n <= s2 * dt) by (nonlinear_arith)
                requires 0 <= x <= dt, dt > 0, s1 <= s2, n == s1 * dt + x * (s2 - s1);
        } else {
            assert(s2 * dt <= n <= s1 * dt) by (nonlinear_arith)
                requires 0 <= x <= dt, dt > 0, s2 < s1, n == s1 * dt + x * (s2 - s1);
        }
        let lo: int = if s1 <= s2 { s1 } else { s2 };
        let hi: int = if s1 <= s2 { s2 } else { s1 };
        assert(lo * dt <= n <= hi * dt);
        assert(lo * (2 * dt) == 2 * lo * dt) by (nonlinear_arith);
        assert(hi * (2 * dt) == 2 * hi * dt) by (nonlinear_arith);
        lemma_fundamental_div_mod_converse(2 * lo * dt + dt, 2 * dt, lo, dt);
        lemma_fundamental_div_mod_converse(2 * hi * dt + dt, 2 * dt, hi, dt);
        assert(2 * lo * dt + dt <= 2 * n + dt) by (nonlinear_arith)
            requires lo * dt <= n;
        assert(2 * n + dt <= 2 * hi * dt + dt) by (nonlinear_arith)
            requires n <= hi * dt;
        lemma_div_is_ordered(2 * lo * dt + dt, 2 * n + dt, 2 * dt);
        lemma_div_is_ordered(2 * n + dt, 2 * hi * dt + dt, 2 * dt);
    }
}

/// Fan speed (0-255) for temperature `temp` (millidegrees Celsius) on the
/// fan curve `points`, by linear interpolation between the points.
///
/// An empty curve gives 0; below the first point the first point's speed,
/// above the last point the last point's speed.
pub fn interpolate_speed(temp: i32, points: &[CurvePoint]) -> (speed: u8)
    ensures
        speed == curve_speed(temp as int, points@),
        points@.len() > 0 ==> exists|i: int, j: int|
            #![trigger points@[i], points@[j]]
            0 <= i < points@.len() && 0 <= j < points@.len()
            && points@[i].speed <= speed <= points@[j].speed,
{
    if points.len() == 0 {
        return 0;
    }
    if points.len() == 1 {
        return points[0].speed;
    }
    if temp <= points[0].temp {
        return points[0].speed;
    }
    let last_idx = points.len() - 1;
    if temp >= points[last_idx].temp {
        return points[last_idx].speed;
    }
    let mut i: usize = 0;
    while i < last_idx
        invariant
            last_idx == points@.len() - 1,
            points@.len() >= 2,
            i <= last_idx,
            points@[0].temp < temp < points@[last_idx as int].temp,
            forall|j: int| 0 <= j < i ==> !#[trigger] brackets(points@, j, temp as int),
        decreases last_idx - i,
    {
        let p1 = points[i];
        let p2 = points[i + 1];
        if temp >= p1.temp && temp <= p2.temp {
            assert(is_first_bracket(points@, i as int, temp as int));
            proof {
                lemma_curve_speed_at_bracket(points@, i as int, temp as int);
                lemma_segment_speed_bounds(p1, p2, temp as int);
            }
            if p1.temp == p2.temp {
                return p1.speed;
            }
            let dt: i64 = p2.temp as i64 - p1.temp as i64;
            let x: i64 = temp as i64 - p1.temp as i64;
            let ds: i64 = p2.speed as i64 - p1.speed as i64;
            assert(0 <= x <= dt < 0x1_0000_0000);
            assert(-255 <= ds <= 255);
            assert(-255 * 0x1_0000_0000 <= x * ds <= 255 * 0x1_0000_0000) by (nonlinear_arith)
                requires 0 <= x < 0x1_0000_0000, -255 <= ds <= 255;
            assert(0 <= p1.speed as i64 * dt <= 255 * 0x1_0000_0000) by (nonlinear_arith)
                requires 0 <= dt < 0x1_0000_0000, 0 <= p1.speed <= 255;
            let n: i64 = p1.speed as i64 * dt + x * ds;
            let ghost seg = segment_speed(p1, p2, temp as int);
            assert(seg == (2 * n + dt) / (2 * dt));
            assert(2 * n + dt >= 0) by {
                // the rounded value is a duty cycle, hence not negative
                assert(0 <= seg <= 255);
                if 2 * n + dt < 0 {
                    lemma_div_is_ordered(2 * n + dt, -1, 2 * dt);
                    assert(-1 / (2 * dt) == -1) by {
                        lemma_fundamental_div_mod_converse(-1, 2 * dt, -1, 2 * dt - 1);
                    }
                }
            }
            let q: i64 = (2 * n + dt) / (2 * dt);
            assert(q == seg);
            return q as u8;
        }
        i = i + 1;
    }
    points[last_idx].speed
}


/// The curve's temperatures never decrease from one point to the next.
pub open spec fn temps_nondecreasing(pts: Seq<CurvePoint>) -> bool {
    forall|i: int, j: int| 0 <= i <= j < pts.len() ==> #[trigger] pts[i].temp <= #[trigger] pts[j].temp
}

/// The curve's temperatures strictly increase from one point to the next.
pub open spec fn temps_increasing(pts: Seq<CurvePoint>) -> bool {
    forall|i: int, j: int| 0 <= i < j < pts.len() ==> #[trigger] pts[i].temp < #[trigger] pts[j].temp
}

/// The curve's speeds never decrease from one point to the next.
pub open spec fn speeds_nondecreasing(pts: Seq<CurvePoint>) -> bool {
    forall|i: int, j: int| 0 <= i <= j < pts.len() ==> #[trigger] pts[i].speed <= #[trigger] pts[j].speed
}

/// On a sorted curve, a temperature strictly inside the curve's range lies
/// in some segment before point `k` when it does not exceed point `k`.
proof fn lemma_bracket_exists(pts: Seq<CurvePoint>, temp: int, k: int)
    requires
        temps_nondecreasing(pts),
        1 <= k < pts.len(),
        pts[0].temp <= temp <= pts[k].temp,
    ensures
        exists|i: int| 0 <= i < k && brackets(pts, i, temp),
    decreases k,
{
    if pts[k - 1].temp <= temp {
        assert(brackets(pts, k - 1, temp));
    } else {
        lemma_bracket_exists(pts, temp, k - 1);
        let i = choose|i: int| 0 <= i < k - 1 && brackets(pts, i, temp);
        assert(brackets(pts, i, temp));
    }
}

/// Where some segment encloses `temp`, a first such segment exists.
proof fn lemma_first_bracket_exists(pts: Seq<CurvePoint>, temp: int, i: int)
    requires
        brackets(pts, i, temp),
    ensures
        exists|k: int| 0 <= k <= i && is_first_bracket(pts, k, temp),
    decreases i,
{
    if forall|j: int| 0 <= j < i ==> !#[trigger] brackets(pts, j, temp) {
        assert(is_first_bracket(pts, i, temp));
    } else {
        let j = choose|j: int| 0 <= j < i && #[trigger] brackets(pts, j, temp);
        lemma_first_bracket_exists(pts, temp, j);
    }
}

/// On a sorted curve, an interior temperature is evaluated on its first
/// enclosing segment.
proof fn lemma_interior_segment(pts: Seq<CurvePoint>, temp: int) -> (i: int)
    requires
        temps_nondecreasing(pts),
        pts.len() >= 2,
        pts[0].temp < temp < pts.last().temp,
    ensures
        is_first_bracket(pts, i, temp),
        curve_speed(temp, pts) == segment_speed(pts[i], pts[i + 1], temp),
{
    lemma_bracket_exists(pts, temp, pts.len() - 1);
    let b = choose|b: int| 0 <= b < pts.len() - 1 && brackets(pts, b, temp);
    lemma_first_bracket_exists(pts, temp, b);
    let i = choose|k: int| 0 <= k <= b && is_first_bracket(pts, k, temp);
    lemma_curve_speed_at_bracket(pts, i, temp);
    i
}

/// Within one rising segment, a higher temperature never gives a lower speed.
proof fn lemma_segment_speed_monotone(p1: CurvePoint, p2: CurvePoint, ta: int, tb: int)
    requires
        p1.temp <= ta <= tb <= p2.temp,
        p1.speed <= p2.speed,
    ensures
        segment_speed(p1, p2, ta) <= segment_speed(p1, p2, tb),
{
    if p1.temp != p2.temp {
        let dt: int = p2.temp - p1.temp;
        let ds: int = p2.speed - p1.speed;
        let na: int = p1.speed * dt + (ta - p1.temp) * ds;
        let nb: int = p1.speed * dt + (tb - p1.temp) * ds;
        assert(na <= nb) by (nonlinear_arith)
            requires ta <= tb, ds >= 0, na == p1.speed * dt + (ta - p1.temp) * ds,
                nb == p1.speed * dt + (tb - p1.temp) * ds;
        lemma_div_is_ordered(2 * na + dt, 2 * nb + dt, 2 * dt);
    }
}

/// A fan curve is exact at its own points: on a curve whose temperatures
/// strictly increase, the speed at a point's temperature is that point's
/// speed.
pub proof fn lemma_curve_exact_at_points(pts: Seq<CurvePoint>, k: int)
    requires
        temps_increasing(pts),
        0 <= k < pts.len(),
    ensures
        curve_speed(pts[k].temp as int, pts) == pts[k].speed,
{
    let t: int = pts[k].temp as int;
    if pts.len() >= 2 && 0 < k < pts.len() - 1 {
        assert(pts[0].temp < t < pts.last().temp);
        assert(brackets(pts, k - 1, t));
        assert forall|j: int| 0 <= j < k - 1 implies !#[trigger] brackets(pts, j, t) by {
            assert(pts[j + 1].temp < pts[k].temp);
        }
        assert(is_first_bracket(pts, k - 1, t));
        lemma_curve_speed_at_bracket(pts, k - 1, t);
        let p1 = pts[k - 1];
        let p2 = pts[k];
        let dt: int = p2.temp - p1.temp;
        let s2: int = p2.speed as int;
        assert(p1.speed * dt + (t - p1.temp) * (p2.speed - p1.speed) == s2 * dt) by (nonlinear_arith)
            requires t - p1.temp == dt, dt == p2.temp - p1.temp, s2 == p2.speed;
        assert(s2 * (2 * dt) == 2 * (s2 * dt)) by (nonlinear_arith);
        lemma_fundamental_div_mod_converse(2 * (s2 * dt) + dt, 2 * dt, s2, dt);
    } else if pts.len() >= 2 && k == pts.len() - 1 {
        assert(pts[0].temp < pts[k].temp);
    }
}

/// A fan curve never slows the fan down as it gets hotter: on a curve whose
/// temperatures and speeds both never decrease, a higher temperature never
/// gives a lower speed.
pub proof fn lemma_curve_speed_monotone(pts: Seq<CurvePoint>, t1: int, t2: int)
    requires
        temps_nondecreasing(pts),
        speeds_nondecreasing(pts),
        t1 <= t2,
    ensures
        curve_speed(t1, pts) <= curve_speed(t2, pts),
{
    if pts.len() >= 2 {
        let last: int = pts.len() - 1;
        assert(pts[0].speed <= pts[last].speed);
        if t1 > pts[0].temp && t1 < pts[last].temp {
            let i1 = lemma_interior_segment(pts, t1);
            lemma_segment_speed_bounds(pts[i1], pts[i1 + 1], t1);
            assert(pts[i1 + 1].speed <= pts[last].speed);
            if t2 < pts[last].temp {
                let i2 = lemma_interior_segment(pts, t2);
                lemma_segment_speed_bounds(pts[i2], pts[i2 + 1], t2);
                if i2 < i1 {
                    assert(pts[i2 + 1].temp <= pts[i1].temp);
                    assert(brackets(pts, i2, t1));
                } else if i1 == i2 {
                    lemma_segment_speed_monotone(pts[i1], pts[i1 + 1], t1, t2);
                } else {
                    assert(pts[i1 + 1].speed <= pts[i2].speed);
                }
            }
        } else if t1 <= pts[0].temp && t2 > pts[0].temp && t2 < pts[last].temp {
            let i2 = lemma_interior_segment(pts, t2);
            lemma_segment_speed_bounds(pts[i2], pts[i2 + 1], t2);
            assert(pts[0].speed <= pts[i2].speed);
        }
    }
}

} // verus!
