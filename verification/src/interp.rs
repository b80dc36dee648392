//! Piecewise-linear interpolation of a duty cycle from a curve of
//! (temperature, duty) breakpoints.

use vstd::prelude::*;
use vstd::arithmetic::div_mod::{
    lemma_div_is_ordered, lemma_div_multiples_vanish, lemma_div_pos_is_pos,
};
use vstd::arithmetic::mul::lemma_mul_inequality;
use crate::config::TemperaturePoint;

verus! {

/// The duty at `x` on the segment from `(t0, d0)` to `(t1, d1)`: the exact
/// rational value with the quotient truncated toward zero, and `d0` when the
/// segment is vertical.
pub open spec fn lerp(t0: int, d0: int, t1: int, d1: int, x: int) -> int {
    if t0 == t1 {
        d0
    } else if d0 <= d1 {
        d0 + (d1 - d0) * (x - t0) / (t1 - t0)
    } else {
        d0 - (d0 - d1) * (x - t0) / (t1 - t0)
    }
}

/// Interpolates linearly between two breakpoints. The target must lie
/// between them; equal temperatures yield the left duty.
pub fn line_inter(x0: u8, y0: u8, x1: u8, y1: u8, x: u8) -> (r: u8)
    requires
        x0 <= x <= x1,
    ensures
        r as int == lerp(x0 as int, y0 as int, x1 as int, y1 as int, x as int),
        y0 <= y1 ==> y0 <= r <= y1,
        y1 <= y0 ==> y1 <= r <= y0,
{
    if x0 == x1 {
        return y0;
    }
    let dx: u32 = (x1 - x0) as u32;
    let run: u32 = (x - x0) as u32;
    if y0 <= y1 {
        let rise: u32 = (y1 - y0) as u32;
        proof {
            assert(rise * run <= 255 * 255) by (nonlinear_arith)
                requires
                    rise <= 255,
                    run <= 255,
            ;
        }
        let q: u32 = (rise * run) / dx;
        proof {
            lemma_mul_inequality(run as int, dx as int, rise as int);
            lemma_div_is_ordered(rise as int * run as int, rise as int * dx as int, dx as int);
            lemma_div_multiples_vanish(rise as int, dx as int);
            lemma_div_pos_is_pos(rise as int * run as int, dx as int);
            assert(q <= rise);
        }
        y0 + (q as u8)
    } else {
        let fall: u32 = (y0 - y1) as u32;
        proof {
            assert(fall * run <= 255 * 255) by (nonlinear_arith)
                requires
                    fall <= 255,
                    run <= 255,
            ;
        }
        let q: u32 = (fall * run) / dx;
        proof {
            lemma_mul_inequality(run as int, dx as int, fall as int);
            assert(fall as int * run as int <= fall as int * dx as int) by (nonlinear_arith)
                requires
                    run <= dx,
                    fall >= 0,
            ;
            lemma_div_is_ordered(fall as int * run as int, fall as int * dx as int, dx as int);
            lemma_div_multiples_vanish(fall as int, dx as int);
            lemma_div_pos_is_pos(fall as int * run as int, dx as int);
            assert(q <= fall);
        }
        y0 - (q as u8)
    }
}

/// The duty that the breakpoint scan yields for a target known to lie above
/// the first breakpoint's temperature: the segment around the first
/// breakpoint at or above the target, or the last duty when the target is
/// above every breakpoint.
pub open spec fn interp_above(points: Seq<TemperaturePoint>, target: u8) -> int
    recommends
        points.len() >= 1,
    decreases points.len(),
{
    if points.len() <= 1 {
        points[0].fan_speed as int
    } else if target <= points[1].temperature {
        lerp(
            points[0].temperature as int,
            points[0].fan_speed as int,
            points[1].temperature as int,
            points[1].fan_speed as int,
            target as int,
        )
    } else {
        interp_above(points.drop_first(), target)
    }
}

/// The duty a curve yields for a target temperature: the first duty when the
/// target is at or below the first breakpoint, otherwise the scan above.
pub open spec fn interp(points: Seq<TemperaturePoint>, target: u8) -> int
    recommends
        points.len() >= 1,
{
    if target <= points[0].temperature {
        points[0].fan_speed as int
    } else {
        interp_above(points, target)
    }
}

/// Breakpoints come in non-decreasing temperature order.
pub open spec fn curve_sorted(points: Seq<TemperaturePoint>) -> bool {
    forall|i: int, j: int|
        0 <= i <= j < points.len() ==> #[trigger] points[i].temperature
            <= #[trigger] points[j].temperature
}

/// Maps a measured temperature to a duty cycle along the given curve:
/// clamps below the first and above the last breakpoint, and interpolates
/// linearly on the segment the target falls in.
#[verifier::loop_isolation(false)]
pub fn interpolate(points: &Vec<TemperaturePoint>, target: u8) -> (r: u8)
    requires
        points@.len() >= 1,
    ensures
        r as int == interp(points@, target),
{
    let first = points[0];
    if target <= first.temperature {
        return first.fan_speed;
    }
    let n = points.len();
    let mut prev: TemperaturePoint = first;
    let mut i: usize = 1;
    proof {
        assert(points@.skip(0) =~= points@);
    }
    while i < n
        invariant
            1 <= i <= n,
            prev == points@[i - 1],
            target > prev.temperature,
            interp_above(points@, target) == interp_above(points@.skip(i - 1), target),
        decreases n - i,
    {
        let cur = points[i];
        if target <= cur.temperature {
            proof {
                assert(points@.skip(i - 1)[0] == points@[i - 1]);
                assert(points@.skip(i - 1)[1] == points@[i as int]);
            }
            return line_inter(prev.temperature, prev.fan_speed, cur.temperature, cur.fan_speed, target);
        }
        proof {
            assert(points@.skip(i - 1)[1] == points@[i as int]);
            assert(points@.skip(i - 1).drop_first() =~= points@.skip(i as int));
        }
        prev = cur;
        i = i + 1;
    }
    prev.fan_speed
}

/// Law: any target at or below the first breakpoint's temperature
/// interpolates to exactly the first breakpoint's duty.
pub proof fn lemma_interp_clamps_low(points: Seq<TemperaturePoint>, target: u8)
    requires
        points.len() >= 1,
        target <= points[0].temperature,
    ensures
        interp(points, target) == points[0].fan_speed as int,
{
}

/// On a non-vertical segment, the right endpoint maps to exactly the right
/// duty: the division is by a divisor of its dividend.
proof fn lemma_lerp_at_right(t0: int, d0: int, t1: int, d1: int)
    requires
        t0 < t1,
    ensures
        lerp(t0, d0, t1, d1, t1) == d1,
{
    if d0 <= d1 {
        lemma_div_multiples_vanish(d1 - d0, t1 - t0);
        assert((d1 - d0) * (t1 - t0) == (t1 - t0) * (d1 - d0)) by (nonlinear_arith);
    } else {
        lemma_div_multiples_vanish(d0 - d1, t1 - t0);
        assert((d0 - d1) * (t1 - t0) == (t1 - t0) * (d0 - d1)) by (nonlinear_arith);
    }
}

proof fn lemma_interp_above_clamps_high(points: Seq<TemperaturePoint>, target: u8)
    requires
        points.len() >= 1,
        curve_sorted(points),
        target > points[0].temperature,
        target >= points.last().temperature,
        target == points.last().temperature && points.len() >= 2 ==> points[points.len()
            - 2].temperature < points.last().temperature,
    ensures
        interp_above(points, target) == points.last().fan_speed as int,
    decreases points.len(),
{
    if points.len() <= 1 {
    } else if target <= points[1].temperature {
        assert(points[1].temperature <= points.last().temperature);
        assert(target == points[1].temperature && target == points.last().temperature);
        if points.len() > 2 {
            assert(points[1].temperature <= points[points.len() - 2].temperature);
            assert(false);
        }
        assert(points.len() == 2);
        lemma_lerp_at_right(
            points[0].temperature as int,
            points[0].fan_speed as int,
            points[1].temperature as int,
            points[1].fan_speed as int,
        );
    } else {
        let rest = points.drop_first();
        assert(rest.last() == points.last());
        assert forall|i: int, j: int| 0 <= i <= j < rest.len() implies #[trigger] rest[i].temperature
            <= #[trigger] rest[j].temperature by {
            assert(points[i + 1].temperature <= points[j + 1].temperature);
        }
        if rest.len() >= 2 {
            assert(rest[rest.len() - 2] == points[points.len() - 2]);
        }
        lemma_interp_above_clamps_high(rest, target);
    }
}

/// Law: any target at or above the last breakpoint's temperature
/// interpolates to exactly the last breakpoint's duty. When the target sits
/// exactly on the last breakpoint and the curve has several breakpoints,
/// the last temperature must not be duplicated: on a curve whose final
/// temperature repeats with different duties, the scan settles on the first
/// of the duplicates instead.
pub proof fn lemma_interp_clamps_high(points: Seq<TemperaturePoint>, target: u8)
    requires
        points.len() >= 1,
        curve_sorted(points),
        target >= points.last().temperature,
        target == points.last().temperature && points.len() >= 2 ==> points[points.len()
            - 2].temperature < points.last().temperature,
    ensures
        interp(points, target) == points.last().fan_speed as int,
{
    if target <= points[0].temperature {
        assert(points[0].temperature <= points.last().temperature);
        if points.len() >= 2 {
            assert(points[0].temperature <= points[points.len() - 2].temperature);
            assert(false);
        }
    } else {
        lemma_interp_above_clamps_high(points, target);
    }
}

} // verus!
