//! Utility functions.

use crate::grid::Point;
use crate::mobiles::Mobs;
use crate::types::World;
use vstd::prelude::*;

verus! {

/// The number that `signed_add` gives: the sum, held inside `usize`.
pub open spec fn signed_sum(u: usize, s: i8) -> int {
    if u + s < 0 {
        0
    } else if u + s > usize::MAX {
        usize::MAX as int
    } else {
        u + s
    }
}

/// Perform a saturating addition or subtraction.
pub fn signed_add(u: usize, s: i8) -> (r: usize)
    ensures
        r == signed_sum(u, s),
{
    if s < 0 {
        let back: i16 = -(s as i16);
        u.saturating_sub(back as usize)
    } else {
        u.saturating_add(s as usize)
    }
}

/// The `i`-th number of the inclusive range from `from` to `to`.
pub open spec fn range_item(from: i8, to: i8, i: int) -> int {
    if from > to {
        from - i
    } else {
        from + i
    }
}

/// The number of numbers in the inclusive range between two bounds.
pub open spec fn range_len(from: i8, to: i8) -> int {
    if from < to {
        to - from + 1
    } else {
        from - to + 1
    }
}

/// Generate the inclusive range [from..to], which can be descending or
/// ascending.
pub fn inclusive_range(from: i8, to: i8) -> (out: Vec<i8>)
    requires
        range_len(from, to) <= i8::MAX,
    ensures
        out@.len() == range_len(from, to),
        forall|i: int| 0 <= i < out@.len() ==> #[trigger] out@[i] == range_item(from, to, i),
{
    let mut out: Vec<i8> = Vec::new();
    let range: i8 = 1 + if from < to {
        to - from
    } else {
        from - to
    };
    let mut i: i8 = 0;
    while i < range
        invariant
            0 <= i <= range,
            range == range_len(from, to),
            out@.len() == i,
            forall|j: int| 0 <= j < out@.len() ==> #[trigger] out@[j] == range_item(from, to, j),
        decreases range - i,
    {
        if from > to {
            out.push(from - i);
        } else {
            out.push(from + i);
        }
        i = i + 1;
    }
    out
}

/// Take the delta between two values, and return the gradient.
pub fn make_delta(start: usize, end: usize) -> (r: (usize, bool))
    ensures
        r.1 == (start < end),
        r.0 == if start < end {
            end - start
        } else {
            start - end
        },
{
    if start < end {
        (end - start, true)
    } else {
        (start - end, false)
    }
}

/// Check if a position is occupied: a mobile stands there, or something
/// impassable.
pub fn is_occupied(pos: Point, mobs: &Mobs, world: &World) -> (r: bool)
    requires
        pos.in_bounds(),
    ensures
        r == occupied(pos, mobs, world),
{
    mobs.contains(pos) || world.is_impassable(pos)
}

/// Whether a mobile or something impassable stands at a position.
pub open spec fn occupied(pos: Point, mobs: &Mobs, world: &World) -> bool {
    mobs@.contains_key(pos) || world.impassable(pos)
}

/// The distance between two coordinates.
pub open spec fn span(a: usize, b: usize) -> int {
    if a < b {
        b - a
    } else {
        a - b
    }
}

/// The number of steps of the line of sight between two points: the
/// greater of the two distances between their coordinates.
pub open spec fn sight_len(start: Point, end: Point) -> int {
    if span(start.x, end.x) > span(start.y, end.y) {
        span(start.x, end.x)
    } else {
        span(start.y, end.y)
    }
}

/// How far the line has moved along its shorter side after `i` steps
/// along its longer side `n`, where the shorter side is `d` long: `i * d /
/// n`, rounded to the nearest whole number, a half counting upwards.
pub open spec fn drift(i: int, d: int, n: int) -> int {
    (2 * i * d + n) / (2 * n)
}

/// A coordinate moved `by` towards `to`.
pub open spec fn moved(from: usize, to: usize, by: int) -> usize {
    if from < to {
        (from + by) as usize
    } else {
        (from - by) as usize
    }
}

/// The `i`-th point of the line of sight from `start` to `end`: the line
/// moves one cell per step along its longer side and drifts along the
/// shorter. The line has `sight_len` steps, and the last point is `end`.
pub open spec fn sight_point(start: Point, end: Point, i: int) -> Point {
    let dx = span(start.x, end.x);
    let dy = span(start.y, end.y);
    if dx > dy {
        Point { x: moved(start.x, end.x, i), y: moved(start.y, end.y, drift(i, dy, dx)) }
    } else {
        Point { x: moved(start.x, end.x, drift(i, dx, dy)), y: moved(start.y, end.y, i) }
    }
}

/// Whether nothing opaque stands between two points: no point of the line
/// of sight, the two ends left out, holds an opaque static.
pub open spec fn sees(start: Point, end: Point, world: &World) -> bool {
    forall|i: int| 0 < i < sight_len(start, end) ==> !world.opaque(#[trigger] sight_point(start, end, i))
}

/// A quotient is known from the two multiples of the divisor that enclose
/// the dividend.
pub proof fn lemma_quotient(a: int, d: int, q: int)
    requires
        d > 0,
        d * q <= a < d * q + d,
    ensures
        a / d == q,
{
    assert(a == q * d + (a - d * q)) by (nonlinear_arith);
    vstd::arithmetic::div_mod::lemma_fundamental_div_mod_converse(a, d, q, a - d * q);
}

/// The line of sight stays between its ends, so on the map if they are.
pub proof fn lemma_drift_bounds(i: int, d: int, n: int)
    requires
        0 <= i <= n,
        0 <= d <= n,
        n > 0,
    ensures
        0 <= drift(i, d, n) <= d,
        i == n ==> drift(i, d, n) == d,
        i == 0 ==> drift(i, d, n) == 0,
{
    let a = 2 * i * d + n;
    assert(0 <= i * d <= n * d) by (nonlinear_arith)
        requires
            0 <= i <= n,
            0 <= d,
    ;
    assert(2 * i * d == 2 * (i * d)) by (nonlinear_arith);
    vstd::arithmetic::div_mod::lemma_fundamental_div_mod(a, 2 * n);
    let q = a / (2 * n);
    let r = a % (2 * n);
    assert(0 <= r < 2 * n) by {
        vstd::arithmetic::div_mod::lemma_mod_bound(a, 2 * n);
    }
    assert(q >= 0) by (nonlinear_arith)
        requires
            a == (2 * n) * q + r,
            0 <= r < 2 * n,
            a >= 0,
            n > 0,
    ;
    assert(q <= d) by (nonlinear_arith)
        requires
            a == (2 * n) * q + r,
            0 <= r < 2 * n,
            a <= 2 * (n * d) + n,
            n > 0,
    ;
    if i == n {
        assert((2 * n) * d <= a < (2 * n) * d + 2 * n) by (nonlinear_arith)
            requires
                a == 2 * (n * d) + n,
                n > 0,
        ;
        lemma_quotient(a, 2 * n, d);
    }
    if i == 0 {
        assert(i * d == 0);
        lemma_quotient(a, 2 * n, 0);
    }
}

/// Check if a tile can be seen from another: walk the line of sight from
/// `start` and stop at the first opaque tile before `end`.
pub fn can_see(start: Point, end: Point, world: &World) -> (r: bool)
    requires
        start.in_bounds(),
        end.in_bounds(),
    ensures
        r == sees(start, end, world),
{
    let mut pos = start;

    let (dx, ix) = make_delta(pos.x, end.x);
    let (dy, iy) = make_delta(pos.y, end.y);
    let steep = !(dx > dy);
    // The longer side, along which the line moves a cell per step, and the
    // shorter, along which it drifts.
    let long: i64 = if steep {
        dy as i64
    } else {
        dx as i64
    };
    let short: i64 = if steep {
        dx as i64
    } else {
        dy as i64
    };
    let inc_x: i8 = if steep {
        0
    } else if ix {
        1
    } else {
        -1
    };
    let inc_y: i8 = if !steep {
        0
    } else if iy {
        1
    } else {
        -1
    };
    let corr_x: i8 = if !steep {
        0
    } else if ix {
        1
    } else {
        -1
    };
    let corr_y: i8 = if steep {
        0
    } else if iy {
        1
    } else {
        -1
    };
    let mut err: i64 = short * 2 - long;
    let err_inc: i64 = short * 2;
    let err_dec: i64 = long * 2;

    // `drifted` is how far the line has drifted so far; `run` and `fall`
    // are `i * short` and `long * drifted`.
    let ghost mut drifted: int = 0;
    let ghost mut run: int = 0;
    let ghost mut fall: int = 0;
    let mut i: i64 = 0;
    proof {
        if long > 0 {
            lemma_drift_bounds(0, short as int, long as int);
        }
        assert(0 * short == 0 && long * 0 == 0) by (nonlinear_arith);
    }
    while i + 1 < long
        invariant
            start.in_bounds(),
            end.in_bounds(),
            long == sight_len(start, end),
            0 <= short <= long < 200,
            steep == !(span(start.x, end.x) > span(start.y, end.y)),
            short == (if steep {
                span(start.x, end.x)
            } else {
                span(start.y, end.y)
            }),
            ix == (start.x < end.x),
            iy == (start.y < end.y),
            inc_x == (if steep { 0int } else if ix { 1int } else { -1int }),
            inc_y == (if !steep { 0int } else if iy { 1int } else { -1int }),
            corr_x == (if !steep { 0int } else if ix { 1int } else { -1int }),
            corr_y == (if steep { 0int } else if iy { 1int } else { -1int }),
            err_inc == short * 2,
            err_dec == long * 2,
            0 <= i <= long,
            long > 0 ==> i < long,
            run == i * short,
            fall == long * drifted,
            0 <= drifted <= short,
            long > 0 ==> drifted == drift(i as int, short as int, long as int),
            err == 2 * (run + short) - long - 2 * fall,
            long > 0 ==> 2 * fall <= 2 * run + long < 2 * fall + 2 * long,
            pos == (if long > 0 {
                sight_point(start, end, i as int)
            } else {
                start
            }),
            forall|j: int| 0 < j <= i ==> !world.opaque(#[trigger] sight_point(start, end, j)),
        decreases long - i,
    {
        proof {
            assert((i + 1) * short == i * short + short) by (nonlinear_arith);
            assert(long * (drifted + 1) == long * drifted + long) by (nonlinear_arith);
            assert(0 <= run <= i * long) by (nonlinear_arith)
                requires
                    run == i * short,
                    0 <= short <= long,
                    0 <= i,
            ;
            assert(i * long < 200 * 200) by (nonlinear_arith)
                requires
                    0 <= i < long,
                    long < 200,
            ;
            assert(0 <= fall <= 200 * 200) by (nonlinear_arith)
                requires
                    fall == long * drifted,
                    0 <= drifted <= long,
                    0 <= long < 200,
            ;
        }
        if err >= 0 {
            err = err - err_dec;
            pos.x = signed_add(pos.x, corr_x);
            pos.y = signed_add(pos.y, corr_y);
            proof {
                drifted = drifted + 1;
                fall = fall + long;
            }
        }
        err = err + err_inc;
        pos.x = signed_add(pos.x, inc_x);
        pos.y = signed_add(pos.y, inc_y);
        proof {
            run = run + short;
        }
        i = i + 1;
        proof {
            let n = long as int;
            let d = short as int;
            assert(2 * (i as int) * d == 2 * run) by (nonlinear_arith)
                requires
                    run == i * short,
                    d == short,
            ;
            assert((2 * n) * drifted == 2 * fall) by (nonlinear_arith)
                requires
                    fall == long * drifted,
                    n == long,
            ;
            lemma_quotient(2 * (i as int) * d + n, 2 * n, drifted);
            assert(drifted == drift(i as int, d, n));
            lemma_drift_bounds(i as int, d, n);
            assert(pos == sight_point(start, end, i as int));
        }
        if world.is_opaque(pos) {
            return false;
        }
    }

    true
}

} // verus!
