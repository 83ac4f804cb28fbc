//! The mathematical model of the flood-fill propagator: the neighbourhood
//! of a cell, the relaxation of one cell, and the wavefront that a queue of
//! cells drives over a field until nothing is left to improve.

use crate::constants::{CELLS, HEIGHT, UNIT, UNREACHED, WIDTH};
use crate::grid::Point;
use vstd::prelude::*;

verus! {

/// The value that a field holds at a point.
pub open spec fn cell(f: Seq<i64>, p: Point) -> i64 {
    f[p.index()]
}

/// Whether an obstruction map marks a point as blocked.
pub open spec fn shut(b: Seq<bool>, p: Point) -> bool {
    b[p.index()]
}

/// The horizontal offset of the `k`-th neighbour, in scan order: rows from
/// top to bottom, each from left to right, the centre left out.
pub open spec fn step_x(k: int) -> int {
    if k == 0 || k == 3 || k == 5 {
        -1
    } else if k == 1 || k == 6 {
        0
    } else {
        1
    }
}

/// The vertical offset of the `k`-th neighbour, in scan order.
pub open spec fn step_y(k: int) -> int {
    if k <= 2 {
        -1
    } else if k <= 4 {
        0
    } else {
        1
    }
}

/// Whether the `k`-th neighbour of a point exists: the point is on the map
/// and the neighbour is too. Nothing wraps round an edge.
pub open spec fn has_neighbor(p: Point, k: int) -> bool {
    &&& p.in_bounds()
    &&& 0 <= k < 8
    &&& 0 <= p.x + step_x(k) < WIDTH
    &&& 0 <= p.y + step_y(k) < HEIGHT
}

/// The `k`-th neighbour of a point.
pub open spec fn neighbor(p: Point, k: int) -> Point {
    Point { x: (p.x + step_x(k)) as usize, y: (p.y + step_y(k)) as usize }
}

/// Whether two points of the map touch, by an edge or a corner.
pub open spec fn adjacent(p: Point, q: Point) -> bool {
    exists|k: int| has_neighbor(p, k) && neighbor(p, k) == q
}

/// The lowest value among the first `k` neighbours of a point, or the
/// sentinel where there is none.
pub open spec fn lowest_upto(f: Seq<i64>, p: Point, k: int) -> i64
    decreases k,
{
    if k <= 0 {
        UNREACHED
    } else {
        let rest = lowest_upto(f, p, k - 1);
        if has_neighbor(p, k - 1) && cell(f, neighbor(p, k - 1)) < rest {
            cell(f, neighbor(p, k - 1))
        } else {
            rest
        }
    }
}

/// The lowest value among the up-to-8 neighbours of a point.
pub open spec fn lowest(f: Seq<i64>, p: Point) -> i64 {
    lowest_upto(f, p, 8)
}

/// One step more than a value; the sentinel absorbs the step.
pub open spec fn one_more(v: i64) -> i64 {
    if v + UNIT > UNREACHED {
        UNREACHED
    } else {
        (v + UNIT) as i64
    }
}

/// The value that a point's neighbours offer it: one step more than the
/// lowest of them.
pub open spec fn candidate(f: Seq<i64>, p: Point) -> i64 {
    one_more(lowest(f, p))
}

/// Whether visiting a point lowers its value: it is not blocked and its
/// neighbours offer less than it holds.
pub open spec fn relaxes(f: Seq<i64>, b: Seq<bool>, p: Point) -> bool {
    !shut(b, p) && candidate(f, p) < cell(f, p)
}

/// The field after a point was visited.
pub open spec fn relaxed(f: Seq<i64>, b: Seq<bool>, p: Point) -> Seq<i64> {
    if relaxes(f, b, p) {
        f.update(p.index(), candidate(f, p))
    } else {
        f
    }
}

/// Whether the wave passes from `p` on to its `k`-th neighbour: the
/// neighbour exists, is not blocked and holds more than `p` does.
pub open spec fn passes_to(f: Seq<i64>, b: Seq<bool>, p: Point, k: int) -> bool {
    &&& has_neighbor(p, k)
    &&& !shut(b, neighbor(p, k))
    &&& cell(f, neighbor(p, k)) > cell(f, p)
}

/// The queue after the wave passed from `p` to those of its first `k`
/// neighbours that take it, in scan order.
pub open spec fn spread(queue: Seq<Point>, f: Seq<i64>, b: Seq<bool>, p: Point, k: int) -> Seq<
    Point,
>
    decreases k,
{
    if k <= 0 {
        queue
    } else {
        let before = spread(queue, f, b, p, k - 1);
        if passes_to(f, b, p, k - 1) {
            before.push(neighbor(p, k - 1))
        } else {
            before
        }
    }
}

/// A field together with the cells that wait to be visited.
pub struct Flood {
    /// The values, row by row.
    pub field: Seq<i64>,
    /// The cells that wait, first in first out.
    pub queue: Seq<Point>,
}

/// Whether visiting `p` sends the wave on: the visit lowered `p`, or `p`
/// holds zero, or `p` is a seed (`forced`).
pub open spec fn fires(f: Seq<i64>, b: Seq<bool>, p: Point, forced: bool) -> bool {
    forced || relaxes(f, b, p) || cell(f, p) == 0
}

/// The state after `p` was visited, given the state from which `p` was
/// already taken off the queue.
pub open spec fn visit(s: Flood, b: Seq<bool>, p: Point, forced: bool) -> Flood {
    let f = relaxed(s.field, b, p);
    Flood {
        field: f,
        queue: if fires(s.field, b, p, forced) {
            spread(s.queue, f, b, p, 8)
        } else {
            s.queue
        },
    }
}

/// The state after the first `i` seeds were visited, each sending the wave
/// on whether or not it was lowered.
pub open spec fn seeded(f: Seq<i64>, seeds: Seq<Point>, b: Seq<bool>, i: int) -> Flood
    decreases i,
{
    if i <= 0 {
        Flood { field: f, queue: Seq::empty() }
    } else {
        visit(seeded(f, seeds, b, i - 1), b, seeds[i - 1], true)
    }
}

/// One turn of the wavefront: the first waiting cell is visited. A state
/// with nothing waiting stays as it is.
pub open spec fn turn(s: Flood, b: Seq<bool>) -> Flood {
    if s.queue.len() == 0 {
        s
    } else {
        visit(Flood { field: s.field, queue: s.queue.drop_first() }, b, s.queue[0], false)
    }
}

/// The state after `n` turns.
pub open spec fn drained(s: Flood, b: Seq<bool>, n: nat) -> Flood
    decreases n,
{
    if n == 0 {
        s
    } else {
        turn(drained(s, b, (n - 1) as nat), b)
    }
}

/// Whether `n` turns suffice to empty the queue.
pub open spec fn settles_in(s: Flood, b: Seq<bool>, n: nat) -> bool {
    drained(s, b, n).queue.len() == 0
}

/// The field that the propagator leaves: the seeds are visited in order,
/// then the wavefront runs until no cell waits.
pub open spec fn flood_result(f: Seq<i64>, seeds: Seq<Point>, b: Seq<bool>) -> Seq<i64> {
    let start = seeded(f, seeds, b, seeds.len() as int);
    let n = choose|n: nat| settles_in(start, b, n);
    drained(start, b, n).field
}

/// Whether every point of a list lies on the map.
pub open spec fn all_in_bounds(ps: Seq<Point>) -> bool {
    forall|i: int| 0 <= i < ps.len() ==> (#[trigger] ps[i]).in_bounds()
}

/// The neighbour relation is symmetric: the `k`-th neighbour of `p` has `p`
/// as the neighbour opposite to `k`.
pub proof fn lemma_neighbor_mirror(p: Point, k: int)
    requires
        has_neighbor(p, k),
    ensures
        neighbor(p, k).in_bounds(),
        neighbor(p, k) != p,
        has_neighbor(neighbor(p, k), 7 - k),
        neighbor(neighbor(p, k), 7 - k) == p,
{
}

/// `lowest` is the minimum over the neighbours: no neighbour holds less,
/// and unless it is the sentinel some neighbour holds it.
pub proof fn lemma_lowest(f: Seq<i64>, p: Point)
    ensures
        forall|k: int| has_neighbor(p, k) ==> lowest(f, p) <= cell(f, #[trigger] neighbor(p, k)),
        lowest(f, p) == UNREACHED || exists|k: int|
            has_neighbor(p, k) && cell(f, #[trigger] neighbor(p, k)) == lowest(f, p),
{
    reveal_with_fuel(lowest_upto, 9);
    let m = lowest(f, p);
    if m != UNREACHED {
        let k = if has_neighbor(p, 0) && cell(f, neighbor(p, 0)) == m {
            0int
        } else if has_neighbor(p, 1) && cell(f, neighbor(p, 1)) == m {
            1int
        } else if has_neighbor(p, 2) && cell(f, neighbor(p, 2)) == m {
            2int
        } else if has_neighbor(p, 3) && cell(f, neighbor(p, 3)) == m {
            3int
        } else if has_neighbor(p, 4) && cell(f, neighbor(p, 4)) == m {
            4int
        } else if has_neighbor(p, 5) && cell(f, neighbor(p, 5)) == m {
            5int
        } else if has_neighbor(p, 6) && cell(f, neighbor(p, 6)) == m {
            6int
        } else {
            7int
        };
        assert(has_neighbor(p, k) && cell(f, neighbor(p, k)) == m);
    }
}

/// Lowering one cell can lower the `lowest` of a point only to the new
/// value, and only where the point touches that cell.
pub proof fn lemma_lowest_after_update(f: Seq<i64>, p: Point, v: i64, x: Point)
    requires
        f.len() == CELLS,
        p.in_bounds(),
        x.in_bounds(),
        v <= cell(f, p),
    ensures
        lowest(f.update(p.index(), v), x) <= lowest(f, x),
        lowest(f.update(p.index(), v), x) == lowest(f, x) || (lowest(f.update(p.index(), v), x)
            == v && exists|k: int| has_neighbor(p, k) && #[trigger] neighbor(p, k) == x),
        !adjacent(x, p) ==> lowest(f.update(p.index(), v), x) == lowest(f, x),
{
    let g = f.update(p.index(), v);
    lemma_lowest(f, x);
    lemma_lowest(g, x);
    assert forall|k: int| has_neighbor(x, k) implies cell(g, #[trigger] neighbor(x, k)) <= cell(
        f,
        neighbor(x, k),
    ) && (neighbor(x, k) != p ==> cell(g, neighbor(x, k)) == cell(f, neighbor(x, k))) by {
        lemma_neighbor_mirror(x, k);
    }
    if lowest(g, x) != lowest(f, x) {
        if lowest(f, x) != UNREACHED {
            let k = choose|k: int|
                has_neighbor(x, k) && cell(f, #[trigger] neighbor(x, k)) == lowest(f, x);
            assert(lowest(g, x) <= cell(g, neighbor(x, k)));
        }
        assert(lowest(g, x) != UNREACHED);
        let k = choose|k: int|
            has_neighbor(x, k) && cell(g, #[trigger] neighbor(x, k)) == lowest(g, x);
        assert(lowest(f, x) <= cell(f, neighbor(x, k)));
        assert(neighbor(x, k) == p);
        lemma_neighbor_mirror(x, k);
        assert(has_neighbor(p, 7 - k) && neighbor(p, 7 - k) == x);
    }
}

/// Whether `x` is one of the first `k` neighbours of `p` and takes the wave
/// from it.
pub open spec fn takes_wave(f: Seq<i64>, b: Seq<bool>, p: Point, k: int, x: Point) -> bool {
    exists|j: int| 0 <= j < k && passes_to(f, b, p, j) && x == neighbor(p, j)
}

/// What `spread` does to the queue: what waited still waits, in place;
/// what was added are neighbours that take the wave; and every neighbour
/// that takes the wave was added.
pub proof fn lemma_spread(queue: Seq<Point>, f: Seq<i64>, b: Seq<bool>, p: Point, k: int)
    requires
        0 <= k <= 8,
    ensures
        queue.len() <= spread(queue, f, b, p, k).len() <= queue.len() + k,
        forall|i: int| 0 <= i < queue.len() ==> spread(queue, f, b, p, k)[i] == queue[i],
        forall|i: int|
            queue.len() <= i < spread(queue, f, b, p, k).len() ==> takes_wave(
                f,
                b,
                p,
                k,
                #[trigger] spread(queue, f, b, p, k)[i],
            ),
        forall|j: int|
            0 <= j < k && passes_to(f, b, p, j) ==> spread(queue, f, b, p, k).contains(
                #[trigger] neighbor(p, j),
            ),
    decreases k,
{
    if k > 0 {
        lemma_spread(queue, f, b, p, k - 1);
        let before = spread(queue, f, b, p, k - 1);
        let after = spread(queue, f, b, p, k);
        assert forall|i: int| queue.len() <= i < after.len() implies takes_wave(
            f,
            b,
            p,
            k,
            #[trigger] after[i],
        ) by {
            if i < before.len() {
                assert(takes_wave(f, b, p, k - 1, before[i]));
                let j = choose|j: int|
                    0 <= j < k - 1 && passes_to(f, b, p, j) && before[i] == neighbor(p, j);
                assert(0 <= j < k && passes_to(f, b, p, j) && after[i] == neighbor(p, j));
            } else {
                assert(passes_to(f, b, p, k - 1) && after[i] == neighbor(p, k - 1));
            }
        }
        assert forall|j: int| 0 <= j < k && passes_to(f, b, p, j) implies after.contains(
            #[trigger] neighbor(p, j),
        ) by {
            if j < k - 1 {
                let i = choose|i: int| 0 <= i < before.len() && before[i] == neighbor(p, j);
                assert(after[i] == neighbor(p, j));
            } else {
                assert(after[after.len() - 1] == neighbor(p, j));
            }
        }
    }
}

/// What a visit does to the field: only the visited cell can change, and
/// only downwards, to one step above its lowest neighbour; afterwards the
/// visited cell, unless blocked, cannot be improved any more.
pub proof fn lemma_visit_field(s: Flood, b: Seq<bool>, p: Point, forced: bool)
    requires
        s.field.len() == CELLS,
        b.len() == CELLS,
        p.in_bounds(),
    ensures
        visit(s, b, p, forced).field.len() == CELLS,
        forall|q: Point|
            q.in_bounds() && q != p ==> #[trigger] cell(visit(s, b, p, forced).field, q) == cell(
                s.field,
                q,
            ),
        cell(visit(s, b, p, forced).field, p) <= cell(s.field, p),
        relaxes(s.field, b, p) ==> cell(visit(s, b, p, forced).field, p) == lowest(s.field, p)
            + UNIT,
        !relaxes(s.field, b, p) ==> visit(s, b, p, forced).field == s.field,
        lowest(visit(s, b, p, forced).field, p) == lowest(s.field, p),
        !shut(b, p) ==> cell(visit(s, b, p, forced).field, p) <= lowest(
            visit(s, b, p, forced).field,
            p,
        ) + UNIT,
{
    let g = visit(s, b, p, forced).field;
    if relaxes(s.field, b, p) {
        lemma_lowest_after_update(s.field, p, candidate(s.field, p), p);
        assert(!adjacent(p, p)) by {
            if adjacent(p, p) {
                let k = choose|k: int| has_neighbor(p, k) && neighbor(p, k) == p;
                lemma_neighbor_mirror(p, k);
            }
        }
        assert forall|q: Point| q.in_bounds() && q != p implies #[trigger] cell(g, q) == cell(
            s.field,
            q,
        ) by {
            if q.index() == p.index() {
                crate::grid::lemma_index_injective(p, q);
            }
        }
    }
}

} // verus!
