//! Why the wavefront comes to rest: every turn either lowers a value of the
//! field or shortens what the queue still has to do.

use crate::constants::CELLS;
use crate::flood::{
    all_in_bounds, cell, drained, fires, lemma_visit_field, neighbor, passes_to, relaxes, seeded,
    settles_in, spread, turn, Flood,
};
use crate::grid::Point;
use crate::wavefront::{
    bounded_below, comes_to_rest, kept, lemma_drained_add, lemma_seeded_kept, lemma_turn_kept,
    sealed,
};
use vstd::prelude::*;

verus! {

/// The sum of a field's values, each counted from the least `i64`, so that
/// no term is negative.
pub open spec fn weight(f: Seq<i64>) -> int
    decreases f.len(),
{
    if f.len() == 0 {
        0
    } else {
        weight(f.drop_last()) + (f.last() - i64::MIN)
    }
}

/// What a waiting point costs: one visit, and for a point at zero the up to
/// eight visits that it may cause without being lowered.
pub open spec fn toll(f: Seq<i64>, p: Point) -> int {
    if cell(f, p) == 0 {
        9
    } else {
        1
    }
}

/// The tolls of the points of a queue, added up.
pub open spec fn backlog(queue: Seq<Point>, f: Seq<i64>) -> int
    decreases queue.len(),
{
    if queue.len() == 0 {
        0
    } else {
        backlog(queue.drop_last(), f) + toll(f, queue.last())
    }
}

/// The weight of a field is not negative, and changing one value changes
/// it by the difference.
pub proof fn lemma_weight_update(f: Seq<i64>, i: int, v: i64)
    requires
        0 <= i < f.len(),
    ensures
        weight(f) >= 0,
        weight(f.update(i, v)) == weight(f) - f[i] + v,
    decreases f.len(),
{
    let g = f.update(i, v);
    if i == f.len() - 1 {
        assert(g.drop_last() == f.drop_last());
        lemma_weight_nonnegative(f.drop_last());
    } else {
        assert(g.drop_last() == f.drop_last().update(i, v));
        lemma_weight_update(f.drop_last(), i, v);
    }
}

/// The weight of a field is not negative.
pub proof fn lemma_weight_nonnegative(f: Seq<i64>)
    ensures
        weight(f) >= 0,
    decreases f.len(),
{
    if f.len() > 0 {
        lemma_weight_nonnegative(f.drop_last());
    }
}

/// The backlog of a queue is not negative, and taking the first point off
/// takes its toll off.
pub proof fn lemma_backlog_drop_first(queue: Seq<Point>, f: Seq<i64>)
    ensures
        backlog(queue, f) >= 0,
        queue.len() > 0 ==> backlog(queue.drop_first(), f) == backlog(queue, f) - toll(
            f,
            queue[0],
        ),
    decreases queue.len(),
{
    if queue.len() > 0 {
        lemma_backlog_drop_first(queue.drop_last(), f);
        if queue.len() > 1 {
            assert(queue.drop_first().drop_last() == queue.drop_last().drop_first());
        } else {
            assert(queue.drop_first().len() == 0);
        }
    }
}

/// Spreading from a point that holds no less than zero adds at most one to
/// the backlog for each neighbour: a point that takes the wave holds more
/// than zero.
pub proof fn lemma_backlog_spread(queue: Seq<Point>, f: Seq<i64>, b: Seq<bool>, p: Point, k: int)
    requires
        0 <= k <= 8,
        cell(f, p) >= 0,
    ensures
        backlog(spread(queue, f, b, p, k), f) <= backlog(queue, f) + k,
    decreases k,
{
    if k > 0 {
        lemma_backlog_spread(queue, f, b, p, k - 1);
        let before = spread(queue, f, b, p, k - 1);
        if passes_to(f, b, p, k - 1) {
            assert(before.push(neighbor(p, k - 1)).drop_last() == before);
        }
    }
}

/// A turn on a state in which something waits makes progress: either the
/// field gets lighter, or the field stays and the backlog shrinks.
pub proof fn lemma_turn_progress(s: Flood, b: Seq<bool>)
    requires
        s.field.len() == CELLS,
        b.len() == CELLS,
        s.queue.len() > 0,
        s.queue[0].in_bounds(),
    ensures
        weight(turn(s, b).field) >= 0,
        backlog(turn(s, b).queue, turn(s, b).field) >= 0,
        weight(turn(s, b).field) < weight(s.field) || (turn(s, b).field == s.field && backlog(
            turn(s, b).queue,
            turn(s, b).field,
        ) < backlog(s.queue, s.field)),
{
    let p = s.queue[0];
    let mid = Flood { field: s.field, queue: s.queue.drop_first() };
    let t = turn(s, b);
    lemma_visit_field(mid, b, p, false);
    lemma_weight_nonnegative(t.field);
    lemma_backlog_drop_first(t.queue, t.field);
    lemma_backlog_drop_first(s.queue, s.field);
    if relaxes(s.field, b, p) {
        lemma_weight_update(s.field, p.index(), cell(t.field, p));
    } else if fires(s.field, b, p, false) {
        lemma_backlog_spread(mid.queue, s.field, b, p, 8);
    }
}

/// The wavefront comes to rest from every state: some number of turns
/// empties the queue.
pub proof fn lemma_settles(f0: Seq<i64>, s: Flood, b: Seq<bool>) -> (n: nat)
    requires
        kept(f0, s, b, i64::MIN as int, Set::empty()),
    ensures
        settles_in(s, b, n),
    decreases weight(s.field), backlog(s.queue, s.field),
{
    if s.queue.len() == 0 {
        0
    } else {
        lemma_turn_progress(s, b);
        lemma_turn_kept(f0, s, b, i64::MIN as int, Set::empty());
        let m = lemma_settles(f0, turn(s, b), b);
        lemma_drained_add(s, b, 1, m);
        assert(drained(s, b, 1) == turn(s, b)) by {
            reveal_with_fuel(drained, 2);
        }
        m + 1
    }
}

/// The flood from any seeds on the map over any field comes to rest.
pub proof fn lemma_comes_to_rest(f: Seq<i64>, seeds: Seq<Point>, b: Seq<bool>)
    requires
        f.len() == CELLS,
        b.len() == CELLS,
        all_in_bounds(seeds),
    ensures
        comes_to_rest(f, seeds, b),
{
    assert(bounded_below(f, i64::MIN as int));
    assert(sealed(Set::empty(), f, b));
    lemma_seeded_kept(f, seeds, b, seeds.len() as int, i64::MIN as int, Set::empty());
    let n = lemma_settles(f, seeded(f, seeds, b, seeds.len() as int), b);
}

} // verus!
