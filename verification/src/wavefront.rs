//! What holds of a field while the wavefront runs over it, and so of the
//! field that the propagator leaves.

use crate::constants::{CELLS, UNIT, UNREACHED};
use crate::flood::{
    adjacent, all_in_bounds, cell, drained, flood_result, has_neighbor, lemma_lowest,
    lemma_lowest_after_update, lemma_neighbor_mirror, lemma_spread, lemma_visit_field, lowest,
    neighbor, passes_to, relaxes, seeded, settles_in, shut, takes_wave, turn, visit, Flood,
};
use crate::grid::Point;
use vstd::prelude::*;

verus! {

/// Whether a point cannot be improved: it is blocked, or it holds at most
/// one step more than its lowest neighbour.
pub open spec fn settled(f: Seq<i64>, b: Seq<bool>, p: Point) -> bool {
    shut(b, p) || cell(f, p) <= lowest(f, p) + UNIT
}

/// Whether no cell of a field holds less than `l`.
pub open spec fn bounded_below(f: Seq<i64>, l: int) -> bool {
    forall|p: Point| p.in_bounds() ==> #[trigger] cell(f, p) >= l
}

/// Whether a set of points is out of the wave's reach: each of them holds
/// the sentinel, and each that is not blocked has all its neighbours in the
/// set.
pub open spec fn sealed(u: Set<Point>, f: Seq<i64>, b: Seq<bool>) -> bool {
    forall|p: Point|
        p.in_bounds() && #[trigger] u.contains(p) ==> {
            &&& cell(f, p) == UNREACHED
            &&& !shut(b, p) ==> forall|k: int|
                has_neighbor(p, k) ==> u.contains(#[trigger] neighbor(p, k))
        }
}

/// What holds of every state of a flood that started from the field `f0`:
/// no value rose; blocked cells are untouched; and every changed cell holds
/// at least one step more than its lowest neighbour and, if it can still be
/// improved, waits in the queue (or is the cell `skip`, which is just being
/// visited).
pub open spec fn on_course(f0: Seq<i64>, s: Flood, b: Seq<bool>, skip: Option<Point>) -> bool {
    &&& f0.len() == CELLS
    &&& s.field.len() == CELLS
    &&& b.len() == CELLS
    &&& all_in_bounds(s.queue)
    &&& forall|p: Point| p.in_bounds() ==> #[trigger] cell(s.field, p) <= cell(f0, p)
    &&& forall|p: Point| p.in_bounds() && shut(b, p) ==> #[trigger] cell(s.field, p) == cell(f0, p)
    &&& forall|p: Point|
        p.in_bounds() && #[trigger] cell(s.field, p) != cell(f0, p) ==> {
            &&& cell(s.field, p) >= lowest(s.field, p) + UNIT
            &&& settled(s.field, b, p) || s.queue.contains(p) || skip == Some(p)
        }
}

/// `on_course`, together with a lower bound and a sealed set that the
/// starting field had.
pub open spec fn kept(f0: Seq<i64>, s: Flood, b: Seq<bool>, l: int, u: Set<Point>) -> bool {
    &&& on_course(f0, s, b, None)
    &&& bounded_below(s.field, l)
    &&& sealed(u, s.field, b)
}

/// A visit keeps a flood on course.
pub proof fn lemma_visit_on_course(f0: Seq<i64>, s: Flood, b: Seq<bool>, p: Point, forced: bool)
    requires
        on_course(f0, s, b, Some(p)),
        p.in_bounds(),
    ensures
        on_course(f0, visit(s, b, p, forced), b, None),
{
    let t = visit(s, b, p, forced);
    lemma_visit_field(s, b, p, forced);
    lemma_spread(s.queue, t.field, b, p, 8);
    assert(all_in_bounds(t.queue)) by {
        assert forall|i: int| 0 <= i < t.queue.len() implies (#[trigger] t.queue[i]).in_bounds() by {
            if i < s.queue.len() {
                assert(t.queue[i] == s.queue[i]);
            } else {
                assert(takes_wave(t.field, b, p, 8, t.queue[i]));
                let j = choose|j: int|
                    0 <= j < 8 && passes_to(t.field, b, p, j) && t.queue[i] == neighbor(p, j);
                lemma_neighbor_mirror(p, j);
            }
        }
    }
    assert forall|x: Point| x.in_bounds() implies #[trigger] cell(t.field, x) <= cell(f0, x) by {
        assert(cell(s.field, x) <= cell(f0, x));
    }
    assert forall|x: Point| x.in_bounds() && shut(b, x) implies #[trigger] cell(t.field, x)
        == cell(f0, x) by {
        assert(cell(s.field, x) == cell(f0, x));
    }
    assert forall|x: Point| x.in_bounds() && #[trigger] cell(t.field, x) != cell(f0, x) implies {
        &&& cell(t.field, x) >= lowest(t.field, x) + UNIT
        &&& settled(t.field, b, x) || t.queue.contains(x)
    } by {
        if x == p {
            if !relaxes(s.field, b, p) {
                assert(cell(s.field, p) != cell(f0, p));
                assert(!shut(b, p)) by {
                    if shut(b, p) {
                        assert(cell(s.field, p) == cell(f0, p));
                    }
                }
            }
        } else {
            assert(cell(s.field, x) != cell(f0, x));
            assert(!shut(b, x)) by {
                if shut(b, x) {
                    assert(cell(s.field, x) == cell(f0, x));
                }
            }
            if relaxes(s.field, b, p) {
                let v = cell(t.field, p);
                assert(t.field == s.field.update(p.index(), v));
                lemma_lowest_after_update(s.field, p, v, x);
                if s.queue.contains(x) {
                    let i = choose|i: int| 0 <= i < s.queue.len() && s.queue[i] == x;
                    assert(t.queue[i] == x);
                } else if !settled(t.field, b, x) {
                    assert(settled(s.field, b, x));
                    let k = choose|k: int| has_neighbor(p, k) && #[trigger] neighbor(p, k) == x;
                    assert(passes_to(t.field, b, p, k));
                    assert(t.queue.contains(neighbor(p, k)));
                }
            } else {
                if s.queue.contains(x) {
                    let i = choose|i: int| 0 <= i < s.queue.len() && s.queue[i] == x;
                    assert(t.queue[i] == x);
                }
            }
        }
    }
}

/// A visit keeps a lower bound of the field.
pub proof fn lemma_visit_bounded(s: Flood, b: Seq<bool>, p: Point, forced: bool, l: int)
    requires
        s.field.len() == CELLS,
        b.len() == CELLS,
        p.in_bounds(),
        bounded_below(s.field, l),
    ensures
        bounded_below(visit(s, b, p, forced).field, l),
{
    let t = visit(s, b, p, forced);
    lemma_visit_field(s, b, p, forced);
    lemma_lowest(s.field, p);
    assert forall|x: Point| x.in_bounds() implies #[trigger] cell(t.field, x) >= l by {
        assert(cell(s.field, x) >= l);
        if x == p && relaxes(s.field, b, p) {
            assert(lowest(s.field, p) != UNREACHED);
            let k = choose|k: int|
                has_neighbor(p, k) && cell(s.field, #[trigger] neighbor(p, k)) == lowest(
                    s.field,
                    p,
                );
            lemma_neighbor_mirror(p, k);
            assert(cell(s.field, neighbor(p, k)) >= l);
        }
    }
}

/// A visit leaves a sealed set sealed.
pub proof fn lemma_visit_sealed(s: Flood, b: Seq<bool>, p: Point, forced: bool, u: Set<Point>)
    requires
        s.field.len() == CELLS,
        b.len() == CELLS,
        p.in_bounds(),
        sealed(u, s.field, b),
    ensures
        sealed(u, visit(s, b, p, forced).field, b),
{
    let t = visit(s, b, p, forced);
    lemma_visit_field(s, b, p, forced);
    lemma_lowest(s.field, p);
    if u.contains(p) && relaxes(s.field, b, p) {
        assert(lowest(s.field, p) != UNREACHED);
        let k = choose|k: int|
            has_neighbor(p, k) && cell(s.field, #[trigger] neighbor(p, k)) == lowest(s.field, p);
        lemma_neighbor_mirror(p, k);
        assert(u.contains(neighbor(p, k)));
        assert(false);
    }
    assert forall|x: Point| x.in_bounds() && #[trigger] u.contains(x) implies {
        &&& cell(t.field, x) == UNREACHED
        &&& !shut(b, x) ==> forall|k: int|
            has_neighbor(x, k) ==> u.contains(#[trigger] neighbor(x, k))
    } by {
        assert(cell(s.field, x) == UNREACHED);
    }
}

/// A visit keeps all of `kept`.
pub proof fn lemma_visit_kept(
    f0: Seq<i64>,
    s: Flood,
    b: Seq<bool>,
    p: Point,
    forced: bool,
    l: int,
    u: Set<Point>,
)
    requires
        kept(f0, s, b, l, u),
        p.in_bounds(),
    ensures
        kept(f0, visit(s, b, p, forced), b, l, u),
{
    lemma_visit_on_course(f0, s, b, p, forced);
    lemma_visit_bounded(s, b, p, forced, l);
    lemma_visit_sealed(s, b, p, forced, u);
}

/// A turn of the wavefront keeps all of `kept`.
pub proof fn lemma_turn_kept(f0: Seq<i64>, s: Flood, b: Seq<bool>, l: int, u: Set<Point>)
    requires
        kept(f0, s, b, l, u),
    ensures
        kept(f0, turn(s, b), b, l, u),
{
    if s.queue.len() > 0 {
        let p = s.queue[0];
        let mid = Flood { field: s.field, queue: s.queue.drop_first() };
        assert(all_in_bounds(mid.queue)) by {
            assert forall|i: int| 0 <= i < mid.queue.len() implies (
            #[trigger] mid.queue[i]).in_bounds() by {
                assert(mid.queue[i] == s.queue[i + 1]);
            }
        }
        assert forall|x: Point| x.in_bounds() && #[trigger] cell(mid.field, x) != cell(
            f0,
            x,
        ) implies settled(mid.field, b, x) || mid.queue.contains(x) || Some(p) == Some(x) by {
            if !settled(s.field, b, x) && x != p {
                let i = choose|i: int| 0 <= i < s.queue.len() && s.queue[i] == x;
                assert(mid.queue[i - 1] == x);
            }
        }
        assert(on_course(f0, mid, b, Some(p)));
        lemma_visit_on_course(f0, mid, b, p, false);
        lemma_visit_bounded(mid, b, p, false, l);
        lemma_visit_sealed(mid, b, p, false, u);
    }
}

/// The state after the seeds were visited has all of `kept`.
pub proof fn lemma_seeded_kept(
    f0: Seq<i64>,
    seeds: Seq<Point>,
    b: Seq<bool>,
    i: int,
    l: int,
    u: Set<Point>,
)
    requires
        f0.len() == CELLS,
        b.len() == CELLS,
        all_in_bounds(seeds),
        0 <= i <= seeds.len(),
        bounded_below(f0, l),
        sealed(u, f0, b),
    ensures
        kept(f0, seeded(f0, seeds, b, i), b, l, u),
    decreases i,
{
    if i > 0 {
        lemma_seeded_kept(f0, seeds, b, i - 1, l, u);
        lemma_visit_kept(f0, seeded(f0, seeds, b, i - 1), b, seeds[i - 1], true, l, u);
    }
}

/// The state after any number of turns has all of `kept`.
pub proof fn lemma_drained_kept(
    f0: Seq<i64>,
    s: Flood,
    b: Seq<bool>,
    n: nat,
    l: int,
    u: Set<Point>,
)
    requires
        kept(f0, s, b, l, u),
    ensures
        kept(f0, drained(s, b, n), b, l, u),
    decreases n,
{
    if n > 0 {
        lemma_drained_kept(f0, s, b, (n - 1) as nat, l, u);
        lemma_turn_kept(f0, drained(s, b, (n - 1) as nat), b, l, u);
    }
}

/// Whether a point will be visited: it waits in the queue, or is a seed
/// still to come, or touches such a seed and holds more than it.
pub open spec fn awaited(s: Flood, rest: Seq<Point>, p: Point) -> bool {
    ||| s.queue.contains(p)
    ||| rest.contains(p)
    ||| exists|j: int|
        0 <= j < rest.len() && adjacent(#[trigger] rest[j], p) && cell(s.field, p) > cell(
            s.field,
            rest[j],
        )
}

/// Whether every point of the map either cannot be improved or will be
/// visited.
pub open spec fn calm(s: Flood, b: Seq<bool>, rest: Seq<Point>) -> bool {
    forall|p: Point| p.in_bounds() ==> #[trigger] settled(s.field, b, p) || awaited(s, rest, p)
}

/// A visit keeps a flood calm: the visited point ends settled, and the
/// points that the visit unsettled were put in the queue.
pub proof fn lemma_visit_calm(s: Flood, b: Seq<bool>, p: Point, forced: bool, rest: Seq<Point>)
    requires
        s.field.len() == CELLS,
        b.len() == CELLS,
        p.in_bounds(),
        all_in_bounds(rest),
        forall|x: Point|
            x.in_bounds() ==> {
                ||| #[trigger] settled(s.field, b, x)
                ||| x == p
                ||| awaited(s, rest, x)
                ||| (forced && adjacent(p, x) && cell(s.field, x) > cell(s.field, p))
            },
    ensures
        calm(visit(s, b, p, forced), b, rest),
{
    let t = visit(s, b, p, forced);
    lemma_visit_field(s, b, p, forced);
    lemma_spread(s.queue, t.field, b, p, 8);
    assert forall|x: Point| x.in_bounds() implies #[trigger] settled(t.field, b, x) || awaited(
        t,
        rest,
        x,
    ) by {
        if x != p && !shut(b, x) {
            assert(settled(s.field, b, x) || awaited(s, rest, x) || (forced && adjacent(p, x)
                && cell(s.field, x) > cell(s.field, p)));
            assert(cell(t.field, x) == cell(s.field, x));
            if s.queue.contains(x) {
                let i = choose|i: int| 0 <= i < s.queue.len() && s.queue[i] == x;
                assert(t.queue[i] == x);
            } else if rest.contains(x) {
            } else if exists|j: int|
                0 <= j < rest.len() && adjacent(#[trigger] rest[j], x) && cell(s.field, x) > cell(
                    s.field,
                    rest[j],
                ) {
                let j = choose|j: int|
                    0 <= j < rest.len() && adjacent(#[trigger] rest[j], x) && cell(s.field, x)
                        > cell(s.field, rest[j]);
                assert(rest[j].in_bounds());
                assert(cell(t.field, rest[j]) <= cell(s.field, rest[j]));
                assert(awaited(t, rest, x));
            } else if forced && adjacent(p, x) && cell(s.field, x) > cell(s.field, p) {
                let k = choose|k: int| has_neighbor(p, k) && neighbor(p, k) == x;
                assert(passes_to(t.field, b, p, k));
                assert(t.queue.contains(neighbor(p, k)));
            } else {
                assert(settled(s.field, b, x));
                if relaxes(s.field, b, p) {
                    let v = cell(t.field, p);
                    assert(t.field == s.field.update(p.index(), v));
                    lemma_lowest_after_update(s.field, p, v, x);
                    if !settled(t.field, b, x) {
                        let k = choose|k: int| has_neighbor(p, k) && #[trigger] neighbor(p, k) == x;
                        assert(passes_to(t.field, b, p, k));
                        assert(t.queue.contains(neighbor(p, k)));
                    }
                }
            }
        }
    }
}

/// A turn of the wavefront keeps a flood calm.
pub proof fn lemma_turn_calm(s: Flood, b: Seq<bool>)
    requires
        s.field.len() == CELLS,
        b.len() == CELLS,
        all_in_bounds(s.queue),
        calm(s, b, Seq::empty()),
    ensures
        calm(turn(s, b), b, Seq::empty()),
{
    if s.queue.len() > 0 {
        let p = s.queue[0];
        let mid = Flood { field: s.field, queue: s.queue.drop_first() };
        let none = Seq::<Point>::empty();
        assert forall|x: Point| x.in_bounds() implies #[trigger] settled(mid.field, b, x) || x == p
            || awaited(mid, none, x) by {
            if !settled(s.field, b, x) && x != p {
                assert(awaited(s, none, x));
                let i = choose|i: int| 0 <= i < s.queue.len() && s.queue[i] == x;
                assert(mid.queue[i - 1] == x);
            }
        }
        lemma_visit_calm(mid, b, p, false, none);
    }
}

/// Where the starting field is calm but for what the seeds await, the
/// state after the first `i` seeds is calm but for what the other seeds
/// await.
pub proof fn lemma_seeded_calm(f0: Seq<i64>, seeds: Seq<Point>, b: Seq<bool>, i: int)
    requires
        f0.len() == CELLS,
        b.len() == CELLS,
        all_in_bounds(seeds),
        0 <= i <= seeds.len(),
        calm(Flood { field: f0, queue: Seq::empty() }, b, seeds),
    ensures
        calm(seeded(f0, seeds, b, i), b, seeds.subrange(i, seeds.len() as int)),
    decreases i,
{
    if i == 0 {
        assert(seeds.subrange(0, seeds.len() as int) == seeds);
    } else {
        lemma_seeded_calm(f0, seeds, b, i - 1);
        lemma_seeded_kept(f0, seeds, b, i - 1, i64::MIN as int, Set::empty());
        let s = seeded(f0, seeds, b, i - 1);
        let p = seeds[i - 1];
        let before = seeds.subrange(i - 1, seeds.len() as int);
        let rest = seeds.subrange(i, seeds.len() as int);
        assert(before[0] == p);
        assert forall|x: Point| x.in_bounds() implies {
            ||| #[trigger] settled(s.field, b, x)
            ||| x == p
            ||| awaited(s, rest, x)
            ||| (adjacent(p, x) && cell(s.field, x) > cell(s.field, p))
        } by {
            if !settled(s.field, b, x) && x != p {
                assert(awaited(s, before, x));
                if s.queue.contains(x) {
                } else if before.contains(x) {
                    let j = choose|j: int| 0 <= j < before.len() && before[j] == x;
                    assert(rest[j - 1] == x);
                } else {
                    let j = choose|j: int|
                        0 <= j < before.len() && adjacent(#[trigger] before[j], x) && cell(
                            s.field,
                            x,
                        ) > cell(s.field, before[j]);
                    if j > 0 {
                        assert(rest[j - 1] == before[j]);
                        assert(awaited(s, rest, x));
                    }
                }
            }
        }
        lemma_visit_calm(s, b, p, true, rest);
    }
}

/// The state after any number of turns is calm if the state before was.
pub proof fn lemma_drained_calm(f0: Seq<i64>, s: Flood, b: Seq<bool>, n: nat)
    requires
        on_course(f0, s, b, None),
        calm(s, b, Seq::empty()),
    ensures
        calm(drained(s, b, n), b, Seq::empty()),
    decreases n,
{
    if n > 0 {
        lemma_drained_calm(f0, s, b, (n - 1) as nat);
        assert(bounded_below(s.field, i64::MIN as int));
        assert(sealed(Set::empty(), s.field, b));
        lemma_drained_kept(f0, s, b, (n - 1) as nat, i64::MIN as int, Set::empty());
        lemma_turn_calm(drained(s, b, (n - 1) as nat), b);
    }
}

/// Turns add up.
pub proof fn lemma_drained_add(s: Flood, b: Seq<bool>, m: nat, n: nat)
    ensures
        drained(s, b, m + n) == drained(drained(s, b, m), b, n),
    decreases n,
{
    if n > 0 {
        lemma_drained_add(s, b, m, (n - 1) as nat);
    }
}

/// Once nothing waits, further turns change nothing.
pub proof fn lemma_drained_rests(s: Flood, b: Seq<bool>, n: nat)
    requires
        s.queue.len() == 0,
    ensures
        drained(s, b, n) == s,
    decreases n,
{
    if n > 0 {
        lemma_drained_rests(s, b, (n - 1) as nat);
    }
}

/// Whether the flood from `seeds` over `f` comes to rest.
pub open spec fn comes_to_rest(f: Seq<i64>, seeds: Seq<Point>, b: Seq<bool>) -> bool {
    exists|n: nat| settles_in(seeded(f, seeds, b, seeds.len() as int), b, n)
}

/// The field that the propagator leaves is the field of any state of the
/// flood in which nothing waits.
pub proof fn lemma_flood_result_is(f: Seq<i64>, seeds: Seq<Point>, b: Seq<bool>, n: nat)
    requires
        settles_in(seeded(f, seeds, b, seeds.len() as int), b, n),
    ensures
        comes_to_rest(f, seeds, b),
        flood_result(f, seeds, b) == drained(seeded(f, seeds, b, seeds.len() as int), b, n).field,
{
    let start = seeded(f, seeds, b, seeds.len() as int);
    let m = choose|m: nat| settles_in(start, b, m);
    if m <= n {
        lemma_drained_add(start, b, m, (n - m) as nat);
        lemma_drained_rests(drained(start, b, m), b, (n - m) as nat);
    } else {
        lemma_drained_add(start, b, n, (m - n) as nat);
        lemma_drained_rests(drained(start, b, n), b, (m - n) as nat);
    }
}

/// What the propagator does to any field: no value rises, and none falls
/// below a lower bound of the field; blocked cells are untouched; every
/// changed cell holds exactly one step more than its lowest neighbour; and a
/// sealed set stays as it was.
pub proof fn lemma_flood_result(
    f: Seq<i64>,
    seeds: Seq<Point>,
    b: Seq<bool>,
    l: int,
    u: Set<Point>,
)
    requires
        f.len() == CELLS,
        b.len() == CELLS,
        all_in_bounds(seeds),
        comes_to_rest(f, seeds, b),
        bounded_below(f, l),
        sealed(u, f, b),
    ensures
        flood_result(f, seeds, b).len() == CELLS,
        forall|p: Point|
            p.in_bounds() ==> #[trigger] cell(flood_result(f, seeds, b), p) <= cell(f, p),
        forall|p: Point|
            p.in_bounds() && shut(b, p) ==> #[trigger] cell(flood_result(f, seeds, b), p) == cell(
                f,
                p,
            ),
        forall|p: Point|
            p.in_bounds() && #[trigger] cell(flood_result(f, seeds, b), p) != cell(f, p) ==> cell(
                flood_result(f, seeds, b),
                p,
            ) == lowest(flood_result(f, seeds, b), p) + UNIT,
        bounded_below(flood_result(f, seeds, b), l),
        sealed(u, flood_result(f, seeds, b), b),
{
    let start = seeded(f, seeds, b, seeds.len() as int);
    let n = choose|n: nat| settles_in(start, b, n);
    lemma_seeded_kept(f, seeds, b, seeds.len() as int, l, u);
    lemma_drained_kept(f, start, b, n, l, u);
    let end = drained(start, b, n);
    assert forall|p: Point|
        p.in_bounds() && #[trigger] cell(end.field, p) != cell(f, p) implies cell(end.field, p)
        == lowest(end.field, p) + UNIT by {
        assert(!shut(b, p)) by {
            if shut(b, p) {
                assert(cell(end.field, p) == cell(f, p));
            }
        }
        assert(!end.queue.contains(p));
    }
}

/// Where every point that can be improved is a seed, or touches a seed and
/// holds more than it, the propagator leaves a field in which no point can
/// be improved.
pub proof fn lemma_flood_result_settled(f: Seq<i64>, seeds: Seq<Point>, b: Seq<bool>)
    requires
        f.len() == CELLS,
        b.len() == CELLS,
        all_in_bounds(seeds),
        comes_to_rest(f, seeds, b),
        calm(Flood { field: f, queue: Seq::empty() }, b, seeds),
    ensures
        forall|p: Point| p.in_bounds() ==> #[trigger] settled(flood_result(f, seeds, b), b, p),
{
    let start = seeded(f, seeds, b, seeds.len() as int);
    let n = choose|n: nat| settles_in(start, b, n);
    lemma_seeded_calm(f, seeds, b, seeds.len() as int);
    assert(seeds.subrange(seeds.len() as int, seeds.len() as int) == Seq::<Point>::empty());
    assert(bounded_below(f, i64::MIN as int));
    assert(sealed(Set::empty(), f, b));
    lemma_seeded_kept(f, seeds, b, seeds.len() as int, i64::MIN as int, Set::empty());
    lemma_drained_calm(f, start, b, n);
    let end = drained(start, b, n);
    assert forall|p: Point| p.in_bounds() implies #[trigger] settled(end.field, b, p) by {
        assert(settled(end.field, b, p) || awaited(end, Seq::empty(), p));
        assert(!end.queue.contains(p));
    }
}

} // verus!
