//! The transition engine: builds a per-pixel migration plan between the lit
//! pixels of an outgoing and an incoming scene, and advances it one unit per
//! tick until every pair has settled on its target.

use vstd::prelude::*;
use vstd::math::abs;
use crate::geom::{Vec2, dist_sq};

verus! {

/// Index of the point of `s` nearest to `p`; the earliest index wins a tie.
pub open spec fn nearest_idx(s: Seq<Vec2>, p: Vec2) -> int
    decreases s.len(),
{
    if s.len() <= 1 {
        0
    } else {
        let rest = nearest_idx(s.drop_first(), p) + 1;
        if dist_sq(s[0], p) <= dist_sq(s[rest], p) {
            0
        } else {
            rest
        }
    }
}

/// `j` is the index of the point of `s` nearest to `p`, ties broken by the
/// earliest index.
pub open spec fn is_first_nearest(s: Seq<Vec2>, p: Vec2, j: int) -> bool {
    &&& 0 <= j < s.len()
    &&& forall|k: int| 0 <= k < s.len() ==> dist_sq(s[j], p) <= dist_sq(#[trigger] s[k], p)
    &&& forall|k: int| 0 <= k < j ==> dist_sq(#[trigger] s[k], p) > dist_sq(s[j], p)
}

pub proof fn lemma_nearest_idx_is_first_nearest(s: Seq<Vec2>, p: Vec2)
    requires
        s.len() > 0,
    ensures
        is_first_nearest(s, p, nearest_idx(s, p)),
    decreases s.len(),
{
    if s.len() > 1 {
        lemma_nearest_idx_is_first_nearest(s.drop_first(), p);
        let rest = nearest_idx(s.drop_first(), p) + 1;
        assert(forall|k: int| 1 <= k < s.len() ==> s[k] == s.drop_first()[k - 1]);
        assert(is_first_nearest(s.drop_first(), p, rest - 1));
        if dist_sq(s[0], p) <= dist_sq(s[rest], p) {
            assert(forall|k: int| 1 <= k < s.len()
                ==> dist_sq(s[0], p) <= dist_sq(#[trigger] s[k], p));
        }
    }
}

pub proof fn lemma_first_nearest_unique(s: Seq<Vec2>, p: Vec2, j: int)
    requires
        is_first_nearest(s, p, j),
    ensures
        j == nearest_idx(s, p),
{
    lemma_nearest_idx_is_first_nearest(s, p);
    let n = nearest_idx(s, p);
    if j < n {
        assert(dist_sq(s[j], p) > dist_sq(s[n], p));
        assert(dist_sq(s[j], p) <= dist_sq(s[n], p));
    }
    if n < j {
        assert(dist_sq(s[n], p) > dist_sq(s[j], p));
        assert(dist_sq(s[n], p) <= dist_sq(s[j], p));
    }
}

/// The pairs made in the first, target-driven pass: every target point is
/// matched with the nearest origin point, or with itself when there are no
/// origin points at all.
pub open spec fn matched_pairs(origin: Seq<Vec2>, target: Seq<Vec2>) -> Seq<(Vec2, Vec2)> {
    Seq::new(
        target.len(),
        |i: int|
            if origin.len() == 0 {
                (target[i], target[i])
            } else {
                (origin[nearest_idx(origin, target[i])], target[i])
            },
    )
}

/// `o` won at least one match in the first pass.
pub open spec fn is_winner(origin: Seq<Vec2>, target: Seq<Vec2>, o: Vec2) -> bool {
    exists|i: int|
        0 <= i < target.len() && origin[nearest_idx(origin, #[trigger] target[i])] == o
}

/// Origin index `j` was selected by at least one target point in the first
/// pass.
spec fn won_index(origin: Seq<Vec2>, target: Seq<Vec2>, j: int) -> bool {
    exists|i: int| 0 <= i < target.len() && nearest_idx(origin, #[trigger] target[i]) == j
}

/// The target a leftover origin migrates to: its nearest target point, or an
/// off-grid sentinel when there are no target points at all.
pub open spec fn leftover_target(target: Seq<Vec2>, o: Vec2) -> Vec2 {
    if target.len() == 0 {
        Vec2 { x: -1i32, y: -1i32 }
    } else {
        target[nearest_idx(target, o)]
    }
}

/// The pairs made in the second pass for the first `n` origin points: every
/// origin point never selected in the first pass joins its nearest target
/// point, keeping the order they have in the origin list.
pub open spec fn leftover_pairs_upto(origin: Seq<Vec2>, target: Seq<Vec2>, n: int) -> Seq<
    (Vec2, Vec2),
>
    decreases n,
{
    if n <= 0 {
        Seq::empty()
    } else {
        let prev = leftover_pairs_upto(origin, target, n - 1);
        if is_winner(origin, target, origin[n - 1]) {
            prev
        } else {
            prev.push((origin[n - 1], leftover_target(target, origin[n - 1])))
        }
    }
}

/// The full migration plan: one pair per target point, then one pair per
/// leftover origin point.
pub open spec fn transition_plan(origin: Seq<Vec2>, target: Seq<Vec2>) -> Seq<(Vec2, Vec2)> {
    matched_pairs(origin, target) + leftover_pairs_upto(origin, target, origin.len() as int)
}

/// Index of the point of `points` nearest to `p`, scanning forward and keeping
/// the first point on a tie.
fn nearest(points: &Vec<Vec2>, p: Vec2) -> (r: usize)
    requires
        points.len() > 0,
    ensures
        r < points.len(),
        r == nearest_idx(points@, p),
{
    let mut best: usize = 0;
    let mut best_dist: i128 = points[0].dist_sq_to(&p);
    let mut i: usize = 1;
    while i < points.len()
        invariant
            points.len() > 0,
            1 <= i <= points.len(),
            best < i,
            best_dist == dist_sq(points@[best as int], p),
            forall|k: int| 0 <= k < i
                ==> dist_sq(points@[best as int], p) <= dist_sq(#[trigger] points@[k], p),
            forall|k: int| 0 <= k < best
                ==> dist_sq(#[trigger] points@[k], p) > dist_sq(points@[best as int], p),
        decreases points.len() - i,
    {
        let d = points[i].dist_sq_to(&p);
        if d < best_dist {
            best = i;
            best_dist = d;
        }
        i = i + 1;
    }
    proof {
        lemma_first_nearest_unique(points@, p, best as int);
    }
    best
}

/// Build the migration plan from an outgoing pixel set to an incoming one, as
/// `transition_plan` describes: a greedy, target-driven nearest-neighbour
/// matching in which origin points may be reused, followed by a pass pairing
/// every origin point that never won a match with its nearest target point.
pub fn create_transition(origin: &Vec<Vec2>, target: &Vec<Vec2>) -> (r: Vec<(Vec2, Vec2)>)
    ensures
        r@ == transition_plan(origin@, target@),
{
    let mut used: Vec<bool> = Vec::new();
    let mut k: usize = 0;
    while k < origin.len()
        invariant
            used.len() == k,
            k <= origin.len(),
            forall|j: int| 0 <= j < k ==> !used@[j],
        decreases origin.len() - k,
    {
        used.push(false);
        k = k + 1;
    }

    let mut result: Vec<(Vec2, Vec2)> = Vec::new();
    let mut t: usize = 0;
    while t < target.len()
        invariant
            used.len() == origin.len(),
            t <= target.len(),
            result@ == matched_pairs(origin@, target@).take(t as int),
            forall|j: int| 0 <= j < origin.len()
                ==> (#[trigger] used@[j] <==> exists|i: int|
                    0 <= i < t && nearest_idx(origin@, #[trigger] target@[i]) == j),
        decreases target.len() - t,
    {
        let tp = target[t];
        if origin.len() == 0 {
            result.push((tp, tp));
        } else {
            let j = nearest(origin, tp);
            result.push((origin[j], tp));
            used.set(j, true);
        }
        proof {
            assert(result@ =~= matched_pairs(origin@, target@).take(t + 1));
        }
        t = t + 1;
    }

    proof {
        assert forall|j: int| 0 <= j < origin.len()
            implies (#[trigger] used@[j] <==> won_index(origin@, target@, j)) by {
            if used@[j] {
                let i = choose|i: int|
                    0 <= i < target@.len() && nearest_idx(origin@, #[trigger] target@[i]) == j;
                assert(won_index(origin@, target@, j));
            }
            if won_index(origin@, target@, j) {
                let i = choose|i: int|
                    0 <= i < target@.len() && nearest_idx(origin@, #[trigger] target@[i]) == j;
                assert(used@[j]);
            }
        }
    }

    // An origin point is a leftover when no origin index that won a match
    // holds an equal value.
    let mut o: usize = 0;
    while o < origin.len()
        invariant
            used.len() == origin.len(),
            o <= origin.len(),
            forall|j: int| 0 <= j < origin.len()
                ==> (#[trigger] used@[j] <==> won_index(origin@, target@, j)),
            result@ == matched_pairs(origin@, target@)
                + leftover_pairs_upto(origin@, target@, o as int),
        decreases origin.len() - o,
    {
        let op = origin[o];
        let mut won: bool = false;
        let mut j: usize = 0;
        while j < used.len()
            invariant
                used.len() == origin.len(),
                o < origin.len(),
                op == origin@[o as int],
                j <= used.len(),
                forall|jj: int| 0 <= jj < origin.len()
                    ==> (#[trigger] used@[jj] <==> won_index(origin@, target@, jj)),
                won <==> exists|jj: int|
                    0 <= jj < j && #[trigger] used@[jj] && origin@[jj] == op,
            decreases used.len() - j,
        {
            if used[j] && origin[j].x == op.x && origin[j].y == op.y {
                proof {
                    assert(origin@[j as int] == op);
                }
                won = true;
            }
            j = j + 1;
        }
        proof {
            if won {
                let jj = choose|jj: int|
                    0 <= jj < j && #[trigger] used@[jj] && origin@[jj] == op;
                assert(won_index(origin@, target@, jj));
                let i = choose|i: int|
                    0 <= i < target@.len() && nearest_idx(origin@, #[trigger] target@[i]) == jj;
                assert(origin@[nearest_idx(origin@, target@[i])] == op);
                assert(is_winner(origin@, target@, op));
            } else {
                if is_winner(origin@, target@, op) {
                    let i = choose|i: int|
                        0 <= i < target@.len()
                            && origin@[nearest_idx(origin@, #[trigger] target@[i])] == op;
                    let jj = nearest_idx(origin@, target@[i]);
                    lemma_nearest_idx_is_first_nearest(origin@, target@[i]);
                    assert(won_index(origin@, target@, jj));
                    assert(used@[jj] && origin@[jj] == op);
                }
            }
        }
        if !won {
            let tgt = if target.len() == 0 {
                Vec2 { x: -1, y: -1 }
            } else {
                let j2 = nearest(target, op);
                target[j2]
            };
            proof {
                assert(tgt == leftover_target(target@, op));
            }
            result.push((op, tgt));
        }
        proof {
            let prev = leftover_pairs_upto(origin@, target@, o as int);
            let next = leftover_pairs_upto(origin@, target@, o + 1);
            if won {
                assert(next == prev);
                assert(result@ == matched_pairs(origin@, target@) + next);
            } else {
                assert(next == prev.push((op, leftover_target(target@, op))));
                assert(result@ =~= matched_pairs(origin@, target@) + next);
            }
        }
        o = o + 1;
    }
    result
}

/// One unit of motion along one axis: toward `b`, never overshooting.
pub open spec fn spec_approach(a: i32, b: i32) -> i32 {
    if a == b {
        a
    } else if a > b {
        (a - 1) as i32
    } else {
        (a + 1) as i32
    }
}

/// Move `a` one unit toward `b`; `a` itself once they are equal.
pub fn approach(a: i32, b: i32) -> (r: i32)
    ensures
        r == spec_approach(a, b),
{
    if a == b {
        a
    } else if a > b {
        a - 1
    } else {
        a + 1
    }
}

/// One tick of motion for a single pair. A settled pair stays put; otherwise
/// each axis that still differs steps one unit toward the target, except that
/// when both axes differ only one of them moves, picked by the tick's parity.
pub open spec fn step_pair(pair: (Vec2, Vec2), odd_tick: bool) -> (Vec2, Vec2) {
    let (o, t) = pair;
    if o == t {
        pair
    } else {
        let nx = spec_approach(o.x, t.x);
        let ny = spec_approach(o.y, t.y);
        if nx != o.x && ny != o.y {
            if odd_tick {
                (Vec2 { x: o.x, y: ny }, t)
            } else {
                (Vec2 { x: nx, y: o.y }, t)
            }
        } else {
            (Vec2 { x: nx, y: ny }, t)
        }
    }
}

/// Every pair of the plan has reached its target.
pub open spec fn all_settled(plan: Seq<(Vec2, Vec2)>) -> bool {
    forall|i: int| 0 <= i < plan.len() ==> (#[trigger] plan[i]).0 == plan[i].1
}

/// Advance every pair of the plan by one tick. The second result reports
/// whether any pair moved, i.e. whether the plan had not yet converged.
pub fn advance_plan(plan: &Vec<(Vec2, Vec2)>, odd_tick: bool) -> (r: (Vec<(Vec2, Vec2)>, bool))
    ensures
        r.0@ == plan@.map_values(|p: (Vec2, Vec2)| step_pair(p, odd_tick)),
        r.1 == !all_settled(plan@),
{
    let mut out: Vec<(Vec2, Vec2)> = Vec::new();
    let mut changed: bool = false;
    let mut i: usize = 0;
    while i < plan.len()
        invariant
            i <= plan.len(),
            out@ == plan@.take(i as int).map_values(|p: (Vec2, Vec2)| step_pair(p, odd_tick)),
            changed <==> exists|k: int| 0 <= k < i && (#[trigger] plan@[k]).0 != plan@[k].1,
        decreases plan.len() - i,
    {
        let (o, t) = plan[i];
        if o.x == t.x && o.y == t.y {
            out.push((o, t));
        } else {
            changed = true;
            let mut x = approach(o.x, t.x);
            let mut y = approach(o.y, t.y);
            if x != o.x && y != o.y {
                if odd_tick {
                    x = o.x;
                } else {
                    y = o.y;
                }
            }
            out.push((Vec2 { x, y }, t));
        }
        proof {
            assert(plan@.take(i + 1) =~= plan@.take(i as int).push(plan@[i as int]));
            assert(out@ =~= plan@.take(i + 1).map_values(
                |p: (Vec2, Vec2)| step_pair(p, odd_tick)));
        }
        i = i + 1;
    }
    proof {
        assert(plan@.take(plan@.len() as int) =~= plan@);
    }
    (out, changed)
}

/// How far a pair still has to travel: the sum of its two axis distances.
pub open spec fn pair_l1(pair: (Vec2, Vec2)) -> int {
    abs(pair.0.x - pair.1.x) as int + abs(pair.0.y - pair.1.y) as int
}

/// A tick shortens an unsettled pair's remaining travel by exactly one unit
/// and leaves a settled pair alone; the target never moves.
pub proof fn lemma_step_pair_l1(pair: (Vec2, Vec2), odd_tick: bool)
    ensures
        step_pair(pair, odd_tick).1 == pair.1,
        pair_l1(step_pair(pair, odd_tick))
            == if pair_l1(pair) == 0 { 0int } else { pair_l1(pair) - 1 },
        pair_l1(pair) == 0 <==> pair.0 == pair.1,
{
}

/// The plan after `parities` many ticks, the parity of each tick given by the
/// corresponding element.
pub open spec fn run_plan(plan: Seq<(Vec2, Vec2)>, parities: Seq<bool>) -> Seq<(Vec2, Vec2)>
    decreases parities.len(),
{
    if parities.len() == 0 {
        plan
    } else {
        run_plan(
            plan.map_values(|p: (Vec2, Vec2)| step_pair(p, parities[0])),
            parities.drop_first(),
        )
    }
}

/// After any sequence of ticks, each pair's remaining travel has shrunk by one
/// unit per tick, to a floor of zero; pair count and targets are unchanged.
pub proof fn lemma_run_plan_l1(plan: Seq<(Vec2, Vec2)>, parities: Seq<bool>)
    ensures
        run_plan(plan, parities).len() == plan.len(),
        forall|i: int| 0 <= i < plan.len()
            ==> (#[trigger] run_plan(plan, parities)[i]).1 == plan[i].1,
        forall|i: int| 0 <= i < plan.len()
            ==> pair_l1(#[trigger] run_plan(plan, parities)[i])
                == if pair_l1(plan[i]) >= parities.len() {
                    pair_l1(plan[i]) - parities.len()
                } else {
                    0int
                },
    decreases parities.len(),
{
    if parities.len() > 0 {
        let stepped = plan.map_values(|p: (Vec2, Vec2)| step_pair(p, parities[0]));
        assert forall|i: int| 0 <= i < plan.len() implies pair_l1(#[trigger] stepped[i])
            == (if pair_l1(plan[i]) == 0 { 0int } else { pair_l1(plan[i]) - 1 })
            && stepped[i].1 == plan[i].1 by {
            lemma_step_pair_l1(plan[i], parities[0]);
        }
        lemma_run_plan_l1(stepped, parities.drop_first());
    }
}

/// Convergence: once the tick count reaches the farthest pair's remaining
/// travel, every pair of the plan has settled, whatever the tick parities
/// were.
pub proof fn lemma_plan_converges(plan: Seq<(Vec2, Vec2)>, parities: Seq<bool>)
    requires
        forall|i: int| 0 <= i < plan.len() ==> pair_l1(#[trigger] plan[i]) <= parities.len(),
    ensures
        all_settled(run_plan(plan, parities)),
{
    lemma_run_plan_l1(plan, parities);
    assert forall|i: int| 0 <= i < run_plan(plan, parities).len()
        implies (#[trigger] run_plan(plan, parities)[i]).0 == run_plan(plan, parities)[i].1 by {
        lemma_step_pair_l1(run_plan(plan, parities)[i], false);
    }
}

/// Idempotence: a tick on a converged plan moves nothing.
pub proof fn lemma_settled_step_noop(plan: Seq<(Vec2, Vec2)>, odd_tick: bool)
    requires
        all_settled(plan),
    ensures
        plan.map_values(|p: (Vec2, Vec2)| step_pair(p, odd_tick)) == plan,
{
    assert(plan.map_values(|p: (Vec2, Vec2)| step_pair(p, odd_tick)) =~= plan);
}

} // verus!
