//! The rule engine: neighbor geometry over a row-major height sequence, the
//! per-cell regime dispatch, and the two local update rules.

use vstd::prelude::*;
use crate::config::ColonyRule;

verus! {

/// Height of the cell at row `j`, column `i` of a row-major grid of heights,
/// or 0 when the position falls off the grid (no wraparound).
pub open spec fn height_at(h: Seq<u16>, side: int, j: int, i: int) -> u16
    recommends
        h.len() == side * side,
{
    if 0 <= j < side && 0 <= i < side {
        h[j * side + i]
    } else {
        0
    }
}

/// The 8-connected neighbor heights of the cell at row `j`, column `i`, in
/// compass order N, NE, E, SE, S, SW, W, NW; out-of-range directions
/// contribute 0.
pub open spec fn neighbor_vec(h: Seq<u16>, side: int, j: int, i: int) -> Seq<u16>
    recommends
        h.len() == side * side,
{
    seq![
        height_at(h, side, j - 1, i),
        height_at(h, side, j - 1, i + 1),
        height_at(h, side, j, i + 1),
        height_at(h, side, j + 1, i + 1),
        height_at(h, side, j + 1, i),
        height_at(h, side, j + 1, i - 1),
        height_at(h, side, j, i - 1),
        height_at(h, side, j - 1, i - 1),
    ]
}

/// Neighbor resolution is exact: away from the grid boundary the 8 entries
/// are exactly the compass neighbors' previous-generation heights, and at
/// the boundary every out-of-range direction is exactly 0.
pub proof fn lemma_neighbor_vec_resolves(h: Seq<u16>, side: int, j: int, i: int)
    requires
        h.len() == side * side,
        0 <= j < side,
        0 <= i < side,
    ensures
        neighbor_vec(h, side, j, i).len() == 8,
        0 < j && j < side - 1 && 0 < i && i < side - 1 ==> ({
            let ns = neighbor_vec(h, side, j, i);
            &&& ns[0] == h[(j - 1) * side + i]
            &&& ns[1] == h[(j - 1) * side + i + 1]
            &&& ns[2] == h[j * side + i + 1]
            &&& ns[3] == h[(j + 1) * side + i + 1]
            &&& ns[4] == h[(j + 1) * side + i]
            &&& ns[5] == h[(j + 1) * side + i - 1]
            &&& ns[6] == h[j * side + i - 1]
            &&& ns[7] == h[(j - 1) * side + i - 1]
        }),
        j == 0 ==> ({
            let ns = neighbor_vec(h, side, j, i);
            ns[0] == 0 && ns[1] == 0 && ns[7] == 0
        }),
        j == side - 1 ==> ({
            let ns = neighbor_vec(h, side, j, i);
            ns[3] == 0 && ns[4] == 0 && ns[5] == 0
        }),
        i == 0 ==> ({
            let ns = neighbor_vec(h, side, j, i);
            ns[5] == 0 && ns[6] == 0 && ns[7] == 0
        }),
        i == side - 1 ==> ({
            let ns = neighbor_vec(h, side, j, i);
            ns[1] == 0 && ns[2] == 0 && ns[3] == 0
        }),
{
}

/// Sum of all 8 neighbor heights.
pub open spec fn sum8(ns: Seq<u16>) -> int
    recommends
        ns.len() == 8,
{
    ns[0] + ns[1] + ns[2] + ns[3] + ns[4] + ns[5] + ns[6] + ns[7]
}

/// Sum of the 4 neighbors at even compass indices (N, E, S, W).
pub open spec fn even_ring_sum(ns: Seq<u16>) -> int
    recommends
        ns.len() == 8,
{
    ns[0] + ns[2] + ns[4] + ns[6]
}

/// Sum of the 4 neighbors at odd compass indices (NE, SE, SW, NW).
pub open spec fn odd_ring_sum(ns: Seq<u16>) -> int
    recommends
        ns.len() == 8,
{
    ns[1] + ns[3] + ns[5] + ns[7]
}

/// The larger of two heights.
pub open spec fn max2(a: u16, b: u16) -> u16 {
    if a < b {
        b
    } else {
        a
    }
}

/// Maximum of the 8 neighbor heights.
pub open spec fn max8(ns: Seq<u16>) -> u16
    recommends
        ns.len() == 8,
{
    max2(
        max2(max2(ns[0], ns[1]), max2(ns[2], ns[3])),
        max2(max2(ns[4], ns[5]), max2(ns[6], ns[7])),
    )
}

/// The regime a cell falls under this tick, re-derived from the neighbor
/// maximum and the cell's own height; the gap between the two regimes is the
/// explicit `Frozen` branch.
#[derive(Clone, Copy, Debug, PartialEq, Eq, Structural)]
pub enum Regime {
    /// Low heights everywhere nearby: birth/survival rule on 0/1 heights.
    SingleCell,
    /// A colony is forming nearby and this cell still has headroom.
    Colony,
    /// Neither regime applies; the cell keeps its height this tick.
    Frozen,
}

/// Regime dispatch: single-cell when the neighborhood and the cell are within
/// 0/1 heights, colony while both stay under `max_height - 1` bounds, frozen
/// otherwise.
pub open spec fn regime_of(h: u16, n_max: u16, max_height: u16) -> Regime
    recommends
        max_height >= 1,
{
    if n_max <= 1 && h <= 1 {
        Regime::SingleCell
    } else if n_max < max_height - 1 && h <= max_height - 1 {
        Regime::Colony
    } else {
        Regime::Frozen
    }
}

/// Executable regime dispatch.
pub fn regime(h: u16, n_max: u16, max_height: u16) -> (r: Regime)
    requires
        max_height >= 1,
    ensures
        r == regime_of(h, n_max, max_height),
{
    if n_max <= 1 && h <= 1 {
        Regime::SingleCell
    } else if n_max < max_height - 1 && h <= max_height - 1 {
        Regime::Colony
    } else {
        Regime::Frozen
    }
}

/// The single-cell (birth/survival) rule: a dead cell with a neighbor sum of
/// exactly 3 is born; with a sum of 2 or 3 nothing changes; otherwise a live
/// cell dies, except that a sum of exactly 4 carried by one full alternating
/// compass ring raises the height by 1 instead.
pub open spec fn single_rule(h: u16, ns: Seq<u16>) -> u16
    recommends
        ns.len() == 8,
{
    let t = sum8(ns);
    if t == 3 {
        if h == 0 {
            1
        } else {
            h
        }
    } else if t < 2 || t > 3 {
        if t == 4 {
            if even_ring_sum(ns) == 4 || odd_ring_sum(ns) == 4 {
                (h + 1) as u16
            } else if h == 1 {
                0
            } else {
                h
            }
        } else if h == 1 {
            0
        } else {
            h
        }
    } else {
        h
    }
}

/// The colony (height-escalation) rule, in the selected variant.
pub open spec fn colony_rule(rule: ColonyRule, h: u16, ns: Seq<u16>) -> u16
    recommends
        ns.len() == 8,
{
    let t = sum8(ns);
    match rule {
        ColonyRule::Threshold => if h > 0 && t > 8 * h {
            (h + 1) as u16
        } else if h == 0 && t == 4 * h {
            1
        } else {
            h
        },
        ColonyRule::Relative => if h > 0 && t >= 8 * (h - 1) {
            (h + 1) as u16
        } else if h == 0 && t >= 4 * max8(ns) {
            1
        } else {
            h
        },
    }
}

/// One cell's whole tick: dispatch on the regime, then apply that regime's
/// rule to the cell's height and its neighbor vector.
pub open spec fn rule_step(rule: ColonyRule, max_height: u16, h: u16, ns: Seq<u16>) -> u16
    recommends
        ns.len() == 8,
        max_height >= 1,
{
    match regime_of(h, max8(ns), max_height) {
        Regime::SingleCell => single_rule(h, ns),
        Regime::Colony => colony_rule(rule, h, ns),
        Regime::Frozen => h,
    }
}

/// One synchronous generation over a row-major height grid: every cell's next
/// height comes from the same previous grid.
pub open spec fn next_heights(h: Seq<u16>, side: int, rule: ColonyRule, max_height: u16) -> Seq<
    u16,
>
    recommends
        h.len() == side * side,
        max_height >= 1,
{
    Seq::new(
        h.len(),
        |k: int| rule_step(rule, max_height, h[k], neighbor_vec(h, side, k / side, k % side)),
    )
}

/// `n` synchronous generations, each computed from the one before.
pub open spec fn run_heights(
    h: Seq<u16>,
    side: int,
    rule: ColonyRule,
    max_height: u16,
    n: nat,
) -> Seq<u16>
    decreases n,
{
    if n == 0 {
        h
    } else {
        next_heights(run_heights(h, side, rule, max_height, (n - 1) as nat), side, rule, max_height)
    }
}

/// A cell's height after a tick never exceeds the configured maximum colony
/// height, provided it did not before: the single-cell regime stops at 2, the
/// colony regime stops at `max_height`, and a frozen cell keeps its height.
pub proof fn lemma_rule_step_bounded(rule: ColonyRule, max_height: u16, h: u16, ns: Seq<u16>)
    requires
        ns.len() == 8,
        2 <= max_height,
        h <= max_height,
    ensures
        rule_step(rule, max_height, h, ns) <= max_height,
{
}

/// Determinism of a generation step: the next grid is a function of the
/// previous grid and the configuration alone, so two runs of one step over
/// equal grids produce equal grids.
pub proof fn lemma_step_deterministic(
    h1: Seq<u16>,
    h2: Seq<u16>,
    side: int,
    rule: ColonyRule,
    max_height: u16,
)
    requires
        h1 == h2,
    ensures
        next_heights(h1, side, rule, max_height) == next_heights(h2, side, rule, max_height),
{
}

/// Single-cell birth: a dead cell with exactly 3 live neighbors is born at
/// height 1.
pub proof fn lemma_single_cell_birth(ns: Seq<u16>)
    requires
        ns.len() == 8,
        sum8(ns) == 3,
    ensures
        single_rule(0, ns) == 1,
{
}

/// Single-cell death: a live cell of height 1 whose neighbor sum is 0, 1, or
/// between 5 and 8 dies.
pub proof fn lemma_single_cell_death(ns: Seq<u16>)
    requires
        ns.len() == 8,
        sum8(ns) == 0 || sum8(ns) == 1 || (5 <= sum8(ns) <= 8),
    ensures
        single_rule(1, ns) == 0,
{
}

/// The alternating-ring escape: with a neighbor sum of exactly 4 carried
/// entirely by one alternating compass ring, a cell's height rises by 1
/// instead of the cell dying.
pub proof fn lemma_single_cell_ring_escape(h: u16, ns: Seq<u16>)
    requires
        ns.len() == 8,
        h < 0xFFFF,
        sum8(ns) == 4,
        even_ring_sum(ns) == 4 || odd_ring_sum(ns) == 4,
    ensures
        single_rule(h, ns) == h + 1,
{
}

/// With a neighbor sum of exactly 4 carried by neither alternating ring, a
/// live cell of height 1 dies like any other overcrowded cell.
pub proof fn lemma_single_cell_crowded_four(ns: Seq<u16>)
    requires
        ns.len() == 8,
        sum8(ns) == 4,
        even_ring_sum(ns) != 4,
        odd_ring_sum(ns) != 4,
    ensures
        single_rule(1, ns) == 0,
{
}

/// With a neighbor sum of 2 or 3, a live cell of height 1 survives unchanged.
pub proof fn lemma_single_cell_survival(ns: Seq<u16>)
    requires
        ns.len() == 8,
        sum8(ns) == 2 || sum8(ns) == 3,
    ensures
        single_rule(1, ns) == 1,
{
}

/// Under the threshold colony variant a dormant, isolated cell never seeds:
/// with every neighbor at 0 (and likewise at a neighbor sum of 1) the cell
/// falls under the single-cell regime, which leaves a dead cell with fewer
/// than 3 live neighbors dead.
pub proof fn lemma_dormant_isolated_never_seeds(ns: Seq<u16>, max_height: u16)
    requires
        ns.len() == 8,
        2 <= max_height,
        sum8(ns) <= 1,
    ensures
        rule_step(ColonyRule::Threshold, max_height, 0, ns) == 0,
{
    assert(max8(ns) <= 1);
}

} // verus!
