//! Per-grid-point state and its per-tick operations: random seeding, neighbor
//! resolution against a previous-generation grid, and the rule-engine tick.

use vstd::prelude::*;
use vstd::arithmetic::div_mod::lemma_fundamental_div_mod_converse;
use rand::Rng;
use crate::config::{ColonyRule, SEED_DENOM};
use crate::rules::{
    colony_rule, height_at, max8, neighbor_vec, regime, rule_step,
    single_rule, sum8, Regime,
};

verus! {

broadcast use vstd::array::group_array_axioms;

/// One grid point: its fixed position, its height (the only mutable state),
/// and the neighbor heights cached from the previous completed generation.
#[derive(Clone, Copy, Debug, PartialEq)]
pub struct Bacteria {
    /// Column, fixed at creation.
    pub i: u16,
    /// Row, fixed at creation.
    pub j: u16,
    /// Current height.
    pub height: u16,
    /// The 8 compass neighbor heights (N, NE, E, SE, S, SW, W, NW) as of the
    /// previous completed generation; grid-edge directions hold 0.
    pub neighbors: [u16; 8],
}

/// The heights of a grid of cells, in grid order.
pub open spec fn heights_of(lab: Seq<Bacteria>) -> Seq<u16> {
    Seq::new(lab.len(), |k: int| lab[k].height)
}

/// A well-formed row-major grid: exactly `side * side` cells, and each cell's
/// stored position matches its index.
pub open spec fn grid_wf(lab: Seq<Bacteria>, side: int) -> bool {
    &&& lab.len() == side * side
    &&& forall|k: int|
        0 <= k < lab.len() ==> (#[trigger] lab[k]).j as int == k / side && lab[k].i as int == k
            % side
}

/// Row-major position arithmetic: `j * side + i` lands inside the grid and
/// decodes back to `(j, i)`.
pub proof fn lemma_row_major_index(side: int, j: int, i: int)
    requires
        0 <= j < side,
        0 <= i < side,
    ensures
        0 <= j * side + i < side * side,
        (j * side + i) / side == j,
        (j * side + i) % side == i,
{
    assert(0 <= j * side + i < side * side) by (nonlinear_arith)
        requires
            0 <= j < side,
            0 <= i < side,
    ;
    lemma_fundamental_div_mod_converse(j * side + i, side, j, i);
}

/// Relies on `rand::Rng::gen_range` over `rand::thread_rng`: a uniform draw
/// from `[0, bound)`. It panics only on an empty range, which the
/// precondition rules out; nothing more than the range is promised of a
/// random draw.
#[verifier::external_body]
fn random_below(bound: u64) -> (r: u64)
    requires
        bound > 0,
    ensures
        r < bound,
{
    rand::thread_rng().gen_range(0..bound)
}

/// How one uniform sample in `[0, SEED_DENOM)` and the configured threshold
/// decide a starting height: 1 below the threshold, 0 at or above it.
pub open spec fn spec_seed_height(sample: u64, threshold: u64) -> u16 {
    if sample < threshold {
        1
    } else {
        0
    }
}

/// The deterministic part of seeding, applied to whatever sample the random
/// source produced.
pub fn seed_height(sample: u64, threshold: u64) -> (h: u16)
    ensures
        h == spec_seed_height(sample, threshold),
{
    if sample < threshold {
        1
    } else {
        0
    }
}

impl Bacteria {
    /// Seeds a fresh cell at `(j, i)`: height 1 with probability
    /// `seed_threshold / SEED_DENOM`, else 0; the neighbor cache starts all
    /// zero. Only the height depends on the random draw.
    pub fn new(i: u16, j: u16, seed_threshold: u64) -> (b: Bacteria)
        ensures
            b.i == i,
            b.j == j,
            b.height <= 1,
            seed_threshold == 0 ==> b.height == 0,
            seed_threshold >= SEED_DENOM ==> b.height == 1,
            forall|d: int| 0 <= d < 8 ==> b.neighbors@[d] == 0,
    {
        let sample = random_below(SEED_DENOM);
        let height = seed_height(sample, seed_threshold);
        Bacteria { i, j, height, neighbors: [0u16; 8] }
    }

    /// A cell with a chosen height: the deterministic constructor for grids
    /// given as data rather than randomly seeded.
    pub fn with_height(i: u16, j: u16, height: u16) -> (b: Bacteria)
        ensures
            b.i == i,
            b.j == j,
            b.height == height,
            forall|d: int| 0 <= d < 8 ==> b.neighbors@[d] == 0,
    {
        Bacteria { i, j, height, neighbors: [0u16; 8] }
    }

    /// Recomputes this cell's neighbor cache from `lab`, a completed
    /// generation's full grid, leaving position and height alone.
    pub fn init_neighbors(&mut self, lab: &Vec<Bacteria>, side: u16)
        requires
            side >= 1,
            lab@.len() == side as int * side as int,
            old(self).i < side,
            old(self).j < side,
        ensures
            final(self).i == old(self).i,
            final(self).j == old(self).j,
            final(self).height == old(self).height,
            final(self).neighbors@ == neighbor_vec(
                heights_of(lab@),
                side as int,
                old(self).j as int,
                old(self).i as int,
            ),
    {
        let l_index: usize = side as usize - 1;
        let ii: usize = self.i as usize;
        let jj: usize = self.j as usize;
        let n0 = if jj > 0 {
            grid_height(lab, side, jj - 1, ii)
        } else {
            0
        };
        let n1 = if jj > 0 && ii < l_index {
            grid_height(lab, side, jj - 1, ii + 1)
        } else {
            0
        };
        let n2 = if ii < l_index {
            grid_height(lab, side, jj, ii + 1)
        } else {
            0
        };
        let n3 = if jj < l_index && ii < l_index {
            grid_height(lab, side, jj + 1, ii + 1)
        } else {
            0
        };
        let n4 = if jj < l_index {
            grid_height(lab, side, jj + 1, ii)
        } else {
            0
        };
        let n5 = if jj < l_index && ii > 0 {
            grid_height(lab, side, jj + 1, ii - 1)
        } else {
            0
        };
        let n6 = if ii > 0 {
            grid_height(lab, side, jj, ii - 1)
        } else {
            0
        };
        let n7 = if jj > 0 && ii > 0 {
            grid_height(lab, side, jj - 1, ii - 1)
        } else {
            0
        };
        self.neighbors = [n0, n1, n2, n3, n4, n5, n6, n7];
        proof {
            assert(self.neighbors@ =~= neighbor_vec(
                heights_of(lab@),
                side as int,
                jj as int,
                ii as int,
            ));
        }
    }

    /// Maximum of the cached neighbor heights.
    fn neighbor_max(&self) -> (m: u16)
        ensures
            m == max8(self.neighbors@),
    {
        let n = &self.neighbors;
        let mut m = n[0];
        if n[1] > m {
            m = n[1];
        }
        if n[2] > m {
            m = n[2];
        }
        if n[3] > m {
            m = n[3];
        }
        if n[4] > m {
            m = n[4];
        }
        if n[5] > m {
            m = n[5];
        }
        if n[6] > m {
            m = n[6];
        }
        if n[7] > m {
            m = n[7];
        }
        m
    }

    /// Sum of the cached neighbor heights.
    fn neighbor_sum(&self) -> (t: u32)
        ensures
            t == sum8(self.neighbors@),
    {
        let n = &self.neighbors;
        n[0] as u32 + n[1] as u32 + n[2] as u32 + n[3] as u32 + n[4] as u32 + n[5] as u32
            + n[6] as u32 + n[7] as u32
    }

    /// The single-cell (birth/survival) regime.
    fn single_tick(&mut self)
        requires
            old(self).height < 0xFFFF,
        ensures
            final(self).i == old(self).i,
            final(self).j == old(self).j,
            final(self).neighbors == old(self).neighbors,
            final(self).height == single_rule(old(self).height, old(self).neighbors@),
    {
        let t_sum = self.neighbor_sum();
        if t_sum == 3 {
            if self.height == 0 {
                self.height = 1;
            }
        } else if t_sum < 2 || t_sum > 3 {
            if t_sum == 4 {
                let n = &self.neighbors;
                let e_sum = n[0] as u32 + n[2] as u32 + n[4] as u32 + n[6] as u32;
                let o_sum = n[1] as u32 + n[3] as u32 + n[5] as u32 + n[7] as u32;
                if e_sum == 4 || o_sum == 4 {
                    self.height = self.height + 1;
                } else if self.height == 1 {
                    self.height = 0;
                }
            } else if self.height == 1 {
                self.height = 0;
            }
        }
    }

    /// The colony (height-escalation) regime, in the selected variant.
    fn colony_tick(&mut self, rule: ColonyRule, n_max: u16)
        requires
            old(self).height < 0xFFFF,
            n_max == max8(old(self).neighbors@),
        ensures
            final(self).i == old(self).i,
            final(self).j == old(self).j,
            final(self).neighbors == old(self).neighbors,
            final(self).height == colony_rule(rule, old(self).height, old(self).neighbors@),
    {
        let t_sum = self.neighbor_sum();
        let h = self.height as u32;
        match rule {
            ColonyRule::Threshold => {
                if h > 0 && t_sum > 8 * h {
                    self.height = self.height + 1;
                } else if h == 0 && t_sum == 4 * h {
                    self.height = 1;
                }
            },
            ColonyRule::Relative => {
                if h > 0 && t_sum >= 8 * (h - 1) {
                    self.height = self.height + 1;
                } else if h == 0 && t_sum >= 4 * (n_max as u32) {
                    self.height = 1;
                }
            },
        }
    }

    /// One tick of this cell: derive the regime from the neighbor maximum and
    /// the cell's height, then apply that regime's rule. Position and the
    /// neighbor cache are untouched.
    pub fn tick(&mut self, rule: ColonyRule, max_height: u16)
        requires
            max_height >= 1,
        ensures
            final(self).i == old(self).i,
            final(self).j == old(self).j,
            final(self).neighbors == old(self).neighbors,
            final(self).height == rule_step(rule, max_height, old(self).height, old(
                self,
            ).neighbors@),
    {
        let n_max = self.neighbor_max();
        match regime(self.height, n_max, max_height) {
            Regime::SingleCell => self.single_tick(),
            Regime::Colony => self.colony_tick(rule, n_max),
            Regime::Frozen => (),
        }
    }
}

/// Reads the height at row `j`, column `i` of a well-sized grid.
fn grid_height(lab: &Vec<Bacteria>, side: u16, j: usize, i: usize) -> (r: u16)
    requires
        lab@.len() == side as int * side as int,
        j < side as usize,
        i < side as usize,
    ensures
        r == height_at(heights_of(lab@), side as int, j as int, i as int),
{
    let n = lab.len();
    proof {
        lemma_row_major_index(side as int, j as int, i as int);
        assert((j as int) * (side as int) + (i as int) < (n as int));
    }
    lab[j * (side as usize) + i].height
}

/// A copy of `b` whose neighbor cache is freshly resolved against `lab`; the
/// per-cell unit of a generation's first (neighbor-resolution) phase.
pub fn with_neighbors(b: &Bacteria, lab: &Vec<Bacteria>, side: u16) -> (r: Bacteria)
    requires
        side >= 1,
        lab@.len() == side as int * side as int,
        b.i < side,
        b.j < side,
    ensures
        r.i == b.i,
        r.j == b.j,
        r.height == b.height,
        r.neighbors@ == neighbor_vec(heights_of(lab@), side as int, b.j as int, b.i as int),
{
    let mut ib = *b;
    ib.init_neighbors(lab, side);
    ib
}

/// A copy of `b` after one rule-engine tick; the per-cell unit of a
/// generation's second (rule-application) phase.
pub fn ticked(b: &Bacteria, rule: ColonyRule, max_height: u16) -> (r: Bacteria)
    requires
        max_height >= 1,
    ensures
        r.i == b.i,
        r.j == b.j,
        r.neighbors == b.neighbors,
        r.height == rule_step(rule, max_height, b.height, b.neighbors@),
{
    let mut ib = *b;
    ib.tick(rule, max_height);
    ib
}

} // verus!
