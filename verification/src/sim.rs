//! The simulation driver: owns the grid, advances it one synchronous
//! generation at a time through the two fork-join phases (neighbor
//! resolution, then rule application), and records per-generation statistics.

use vstd::prelude::*;
use vstd::arithmetic::div_mod::{lemma_fundamental_div_mod, lemma_mod_pos_bound, lemma_multiply_divide_lt};
use rayon::iter::{IntoParallelRefIterator, ParallelIterator};
use crate::cell::{grid_wf, heights_of, ticked, with_neighbors, Bacteria};
use crate::config::{ColonyRule, Config, SEED_DENOM};
use crate::rules::{neighbor_vec, next_heights, run_heights};
use crate::stats::{bucket_count, grid_max, histogram, max_of, min_of, sum_u64, total_height, total_of};

verus! {

/// The maximum-height series records this fixed sentinel for generation 0
/// instead of the seeded grid's true maximum.
pub const GEN_ZERO_MAX: u16 = 1;

/// A grid coordinate recorded when its cell reached a generation-wide
/// maximum above the recording threshold.
#[derive(Clone, Copy, Debug, PartialEq, Eq, Structural)]
pub struct MaxPoint {
    /// Column of the recorded cell.
    pub x: u16,
    /// Row of the recorded cell.
    pub y: u16,
}

/// Whether the cell at index `k` is recorded for the generation that moved
/// the heights `prev` to `cur`: it sits at the generation maximum, that
/// maximum exceeds the threshold, and — when only newly-arrived maxima count
/// — its height rose this tick.
pub open spec fn recorded_at(
    prev: Seq<u16>,
    cur: Seq<u16>,
    thresh: u16,
    only_new: bool,
    k: int,
) -> bool {
    &&& cur[k] == max_of(cur)
    &&& max_of(cur) > thresh
    &&& (only_new ==> prev[k] < cur[k])
}

/// The coordinates recorded among the first `n` cells, in grid order.
pub open spec fn points_upto(
    prev: Seq<u16>,
    cur: Seq<u16>,
    side: int,
    thresh: u16,
    only_new: bool,
    n: int,
) -> Seq<MaxPoint>
    decreases n,
{
    if n <= 0 {
        Seq::empty()
    } else {
        let rest = points_upto(prev, cur, side, thresh, only_new, n - 1);
        if recorded_at(prev, cur, thresh, only_new, n - 1) {
            rest.push(MaxPoint { x: ((n - 1) % side) as u16, y: ((n - 1) / side) as u16 })
        } else {
            rest
        }
    }
}

/// All coordinates recorded for the generation that moved `prev` to `cur`.
pub open spec fn collected_points(
    prev: Seq<u16>,
    cur: Seq<u16>,
    side: int,
    thresh: u16,
    only_new: bool,
) -> Seq<MaxPoint> {
    points_upto(prev, cur, side, thresh, only_new, cur.len() as int)
}

/// The points recorded over `n` generations run from the heights `h`.
pub open spec fn run_points(
    h: Seq<u16>,
    side: int,
    rule: ColonyRule,
    max_height: u16,
    thresh: u16,
    only_new: bool,
    n: nat,
) -> Seq<MaxPoint>
    decreases n,
{
    if n == 0 {
        Seq::empty()
    } else {
        run_points(h, side, rule, max_height, thresh, only_new, (n - 1) as nat)
            + collected_points(
            run_heights(h, side, rule, max_height, (n - 1) as nat),
            run_heights(h, side, rule, max_height, n),
            side,
            thresh,
            only_new,
        )
    }
}

/// When a generation's maximum does not exceed the threshold, nothing is
/// recorded for it.
pub proof fn lemma_no_points_below_threshold(
    prev: Seq<u16>,
    cur: Seq<u16>,
    side: int,
    thresh: u16,
    only_new: bool,
    n: int,
)
    requires
        max_of(cur) <= thresh,
    ensures
        points_upto(prev, cur, side, thresh, only_new, n) == Seq::<MaxPoint>::empty(),
    decreases n,
{
    if n > 0 {
        lemma_no_points_below_threshold(prev, cur, side, thresh, only_new, n - 1);
    }
}

/// Every point recorded among the first `n` cells names a coordinate inside
/// the grid whose height that generation equals the generation maximum,
/// which in turn exceeds the recording threshold.
pub proof fn lemma_points_upto_sound(
    prev: Seq<u16>,
    cur: Seq<u16>,
    side: int,
    thresh: u16,
    only_new: bool,
    n: int,
    t: int,
)
    requires
        1 <= side <= 0xFFFF,
        cur.len() == side * side,
        0 <= n <= cur.len(),
        0 <= t < points_upto(prev, cur, side, thresh, only_new, n).len(),
    ensures
        ({
            let p = points_upto(prev, cur, side, thresh, only_new, n)[t];
            &&& p.x < side
            &&& p.y < side
            &&& cur[p.y as int * side + p.x as int] == max_of(cur)
            &&& max_of(cur) > thresh
        }),
    decreases n,
{
    let rest = points_upto(prev, cur, side, thresh, only_new, n - 1);
    if t < rest.len() {
        lemma_points_upto_sound(prev, cur, side, thresh, only_new, n - 1, t);
    } else {
        let k = n - 1;
        lemma_mod_pos_bound(k, side);
        lemma_multiply_divide_lt(k, side, side);
        lemma_fundamental_div_mod(k, side);
        assert((k / side) * side + k % side == k) by (nonlinear_arith)
            requires
                side >= 1,
                k == side * (k / side) + k % side,
        ;
    }
}

/// Every point in the recorded collection for one generation obeys the
/// soundness property of `lemma_points_upto_sound`: max-point collection
/// never records a coordinate whose height that generation is at or below
/// the recording threshold.
pub proof fn lemma_max_points_above_threshold(
    prev: Seq<u16>,
    cur: Seq<u16>,
    side: int,
    thresh: u16,
    only_new: bool,
    t: int,
)
    requires
        1 <= side <= 0xFFFF,
        cur.len() == side * side,
        0 <= t < collected_points(prev, cur, side, thresh, only_new).len(),
    ensures
        ({
            let p = collected_points(prev, cur, side, thresh, only_new)[t];
            &&& p.x < side
            &&& p.y < side
            &&& cur[p.y as int * side + p.x as int] == max_of(cur)
            &&& max_of(cur) > thresh
        }),
{
    lemma_points_upto_sound(prev, cur, side, thresh, only_new, cur.len() as int, t);
}

/// The mathematical state of a simulation: its configuration, the current
/// grid, and the accumulated statistics series.
pub struct SimView {
    /// The run configuration.
    pub cfg: Config,
    /// The current generation's cells.
    pub cells: Seq<Bacteria>,
    /// Total height per generation, generation 0 included.
    pub totals: Seq<u64>,
    /// Maximum height per generation; generation 0 holds `GEN_ZERO_MAX`.
    pub maxes: Seq<u16>,
    /// All recorded max points, in generation order then grid order.
    pub max_points: Seq<MaxPoint>,
}

impl SimView {
    /// The current grid's heights, row-major.
    pub open spec fn heights(self) -> Seq<u16> {
        heights_of(self.cells)
    }

    /// The heights one generation later.
    pub open spec fn next(self) -> Seq<u16> {
        next_heights(self.heights(), self.cfg.side as int, self.cfg.rule, self.cfg.max_height)
    }

    /// The heights `n` generations later.
    pub open spec fn after(self, n: nat) -> Seq<u16> {
        run_heights(self.heights(), self.cfg.side as int, self.cfg.rule, self.cfg.max_height, n)
    }

    /// Well-formedness: a valid configuration, a well-formed grid whose
    /// heights stay within the configured maximum, and one statistics entry
    /// per completed generation in both per-generation series.
    pub open spec fn wf(self) -> bool {
        &&& self.cfg.valid()
        &&& grid_wf(self.cells, self.cfg.side as int)
        &&& forall|k: int|
            0 <= k < self.cells.len() ==> (#[trigger] self.cells[k]).height <= self.cfg.max_height
        &&& self.totals.len() == self.maxes.len()
        &&& self.totals.len() >= 1
    }
}

/// The simulation driver. It exclusively owns the grid; each generation
/// replaces the grid wholesale rather than mutating it in place, so neighbor
/// resolution always reads a completed generation.
pub struct Simulation {
    cfg: Config,
    cells: Vec<Bacteria>,
    totals: Vec<u64>,
    maxes: Vec<u16>,
    max_points: Vec<MaxPoint>,
}

impl View for Simulation {
    type V = SimView;

    closed spec fn view(&self) -> SimView {
        SimView {
            cfg: self.cfg,
            cells: self.cells@,
            totals: self.totals@,
            maxes: self.maxes@,
            max_points: self.max_points@,
        }
    }
}

/// Relies on rayon's `par_iter().map(..).collect()` over a `Vec`: an indexed
/// parallel iterator whose `map` applies the closure to every element and
/// whose `collect` keeps index order, so the output holds at each index the
/// closure's result for the input at that index. The closure only calls the
/// verified `with_neighbors`, whose contract gives each clause below.
#[verifier::external_body]
fn par_with_neighbors(lab: &Vec<Bacteria>, side: u16) -> (r: Vec<Bacteria>)
    requires
        side >= 1,
        lab@.len() == side as int * side as int,
        forall|k: int|
            0 <= k < lab@.len() ==> (#[trigger] lab@[k]).i < side && lab@[k].j < side,
    ensures
        r@.len() == lab@.len(),
        forall|k: int|
            0 <= k < lab@.len() ==> {
                &&& (#[trigger] r@[k]).i == lab@[k].i
                &&& r@[k].j == lab@[k].j
                &&& r@[k].height == lab@[k].height
                &&& r@[k].neighbors@ == neighbor_vec(
                    heights_of(lab@),
                    side as int,
                    lab@[k].j as int,
                    lab@[k].i as int,
                )
            },
{
    lab.par_iter().map(|b| with_neighbors(b, lab, side)).collect()
}

/// Relies on rayon's `par_iter().map(..).collect()` over a `Vec`, exactly as
/// `par_with_neighbors` does. The closure only calls the verified `ticked`,
/// whose contract gives each clause below.
#[verifier::external_body]
fn par_ticked(lab: &Vec<Bacteria>, rule: ColonyRule, max_height: u16) -> (r: Vec<Bacteria>)
    requires
        max_height >= 1,
    ensures
        r@.len() == lab@.len(),
        forall|k: int|
            0 <= k < lab@.len() ==> {
                &&& (#[trigger] r@[k]).i == lab@[k].i
                &&& r@[k].j == lab@[k].j
                &&& r@[k].neighbors == lab@[k].neighbors
                &&& r@[k].height == crate::rules::rule_step(
                    rule,
                    max_height,
                    lab@[k].height,
                    lab@[k].neighbors@,
                )
            },
{
    lab.par_iter().map(|b| ticked(b, rule, max_height)).collect()
}

/// Appends to `points` the coordinates recorded for the generation that
/// moved the grid `prev` to the grid `cur`, in grid order.
fn collect_max_points(
    points: &mut Vec<MaxPoint>,
    prev: &Vec<Bacteria>,
    cur: &Vec<Bacteria>,
    side: u16,
    thresh: u16,
    only_new: bool,
    m: u16,
)
    requires
        side >= 1,
        prev@.len() == cur@.len(),
        cur@.len() == side as int * side as int,
        grid_wf(cur@, side as int),
        m == max_of(heights_of(cur@)),
    ensures
        final(points)@ == old(points)@ + collected_points(
            heights_of(prev@),
            heights_of(cur@),
            side as int,
            thresh,
            only_new,
        ),
{
    let ghost ph = heights_of(prev@);
    let ghost ch = heights_of(cur@);
    if m > thresh {
        let mut k: usize = 0;
        while k < cur.len()
            invariant
                0 <= k <= cur@.len(),
                ph == heights_of(prev@),
                ch == heights_of(cur@),
                prev@.len() == cur@.len(),
                cur@.len() == side as int * side as int,
                side >= 1,
                grid_wf(cur@, side as int),
                m == max_of(ch),
                m > thresh,
                points@ == old(points)@ + points_upto(ph, ch, side as int, thresh, only_new, k as int),
            decreases cur@.len() - k,
        {
            let hk = cur[k].height;
            if hk == m && (!only_new || prev[k].height < hk) {
                points.push(MaxPoint { x: cur[k].i, y: cur[k].j });
                proof {
                    assert(cur@[k as int].i as int == k as int % (side as int));
                    assert(cur@[k as int].j as int == k as int / (side as int));
                    assert(points@ =~= old(points)@ + points_upto(
                        ph,
                        ch,
                        side as int,
                        thresh,
                        only_new,
                        k as int + 1,
                    ));
                }
            }
            k = k + 1;
        }
    } else {
        proof {
            lemma_no_points_below_threshold(
                ph,
                ch,
                side as int,
                thresh,
                only_new,
                ch.len() as int,
            );
            assert(points@ =~= old(points)@ + collected_points(
                ph,
                ch,
                side as int,
                thresh,
                only_new,
            ));
        }
    }
}

impl Simulation {
    /// A fresh run: a randomly seeded `side * side` grid (each cell starts
    /// at height 1 with probability `seed_threshold / SEED_DENOM`, else 0),
    /// generation 0's total recorded, and the generation-0 maximum recorded
    /// as the fixed sentinel `GEN_ZERO_MAX`.
    pub fn new(cfg: Config) -> (sim: Simulation)
        requires
            cfg.valid(),
        ensures
            sim@.wf(),
            sim@.cfg == cfg,
            sim@.cells.len() == cfg.side as int * cfg.side as int,
            forall|k: int| 0 <= k < sim@.cells.len() ==> sim@.heights()[k] <= 1,
            cfg.seed_threshold == 0 ==> forall|k: int|
                0 <= k < sim@.cells.len() ==> sim@.heights()[k] == 0,
            cfg.seed_threshold >= SEED_DENOM ==> forall|k: int|
                0 <= k < sim@.cells.len() ==> sim@.heights()[k] == 1,
            sim@.totals.len() == 1,
            sim@.totals[0] == total_of(sim@.heights()),
            sim@.maxes.len() == 1,
            sim@.maxes[0] == GEN_ZERO_MAX,
            sim@.max_points.len() == 0,
    {
        let side_us = cfg.side as usize;
        proof {
            assert((cfg.side as int) * (cfg.side as int) <= 0xFFFF_FFFF) by (nonlinear_arith)
                requires
                    cfg.side <= 0xFFFF,
            ;
        }
        let n = side_us * side_us;
        let mut cells: Vec<Bacteria> = Vec::new();
        let mut k: usize = 0;
        while k < n
            invariant
                0 <= k <= n,
                n == (cfg.side as int) * (cfg.side as int),
                n <= 0xFFFF_FFFF,
                side_us == cfg.side as usize,
                cfg.side >= 1,
                cells@.len() == k,
                forall|t: int|
                    0 <= t < k ==> {
                        &&& (#[trigger] cells@[t]).j as int == t / (cfg.side as int)
                        &&& cells@[t].i as int == t % (cfg.side as int)
                        &&& cells@[t].height <= 1
                        &&& (cfg.seed_threshold == 0 ==> cells@[t].height == 0)
                        &&& (cfg.seed_threshold >= SEED_DENOM ==> cells@[t].height == 1)
                    },
            decreases n - k,
        {
            proof {
                lemma_mod_pos_bound(k as int, cfg.side as int);
                lemma_multiply_divide_lt(k as int, cfg.side as int, cfg.side as int);
            }
            let ii = (k % side_us) as u16;
            let jj = (k / side_us) as u16;
            cells.push(Bacteria::new(ii, jj, cfg.seed_threshold));
            k = k + 1;
        }
        let t0 = total_height(&cells);
        let mut totals: Vec<u64> = Vec::new();
        totals.push(t0);
        let mut maxes: Vec<u16> = Vec::new();
        maxes.push(GEN_ZERO_MAX);
        let sim = Simulation { cfg, cells, totals, maxes, max_points: Vec::new() };
        proof {
            assert(grid_wf(sim@.cells, cfg.side as int));
        }
        sim
    }

    /// A run over a grid given as data: cell `k` starts at `heights[k]`.
    /// Statistics start as in `new`.
    pub fn from_heights(cfg: Config, heights: &Vec<u16>) -> (sim: Simulation)
        requires
            cfg.valid(),
            heights@.len() == cfg.side as int * cfg.side as int,
            forall|k: int| 0 <= k < heights@.len() ==> heights@[k] <= cfg.max_height,
        ensures
            sim@.wf(),
            sim@.cfg == cfg,
            sim@.heights() == heights@,
            sim@.totals.len() == 1,
            sim@.totals[0] == total_of(heights@),
            sim@.maxes.len() == 1,
            sim@.maxes[0] == GEN_ZERO_MAX,
            sim@.max_points.len() == 0,
    {
        let side_us = cfg.side as usize;
        proof {
            assert((cfg.side as int) * (cfg.side as int) <= 0xFFFF_FFFF) by (nonlinear_arith)
                requires
                    cfg.side <= 0xFFFF,
            ;
        }
        let n = heights.len();
        let mut cells: Vec<Bacteria> = Vec::new();
        let mut k: usize = 0;
        while k < n
            invariant
                0 <= k <= n,
                n == heights@.len(),
                n == (cfg.side as int) * (cfg.side as int),
                n <= 0xFFFF_FFFF,
                side_us == cfg.side as usize,
                cfg.side >= 1,
                forall|t: int| 0 <= t < n ==> heights@[t] <= cfg.max_height,
                cells@.len() == k,
                forall|t: int|
                    0 <= t < k ==> {
                        &&& (#[trigger] cells@[t]).j as int == t / (cfg.side as int)
                        &&& cells@[t].i as int == t % (cfg.side as int)
                        &&& cells@[t].height == heights@[t]
                    },
            decreases n - k,
        {
            proof {
                lemma_mod_pos_bound(k as int, cfg.side as int);
                lemma_multiply_divide_lt(k as int, cfg.side as int, cfg.side as int);
            }
            let ii = (k % side_us) as u16;
            let jj = (k / side_us) as u16;
            cells.push(Bacteria::with_height(ii, jj, heights[k]));
            k = k + 1;
        }
        let t0 = total_height(&cells);
        let mut totals: Vec<u64> = Vec::new();
        totals.push(t0);
        let mut maxes: Vec<u16> = Vec::new();
        maxes.push(GEN_ZERO_MAX);
        let sim = Simulation { cfg, cells, totals, maxes, max_points: Vec::new() };
        proof {
            assert(heights_of(sim@.cells) =~= heights@);
        }
        sim
    }

    /// One synchronous generation: every cell's neighbor vector is resolved
    /// against the same completed current grid, then every cell ticks on its
    /// own previous height and that vector, and the statistics record the
    /// new grid. The new heights, the appended statistics, and the recorded
    /// points are each pinned as functions of the previous state.
    pub fn step(&mut self)
        requires
            old(self)@.wf(),
        ensures
            final(self)@.wf(),
            final(self)@.cfg == old(self)@.cfg,
            final(self)@.heights() == old(self)@.next(),
            final(self)@.cells.len() == old(self)@.cells.len(),
            forall|k: int|
                0 <= k < final(self)@.cells.len() ==> (#[trigger] final(self)@.cells[k]).neighbors@
                    == neighbor_vec(
                    old(self)@.heights(),
                    old(self)@.cfg.side as int,
                    k / (old(self)@.cfg.side as int),
                    k % (old(self)@.cfg.side as int),
                ),
            final(self)@.totals.len() == old(self)@.totals.len() + 1,
            final(self)@.totals.take(old(self)@.totals.len() as int) == old(self)@.totals,
            forall|x: int|
                0 <= x < old(self)@.totals.len() ==> #[trigger] final(self)@.totals[x] == old(
                    self,
                )@.totals[x],
            final(self)@.totals.last() == total_of(old(self)@.next()),
            final(self)@.maxes.len() == old(self)@.maxes.len() + 1,
            final(self)@.maxes.take(old(self)@.maxes.len() as int) == old(self)@.maxes,
            forall|x: int|
                0 <= x < old(self)@.maxes.len() ==> #[trigger] final(self)@.maxes[x] == old(
                    self,
                )@.maxes[x],
            final(self)@.maxes.last() == max_of(old(self)@.next()),
            final(self)@.max_points == old(self)@.max_points + collected_points(
                old(self)@.heights(),
                old(self)@.next(),
                old(self)@.cfg.side as int,
                old(self)@.cfg.record_threshold,
                old(self)@.cfg.record_only_new,
            ),
    {
        let side = self.cfg.side;
        let ghost h0 = heights_of(self.cells@);
        proof {
            lemma_grid_coords_bounded(self.cells@, side as int);
            assert((side as int) * (side as int) <= 0xFFFF_FFFF) by (nonlinear_arith)
                requires
                    side <= 0xFFFF,
            ;
        }
        let resolved = par_with_neighbors(&self.cells, side);
        let next = par_ticked(&resolved, self.cfg.rule, self.cfg.max_height);
        proof {
            assert(heights_of(resolved@) =~= h0);
            assert forall|k: int| 0 <= k < next@.len() implies (#[trigger] heights_of(next@)[k])
                == old(self)@.next()[k] by {
                assert(resolved@[k].neighbors@ == neighbor_vec(
                    h0,
                    side as int,
                    k / (side as int),
                    k % (side as int),
                ));
            }
            assert(heights_of(next@) =~= old(self)@.next());
            assert forall|k: int| 0 <= k < next@.len() implies (#[trigger] next@[k]).height
                <= self.cfg.max_height by {
                crate::rules::lemma_rule_step_bounded(
                    self.cfg.rule,
                    self.cfg.max_height,
                    resolved@[k].height,
                    resolved@[k].neighbors@,
                );
            }
        }
        let t = total_height(&next);
        let m = grid_max(&next);
        proof {
            assert(grid_wf(next@, side as int));
        }
        collect_max_points(
            &mut self.max_points,
            &self.cells,
            &next,
            side,
            self.cfg.record_threshold,
            self.cfg.record_only_new,
            m,
        );
        self.cells = next;
        self.totals.push(t);
        self.maxes.push(m);
        proof {
            assert(self.totals@.take(old(self)@.totals.len() as int) =~= old(self)@.totals);
            assert(self.maxes@.take(old(self)@.maxes.len() as int) =~= old(self)@.maxes);
        }
    }

    /// The whole run: advances the grid by `steps` generations, appending
    /// one entry per generation to the total and maximum series and
    /// collecting max points along the way.
    pub fn run(&mut self)
        requires
            old(self)@.wf(),
        ensures
            final(self)@.wf(),
            final(self)@.cfg == old(self)@.cfg,
            final(self)@.heights() == old(self)@.after(old(self)@.cfg.steps as nat),
            final(self)@.totals.len() == old(self)@.totals.len() + old(self)@.cfg.steps,
            final(self)@.totals.take(old(self)@.totals.len() as int) == old(self)@.totals,
            forall|x: int|
                old(self)@.totals.len() <= x < final(self)@.totals.len()
                    ==> #[trigger] final(self)@.totals[x] == total_of(
                    old(self)@.after((x - old(self)@.totals.len() + 1) as nat),
                ),
            final(self)@.maxes.len() == old(self)@.maxes.len() + old(self)@.cfg.steps,
            final(self)@.maxes.take(old(self)@.maxes.len() as int) == old(self)@.maxes,
            forall|x: int|
                old(self)@.maxes.len() <= x < final(self)@.maxes.len()
                    ==> #[trigger] final(self)@.maxes[x] == max_of(
                    old(self)@.after((x - old(self)@.maxes.len() + 1) as nat),
                ),
            final(self)@.max_points == old(self)@.max_points + run_points(
                old(self)@.heights(),
                old(self)@.cfg.side as int,
                old(self)@.cfg.rule,
                old(self)@.cfg.max_height,
                old(self)@.cfg.record_threshold,
                old(self)@.cfg.record_only_new,
                old(self)@.cfg.steps as nat,
            ),
    {
        let ghost v0 = old(self)@;
        let steps = self.cfg.steps;
        let mut t: u32 = 0;
        while t < steps
            invariant
                self@.wf(),
                self@.cfg == v0.cfg,
                steps == v0.cfg.steps,
                0 <= t <= steps,
                self@.heights() == v0.after(t as nat),
                self@.totals.len() == v0.totals.len() + t,
                self@.totals.take(v0.totals.len() as int) == v0.totals,
                forall|x: int|
                    v0.totals.len() <= x < self@.totals.len() ==> #[trigger] self@.totals[x]
                        == total_of(v0.after((x - v0.totals.len() + 1) as nat)),
                self@.maxes.len() == v0.maxes.len() + t,
                self@.maxes.take(v0.maxes.len() as int) == v0.maxes,
                forall|x: int|
                    v0.maxes.len() <= x < self@.maxes.len() ==> #[trigger] self@.maxes[x]
                        == max_of(v0.after((x - v0.maxes.len() + 1) as nat)),
                self@.max_points == v0.max_points + run_points(
                    v0.heights(),
                    v0.cfg.side as int,
                    v0.cfg.rule,
                    v0.cfg.max_height,
                    v0.cfg.record_threshold,
                    v0.cfg.record_only_new,
                    t as nat,
                ),
            decreases steps - t,
        {
            let ghost before = self@;
            self.step();
            proof {
                assert(before.next() == v0.after((t + 1) as nat));
                assert(self@.totals.take(v0.totals.len() as int) =~= v0.totals);
                assert(self@.maxes.take(v0.maxes.len() as int) =~= v0.maxes);
                let m = v0.totals.len() as int;
                assert forall|x: int| m <= x < self@.totals.len() implies #[trigger] self@.totals[x]
                    == total_of(v0.after((x - m + 1) as nat)) by {
                    if x < self@.totals.len() - 1 {
                        assert(self@.totals[x] == before.totals[x]);
                    } else {
                        assert(self@.totals[x] == self@.totals.last());
                    }
                }
                assert forall|x: int| m <= x < self@.maxes.len() implies #[trigger] self@.maxes[x]
                    == max_of(v0.after((x - m + 1) as nat)) by {
                    if x < self@.maxes.len() - 1 {
                        assert(self@.maxes[x] == before.maxes[x]);
                    } else {
                        assert(self@.maxes[x] == self@.maxes.last());
                    }
                }
                assert(self@.max_points =~= v0.max_points + run_points(
                    v0.heights(),
                    v0.cfg.side as int,
                    v0.cfg.rule,
                    v0.cfg.max_height,
                    v0.cfg.record_threshold,
                    v0.cfg.record_only_new,
                    (t + 1) as nat,
                ));
            }
            t = t + 1;
        }
    }

    /// The current grid as one palette byte per cell, row-major: exactly the
    /// cell's height, which well-formedness keeps within a byte.
    pub fn frame_pixels(&self) -> (r: Vec<u8>)
        requires
            self@.wf(),
        ensures
            r@.len() == self@.cells.len(),
            forall|k: int| 0 <= k < r@.len() ==> r@[k] == self@.heights()[k],
    {
        let mut r: Vec<u8> = Vec::new();
        let mut k: usize = 0;
        while k < self.cells.len()
            invariant
                self@.wf(),
                0 <= k <= self@.cells.len(),
                r@.len() == k,
                forall|x: int| 0 <= x < k ==> r@[x] == self@.heights()[x],
            decreases self@.cells.len() - k,
        {
            let h = self.cells[k].height;
            r.push(h as u8);
            k = k + 1;
        }
        r
    }

    /// The histogram of the recorded per-generation maxima, `nbins`
    /// equal-width buckets over the series' own value range; the counts sum
    /// to the series length.
    pub fn max_histogram(&self, nbins: usize) -> (r: Vec<u64>)
        requires
            self@.wf(),
            1 <= nbins <= 0xFFFF_FFFF,
        ensures
            r@.len() == nbins,
            forall|b: int|
                0 <= b < nbins ==> r@[b] == bucket_count(
                    self@.maxes,
                    min_of(self@.maxes),
                    max_of(self@.maxes),
                    nbins as int,
                    b,
                ),
            sum_u64(r@) == self@.maxes.len(),
    {
        histogram(&self.maxes, nbins)
    }

    /// The run configuration.
    pub fn config(&self) -> (c: Config)
        ensures
            c == self@.cfg,
    {
        self.cfg
    }

    /// The current generation's cells, row-major.
    pub fn cells(&self) -> (r: &Vec<Bacteria>)
        ensures
            r@ == self@.cells,
    {
        &self.cells
    }

    /// The total-height series, one entry per generation.
    pub fn totals(&self) -> (r: &Vec<u64>)
        ensures
            r@ == self@.totals,
    {
        &self.totals
    }

    /// The maximum-height series, one entry per generation.
    pub fn maxes(&self) -> (r: &Vec<u16>)
        ensures
            r@ == self@.maxes,
    {
        &self.maxes
    }

    /// All recorded max points so far.
    pub fn max_points(&self) -> (r: &Vec<MaxPoint>)
        ensures
            r@ == self@.max_points,
    {
        &self.max_points
    }
}

/// In a well-formed grid every cell's stored coordinates lie inside the grid.
pub proof fn lemma_grid_coords_bounded(lab: Seq<Bacteria>, side: int)
    requires
        side >= 1,
        grid_wf(lab, side),
    ensures
        forall|k: int| 0 <= k < lab.len() ==> (#[trigger] lab[k]).i < side && lab[k].j < side,
{
    assert forall|k: int| 0 <= k < lab.len() implies (#[trigger] lab[k]).i < side && lab[k].j
        < side by {
        lemma_mod_pos_bound(k, side);
        lemma_multiply_divide_lt(k, side, side);
    }
}

} // verus!
