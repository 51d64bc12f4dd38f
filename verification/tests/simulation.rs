use bacteria::cell::Bacteria;
use bacteria::config::{ColonyRule, Config, SEED_DENOM};
use bacteria::sim::{Simulation, GEN_ZERO_MAX};

fn cfg4() -> Config {
    Config::new(4, 0, 1, 4, ColonyRule::Threshold, 3, true).unwrap()
}

fn heights(sim: &Simulation) -> Vec<u16> {
    sim.cells().iter().map(|b| b.height).collect()
}

#[test]
fn neighbor_resolution_interior_and_boundary() {
    // A 3x3 grid with pairwise distinct heights 1..9.
    let side: u16 = 3;
    let mut lab: Vec<Bacteria> = Vec::new();
    for k in 0..9u16 {
        lab.push(Bacteria::with_height(k % side, k / side, k + 1));
    }
    // Interior cell (row 1, col 1): all 8 compass neighbors, N NE E SE S SW W NW.
    let mut center = lab[4];
    center.init_neighbors(&lab, side);
    assert_eq!(center.neighbors, [2, 3, 6, 9, 8, 7, 4, 1]);
    // Corner cell (row 0, col 0): out-of-range directions are exactly 0.
    let mut corner = lab[0];
    corner.init_neighbors(&lab, side);
    assert_eq!(corner.neighbors, [0, 0, 2, 5, 4, 0, 0, 0]);
    // Heights and positions are untouched by resolution.
    assert_eq!(center.height, 5);
    assert_eq!((center.i, center.j), (1, 1));
}

#[test]
fn blinker_step_matches_hand_computation() {
    // A horizontal triple at row 1 (cols 1..3) on a 4x4 grid.
    let mut h = vec![0u16; 16];
    h[5] = 1;
    h[6] = 1;
    h[7] = 1;
    let mut sim = Simulation::from_heights(cfg4(), &h);
    sim.step();
    let mut want = vec![0u16; 16];
    want[2] = 1;
    want[6] = 1;
    want[10] = 1;
    assert_eq!(heights(&sim), want);
    assert_eq!(sim.totals(), &vec![3, 3]);
    assert_eq!(sim.maxes(), &vec![GEN_ZERO_MAX, 1]);
    assert!(sim.max_points().is_empty());
}

#[test]
fn generation_step_is_deterministic() {
    let mut h = vec![0u16; 16];
    h[5] = 1;
    h[6] = 1;
    h[7] = 1;
    h[10] = 1;
    let mut a = Simulation::from_heights(cfg4(), &h);
    let mut b = Simulation::from_heights(cfg4(), &h);
    a.step();
    b.step();
    assert_eq!(heights(&a), heights(&b));
    assert_eq!(a.totals(), b.totals());
    assert_eq!(a.maxes(), b.maxes());
}

#[test]
fn zero_probability_run_stays_empty() {
    // One step on an all-zero grid seeded with probability 0: totals [0, 0],
    // maxes the generation-0 sentinel followed by 0.
    let cfg = Config::new(4, 0, 1, 4, ColonyRule::Threshold, 3, true).unwrap();
    let mut sim = Simulation::new(cfg);
    assert!(heights(&sim).iter().all(|&h| h == 0));
    sim.run();
    assert_eq!(sim.totals(), &vec![0, 0]);
    assert_eq!(sim.maxes(), &vec![GEN_ZERO_MAX, 0]);
    assert!(sim.max_points().is_empty());
}

#[test]
fn certain_probability_seeds_every_cell() {
    let cfg = Config::new(3, SEED_DENOM, 1, 4, ColonyRule::Threshold, 3, true).unwrap();
    let sim = Simulation::new(cfg);
    assert!(heights(&sim).iter().all(|&h| h == 1));
    assert_eq!(sim.totals(), &vec![9]);
}

#[test]
fn max_points_record_new_maxima_above_threshold() {
    // A 3x3 grid of height 2 under the relative rule: every non-corner cell
    // reaches the new maximum 3 this step, and only those are recorded.
    let cfg = Config::new(3, 0, 1, 4, ColonyRule::Relative, 1, true).unwrap();
    let h = vec![2u16; 9];
    let mut sim = Simulation::from_heights(cfg, &h);
    sim.step();
    assert_eq!(heights(&sim), vec![2, 3, 2, 3, 3, 3, 2, 3, 2]);
    assert_eq!(sim.maxes(), &vec![GEN_ZERO_MAX, 3]);
    let pts: Vec<(u16, u16)> = sim.max_points().iter().map(|p| (p.x, p.y)).collect();
    assert_eq!(pts, vec![(1, 0), (0, 1), (1, 1), (2, 1), (1, 2)]);
    // Every recorded point sits at the generation maximum, above threshold.
    let hs = heights(&sim);
    for p in sim.max_points() {
        let k = p.y as usize * 3 + p.x as usize;
        assert_eq!(hs[k], 3);
        assert!(hs[k] > 1);
    }
}

#[test]
fn max_points_without_new_maximum_filter() {
    // Same grid with the filter off: still only cells at the maximum.
    let cfg = Config::new(3, 0, 1, 4, ColonyRule::Relative, 1, false).unwrap();
    let h = vec![2u16; 9];
    let mut sim = Simulation::from_heights(cfg, &h);
    sim.step();
    let pts: Vec<(u16, u16)> = sim.max_points().iter().map(|p| (p.x, p.y)).collect();
    assert_eq!(pts, vec![(1, 0), (0, 1), (1, 1), (2, 1), (1, 2)]);
}

#[test]
fn run_advances_all_configured_steps() {
    let cfg = Config::new(4, 0, 3, 4, ColonyRule::Threshold, 3, true).unwrap();
    let mut h = vec![0u16; 16];
    h[5] = 1;
    h[6] = 1;
    h[7] = 1;
    let mut sim = Simulation::from_heights(cfg, &h);
    sim.run();
    // The blinker oscillates with period 2: after 3 steps it is vertical.
    let mut want = vec![0u16; 16];
    want[2] = 1;
    want[6] = 1;
    want[10] = 1;
    assert_eq!(heights(&sim), want);
    assert_eq!(sim.totals(), &vec![3, 3, 3, 3]);
    assert_eq!(sim.maxes(), &vec![GEN_ZERO_MAX, 1, 1, 1]);
}

#[test]
fn frame_pixels_are_heights() {
    let cfg = Config::new(3, 0, 1, 4, ColonyRule::Relative, 1, true).unwrap();
    let h = vec![0, 1, 2, 3, 4, 0, 1, 2, 3];
    let sim = Simulation::from_heights(cfg, &h);
    assert_eq!(sim.frame_pixels(), vec![0u8, 1, 2, 3, 4, 0, 1, 2, 3]);
}

#[test]
fn seeded_grid_positions_are_row_major() {
    let cfg = Config::new(5, SEED_DENOM / 2, 2, 4, ColonyRule::Threshold, 3, true).unwrap();
    let sim = Simulation::new(cfg);
    assert_eq!(sim.cells().len(), 25);
    for (k, b) in sim.cells().iter().enumerate() {
        assert_eq!(b.i as usize, k % 5);
        assert_eq!(b.j as usize, k / 5);
        assert!(b.height <= 1);
    }
}
