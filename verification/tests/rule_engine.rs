use bacteria::cell::Bacteria;
use bacteria::config::ColonyRule;
use bacteria::rules::{regime, Regime};

fn cell_with(height: u16, neighbors: [u16; 8]) -> Bacteria {
    Bacteria { i: 1, j: 1, height, neighbors }
}

#[test]
fn single_birth_on_three_neighbors() {
    let mut b = cell_with(0, [1, 1, 1, 0, 0, 0, 0, 0]);
    b.tick(ColonyRule::Threshold, 4);
    assert_eq!(b.height, 1);
}

#[test]
fn single_survival_on_two_neighbors() {
    let mut b = cell_with(1, [1, 0, 0, 0, 1, 0, 0, 0]);
    b.tick(ColonyRule::Threshold, 4);
    assert_eq!(b.height, 1);
}

#[test]
fn single_survival_on_three_neighbors() {
    let mut b = cell_with(1, [1, 0, 1, 0, 1, 0, 0, 0]);
    b.tick(ColonyRule::Threshold, 4);
    assert_eq!(b.height, 1);
}

#[test]
fn single_death_on_isolation() {
    let mut b = cell_with(1, [0, 0, 0, 0, 0, 0, 0, 0]);
    b.tick(ColonyRule::Threshold, 4);
    assert_eq!(b.height, 0);
    let mut b = cell_with(1, [1, 0, 0, 0, 0, 0, 0, 0]);
    b.tick(ColonyRule::Threshold, 4);
    assert_eq!(b.height, 0);
}

#[test]
fn single_death_on_crowding() {
    for ns in [
        [1, 1, 1, 1, 1, 0, 0, 0],
        [1, 1, 1, 1, 1, 1, 0, 0],
        [1, 1, 1, 1, 1, 1, 1, 0],
        [1, 1, 1, 1, 1, 1, 1, 1],
    ] {
        let mut b = cell_with(1, ns);
        b.tick(ColonyRule::Threshold, 4);
        assert_eq!(b.height, 0);
    }
}

#[test]
fn ring_escape_on_even_ring() {
    // Sum 4 carried entirely by the even compass ring: the cell grows.
    let mut b = cell_with(1, [1, 0, 1, 0, 1, 0, 1, 0]);
    b.tick(ColonyRule::Threshold, 4);
    assert_eq!(b.height, 2);
}

#[test]
fn ring_escape_on_odd_ring() {
    let mut b = cell_with(0, [0, 1, 0, 1, 0, 1, 0, 1]);
    b.tick(ColonyRule::Threshold, 4);
    assert_eq!(b.height, 1);
}

#[test]
fn no_ring_escape_on_mixed_four() {
    // Sum 4 split across both rings: an overcrowded live cell dies.
    let mut b = cell_with(1, [1, 1, 1, 1, 0, 0, 0, 0]);
    b.tick(ColonyRule::Threshold, 4);
    assert_eq!(b.height, 0);
}

#[test]
fn dormant_isolated_never_seeds_threshold_variant() {
    // Neighbor sums of 0 and of 1 both leave a dormant cell dormant.
    let mut b = cell_with(0, [0, 0, 0, 0, 0, 0, 0, 0]);
    b.tick(ColonyRule::Threshold, 4);
    assert_eq!(b.height, 0);
    let mut b = cell_with(0, [1, 0, 0, 0, 0, 0, 0, 0]);
    b.tick(ColonyRule::Threshold, 4);
    assert_eq!(b.height, 0);
}

#[test]
fn colony_threshold_growth() {
    // Colony regime (neighbor max 2 < 3): sum 9 > 8 * 1, so the cell grows.
    let mut b = cell_with(1, [2, 2, 2, 2, 1, 0, 0, 0]);
    b.tick(ColonyRule::Threshold, 4);
    assert_eq!(b.height, 2);
}

#[test]
fn colony_threshold_no_growth_at_bound() {
    // Sum exactly 8 == 8 * 1 does not strictly exceed it: no growth.
    let mut b = cell_with(1, [2, 2, 2, 2, 0, 0, 0, 0]);
    b.tick(ColonyRule::Threshold, 4);
    assert_eq!(b.height, 1);
}

#[test]
fn colony_relative_growth() {
    // Relative form: sum 2 >= 8 * (1 - 1), so a height-1 cell grows.
    let mut b = cell_with(1, [2, 0, 0, 0, 0, 0, 0, 0]);
    b.tick(ColonyRule::Relative, 4);
    assert_eq!(b.height, 2);
}

#[test]
fn colony_relative_seed() {
    // Relative form: sum 16 >= 4 * 2, so a dormant cell seeds.
    let mut b = cell_with(0, [2, 2, 2, 2, 2, 2, 2, 2]);
    b.tick(ColonyRule::Relative, 4);
    assert_eq!(b.height, 1);
}

#[test]
fn colony_relative_no_seed_below_bound() {
    // Sum 7 < 4 * 2: the dormant cell stays dormant.
    let mut b = cell_with(0, [2, 2, 2, 1, 0, 0, 0, 0]);
    b.tick(ColonyRule::Relative, 4);
    assert_eq!(b.height, 0);
}

#[test]
fn frozen_cell_keeps_height() {
    // Height at the cap (4 > max_height - 1): frozen whatever the rule says.
    let mut b = cell_with(4, [2, 2, 2, 2, 2, 2, 2, 2]);
    b.tick(ColonyRule::Relative, 4);
    assert_eq!(b.height, 4);
    // Neighbor max at max_height - 1 freezes the cell too.
    let mut b = cell_with(2, [3, 0, 0, 0, 0, 0, 0, 0]);
    b.tick(ColonyRule::Relative, 4);
    assert_eq!(b.height, 2);
}

#[test]
fn regime_dispatch() {
    assert_eq!(regime(0, 0, 4), Regime::SingleCell);
    assert_eq!(regime(1, 1, 4), Regime::SingleCell);
    assert_eq!(regime(2, 1, 4), Regime::Colony);
    assert_eq!(regime(0, 2, 4), Regime::Colony);
    assert_eq!(regime(3, 2, 4), Regime::Colony);
    assert_eq!(regime(4, 2, 4), Regime::Frozen);
    assert_eq!(regime(0, 3, 4), Regime::Frozen);
}
