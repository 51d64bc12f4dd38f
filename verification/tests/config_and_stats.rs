use bacteria::cell::seed_height;
use bacteria::config::{ColonyRule, Config, ConfigError, SEED_DENOM};
use bacteria::sim::Simulation;
use bacteria::stats::histogram;

#[test]
fn config_accepts_valid_parameters() {
    let cfg = Config::new(2000, SEED_DENOM / 4, 300, 4, ColonyRule::Relative, 3, true).unwrap();
    assert_eq!(cfg.side, 2000);
    assert_eq!(cfg.seed_threshold, SEED_DENOM / 4);
    assert_eq!(cfg.steps, 300);
    assert_eq!(cfg.max_height, 4);
    assert_eq!(cfg.rule, ColonyRule::Relative);
    assert_eq!(cfg.record_threshold, 3);
    assert!(cfg.record_only_new);
}

#[test]
fn config_rejects_zero_side() {
    let r = Config::new(0, 0, 1, 4, ColonyRule::Threshold, 3, true);
    assert_eq!(r, Err(ConfigError::ZeroSide));
}

#[test]
fn config_rejects_probability_above_one() {
    let r = Config::new(4, SEED_DENOM + 1, 1, 4, ColonyRule::Threshold, 3, true);
    assert_eq!(r, Err(ConfigError::SeedProbabilityOutOfRange));
}

#[test]
fn config_rejects_zero_steps() {
    let r = Config::new(4, 0, 0, 4, ColonyRule::Threshold, 3, true);
    assert_eq!(r, Err(ConfigError::ZeroSteps));
}

#[test]
fn config_rejects_max_height_out_of_range() {
    let r = Config::new(4, 0, 1, 1, ColonyRule::Threshold, 3, true);
    assert_eq!(r, Err(ConfigError::MaxHeightOutOfRange));
    let r = Config::new(4, 0, 1, 256, ColonyRule::Threshold, 3, true);
    assert_eq!(r, Err(ConfigError::MaxHeightOutOfRange));
}

#[test]
fn seed_height_thresholds() {
    assert_eq!(seed_height(5, 10), 1);
    assert_eq!(seed_height(10, 10), 0);
    assert_eq!(seed_height(0, 0), 0);
}

#[test]
fn histogram_counts_sum_to_series_length() {
    let series = vec![1u16, 1, 2, 5];
    let r = histogram(&series, 2);
    assert_eq!(r.iter().sum::<u64>(), 4);
    let series = vec![0u16, 3, 3, 7, 9, 9, 9];
    for nbins in 1..=8usize {
        let r = histogram(&series, nbins);
        assert_eq!(r.len(), nbins);
        assert_eq!(r.iter().sum::<u64>(), 7);
    }
}

#[test]
fn histogram_exact_buckets() {
    // Range [1, 5], two buckets of width (5 - 1 + 1) / 2: 1, 1 and 2 fall in
    // the lower bucket, 5 in the upper.
    let series = vec![1u16, 1, 2, 5];
    assert_eq!(histogram(&series, 2), vec![3, 1]);
}

#[test]
fn histogram_of_constant_series() {
    // A single value lands every entry in the first bucket.
    let series = vec![7u16, 7, 7];
    assert_eq!(histogram(&series, 3), vec![3, 0, 0]);
}

#[test]
fn max_histogram_over_recorded_maxima() {
    let cfg = Config::new(3, 0, 2, 4, ColonyRule::Relative, 1, true).unwrap();
    let h = vec![2u16; 9];
    let mut sim = Simulation::from_heights(cfg, &h);
    sim.run();
    // maxes: sentinel 1, then 3 twice (everything freezes after one step:
    // every cell then sees a neighbor at max_height - 1).
    assert_eq!(sim.maxes(), &vec![1, 3, 3]);
    // Range [1, 3], two buckets: (v - 1) * 2 / 3 maps 1 to 0 and 3 to 1.
    assert_eq!(sim.max_histogram(2), vec![1, 2]);
}
