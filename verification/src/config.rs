//! Run configuration: grid size, seeding probability, step count, colony
//! parameters, and the colony-rule selector.

use vstd::prelude::*;

verus! {

/// Denominator of the seeding probability: the probability is
/// `seed_threshold / SEED_DENOM`, so a threshold of `SEED_DENOM` is certainty
/// and a threshold of `0` is impossibility.
pub const SEED_DENOM: u64 = 1000000000;

/// Selects which of the two colony-regime rules the engine applies.
#[derive(Clone, Copy, Debug, PartialEq, Eq, Structural)]
pub enum ColonyRule {
    /// Threshold form: a live cell grows when the neighbor sum strictly
    /// exceeds eight times its own height; a dormant cell is seeded when the
    /// neighbor sum equals four times its own height.
    Threshold,
    /// Relative form: a live cell grows when the neighbor sum reaches eight
    /// times one less than its own height; a dormant cell is seeded when the
    /// neighbor sum reaches four times the neighbor maximum.
    Relative,
}

/// Why a configuration was rejected before any simulation work started.
#[derive(Clone, Copy, Debug, PartialEq, Eq, Structural)]
pub enum ConfigError {
    /// The grid side length was zero.
    ZeroSide,
    /// The seeding threshold exceeded `SEED_DENOM`, i.e. the probability
    /// would lie outside `[0, 1]`.
    SeedProbabilityOutOfRange,
    /// The step count was zero.
    ZeroSteps,
    /// The maximum colony height was below 2 (colonies start above the
    /// single-cell range) or above 255 (heights must fit a palette byte).
    MaxHeightOutOfRange,
}

/// The engine's whole configuration surface; the engine holds no other
/// process-wide state.
#[derive(Clone, Copy, Debug, PartialEq, Eq, Structural)]
pub struct Config {
    /// Side length of the square grid; the grid holds `side * side` cells.
    pub side: u16,
    /// Seeding threshold out of `SEED_DENOM`.
    pub seed_threshold: u64,
    /// How many generations a run advances.
    pub steps: u32,
    /// Maximum colony height; cells at or above `max_height - 1` freeze.
    pub max_height: u16,
    /// Which colony growth rule applies.
    pub rule: ColonyRule,
    /// A generation's maximum is recorded as max points only when it strictly
    /// exceeds this threshold.
    pub record_threshold: u16,
    /// When set, only cells whose height rose this generation are recorded
    /// as max points; when clear, every cell at the maximum is.
    pub record_only_new: bool,
}

impl Config {
    /// A configuration the engine accepts: a nonempty grid, a probability in
    /// `[0, 1]`, at least one step, and a colony height that leaves room for
    /// colonies (at least 2) and fits a palette byte (at most 255).
    pub open spec fn valid(self) -> bool {
        &&& self.side >= 1
        &&& self.seed_threshold <= SEED_DENOM
        &&& self.steps >= 1
        &&& 2 <= self.max_height <= 255
    }

    /// Checks a configuration up front, before any simulation work, and
    /// reports the first failing check.
    pub fn new(
        side: u16,
        seed_threshold: u64,
        steps: u32,
        max_height: u16,
        rule: ColonyRule,
        record_threshold: u16,
        record_only_new: bool,
    ) -> (r: Result<Config, ConfigError>)
        ensures
            r is Ok <==> (Config {
                side,
                seed_threshold,
                steps,
                max_height,
                rule,
                record_threshold,
                record_only_new,
            }).valid(),
            r is Ok ==> r->Ok_0 == (Config {
                side,
                seed_threshold,
                steps,
                max_height,
                rule,
                record_threshold,
                record_only_new,
            }),
            side == 0 ==> r == Err::<Config, ConfigError>(ConfigError::ZeroSide),
            side >= 1 && seed_threshold > SEED_DENOM ==> r == Err::<Config, ConfigError>(
                ConfigError::SeedProbabilityOutOfRange,
            ),
            side >= 1 && seed_threshold <= SEED_DENOM && steps == 0 ==> r == Err::<
                Config,
                ConfigError,
            >(ConfigError::ZeroSteps),
            side >= 1 && seed_threshold <= SEED_DENOM && steps >= 1 && !(2 <= max_height <= 255)
                ==> r == Err::<Config, ConfigError>(ConfigError::MaxHeightOutOfRange),
    {
        if side == 0 {
            Err(ConfigError::ZeroSide)
        } else if seed_threshold > SEED_DENOM {
            Err(ConfigError::SeedProbabilityOutOfRange)
        } else if steps == 0 {
            Err(ConfigError::ZeroSteps)
        } else if max_height < 2 || max_height > 255 {
            Err(ConfigError::MaxHeightOutOfRange)
        } else {
            Ok(
                Config {
                    side,
                    seed_threshold,
                    steps,
                    max_height,
                    rule,
                    record_threshold,
                    record_only_new,
                },
            )
        }
    }
}

} // verus!
