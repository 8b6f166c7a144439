//! The computations on a weapon: the average damage, the largest damage, and simulated
//! attacks.
pub mod average;
pub mod capped;
pub mod exact;
pub mod max;
pub mod replay;
pub mod results;
pub mod roll_target;
pub mod simulation;
pub mod totals;

pub use average::{
    ability_twelfths, half_target, inverse_probability, lemma_reroll_shares, probability,
    reroll_probability, reroll_twelfths, success_sixths, success_twelfths, taken_twelfths,
    twice_save_bonus, AverageDamageProcessor, Tally,
};
pub use capped::{capped, larger, LIMIT};
pub use exact::{checked, fits};
pub use max::MaxDamageProcessor;
pub use replay::{
    bonus_share, exploding_share, leader_share, mortals_share, reroll_of_rank, rerolled,
    save_bonus_count, save_bonus_rolled, save_bonus_sides, shares_count, shares_rolled,
    shares_sides, ward_saves, PhaseValue,
    Share,
};
pub use results::{ProcessorResults, SaveResult, AVERAGE_DENOMINATOR};
pub use roll_target::{lemma_target_floor, target_value, RollTarget, RollTargetValue};
pub use simulation::{
    bonus_min, can_reroll, exploding_max_on, exploding_min_on, may_reroll, mortals_max_on,
    mortals_min_on, phase_outcome, reads_shares, save_bonus_max, takes_effect, takes_roll, total_save_bonus,
    RerollPhase, SimulatedDamageProcessor,
};
pub(crate) use totals::add_capped;
