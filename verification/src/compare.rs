//! Units side by side: their average, largest and simulated damage.
use crate::opponent::Opponent;
use crate::processors::ProcessorResults;
use crate::results::{total_damage, Buckets, Fraction};
use crate::unit::{
    averages_fit, total_average, total_count, total_max_damage, Unit,
};
use vstd::prelude::*;

verus! {

/// The average damage of a unit against each save, and its largest damage.
#[derive(Debug)]
pub struct AverageComparisonResult {
    pub name: String,
    pub averages: ProcessorResults,
    pub max: u32,
}

/// The outcomes of the simulated attacks of a unit, their mean, and the largest damage
/// of the unit.
#[derive(Debug)]
pub struct SimulatedUnitResult {
    pub name: String,
    pub results: Buckets,
    pub max: u32,
    pub average: Fraction,
}

/// Whether a result is that of a unit against an opponent: it bears the name of the
/// unit and holds its average damage against each save and its largest damage.
pub open spec fn is_average_of(
    result: AverageComparisonResult,
    unit: Unit,
    opponent: Option<&Opponent>,
) -> bool {
    &&& result.name@ == unit.name@
    &&& result.averages.has_saves()
    &&& forall|save: int|
        1 <= save <= 7 ==> #[trigger] result.averages.value_for(save) == total_average(
            unit.weapons@,
            opponent,
            save,
        )
    &&& result.max == total_max_damage(unit.weapons@)
}

/// Whether the averages of a unit against an opponent can be compared: whether its
/// average damage stays within 128 bits and its largest damage within 32 bits.
pub open spec fn can_average(unit: Unit, opponent: Option<&Opponent>) -> bool {
    averages_fit(unit.weapons@, opponent) && total_max_damage(unit.weapons@) <= u32::MAX
}

/// Whether a result holds outcomes of a unit against a save and an opponent: it bears
/// the name of the unit, its buckets and its mean are those of counts of as many
/// outcomes as were asked for, each of them what a trial of the unit deals for some
/// rolls of the dice and none beyond the largest damage of the unit, which it holds too.
pub open spec fn is_simulation_of(
    result: SimulatedUnitResult,
    unit: Unit,
    save: u32,
    opponent: Option<&Opponent>,
    num_simulations: u32,
) -> bool {
    &&& result.name@ == unit.name@
    &&& result.max == total_max_damage(unit.weapons@)
    &&& exists|counts: Map<u32, u32>|
        {
            &&& total_count(counts) == num_simulations
            &&& forall|damage: u32|
                counts.contains_key(damage) ==> damage <= total_max_damage(unit.weapons@)
            &&& forall|damage: u32|
                counts.contains_key(damage) ==> unit.is_outcome(save, opponent, damage as int)
            &&& #[trigger] result.results.are_of(counts)
            &&& result.average.numerator == total_damage(counts)
            &&& result.average.denominator == num_simulations
        }
}

/// Whether a unit can be simulated against a save and an opponent, and its largest
/// damage stays within 32 bits.
pub open spec fn can_simulate(unit: Unit, save: u32, opponent: Option<&Opponent>) -> bool {
    unit.can_simulate(save, opponent) && total_max_damage(unit.weapons@) <= u32::MAX
}

/// Compares units against one opponent.
pub struct UnitComparator<'a> {
    pub units: &'a [Unit],
    pub opponent: Option<&'a Opponent>,
}

impl<'a> UnitComparator<'a> {
    pub fn new(units: &'a [Unit], opponent: Option<&'a Opponent>) -> (r: Self)
        ensures
            r.units == units,
            r.opponent == opponent,
    {
        Self { units, opponent }
    }

    /// The average damage and the largest damage of every unit, in the order of the
    /// units, or nothing where those of some unit leave the bits that hold them.
    pub fn checked_compare_average_damage(&self) -> (r: Option<Vec<AverageComparisonResult>>)
        ensures
            r is Some <==> forall|i: int|
                0 <= i < self.units@.len() ==> can_average(#[trigger] self.units@[i], self.opponent),
            r matches Some(results) ==> results@.len() == self.units@.len() && forall|i: int|
                0 <= i < results@.len() ==> is_average_of(
                    #[trigger] results@[i],
                    self.units@[i],
                    self.opponent,
                ),
    {
        let mut results: Vec<AverageComparisonResult> = Vec::new();
        let mut i: usize = 0;
        while i < self.units.len()
            invariant
                i <= self.units.len(),
                results@.len() == i,
                forall|j: int| 0 <= j < i ==> can_average(#[trigger] self.units@[j], self.opponent),
                forall|j: int|
                    0 <= j < i ==> is_average_of(#[trigger] results@[j], self.units@[j], self.opponent),
            decreases self.units.len() - i,
        {
            let unit = &self.units[i];
            let averages = match unit.checked_average_damage(self.opponent) {
                Some(averages) => averages,
                None => {
                    assert(!can_average(self.units@[i as int], self.opponent));
                    return None;
                },
            };
            let max = match unit.checked_max_damage() {
                Some(max) => max,
                None => {
                    assert(!can_average(self.units@[i as int], self.opponent));
                    return None;
                },
            };
            let result = AverageComparisonResult { name: unit.name.clone(), averages, max };
            assert(is_average_of(result, self.units@[i as int], self.opponent));
            let ghost before = results@;
            results.push(result);
            assert forall|j: int| 0 <= j < i + 1 implies is_average_of(
                #[trigger] results@[j],
                self.units@[j],
                self.opponent,
            ) by {
                if j < i {
                    assert(results@[j] == before[j]);
                }
            }
            i = i + 1;
        }
        Some(results)
    }

    /// The average damage and the largest damage of every unit, in the order of the
    /// units.
    pub fn compare_average_damage(&self) -> (r: Vec<AverageComparisonResult>)
        requires
            forall|i: int|
                0 <= i < self.units@.len() ==> can_average(#[trigger] self.units@[i], self.opponent),
        ensures
            r@.len() == self.units@.len(),
            forall|i: int|
                0 <= i < r@.len() ==> is_average_of(#[trigger] r@[i], self.units@[i], self.opponent),
    {
        self.checked_compare_average_damage().unwrap()
    }

    /// Whether every unit can be simulated against the save.
    pub fn is_ready(&self, save: u32) -> (r: bool)
        ensures
            r <==> forall|i: int|
                0 <= i < self.units@.len() ==> can_simulate(#[trigger] self.units@[i], save, self.opponent),
    {
        let mut i: usize = 0;
        while i < self.units.len()
            invariant
                i <= self.units.len(),
                forall|j: int| 0 <= j < i ==> can_simulate(#[trigger] self.units@[j], save, self.opponent),
            decreases self.units.len() - i,
        {
            let unit = &self.units[i];
            if !unit.is_ready(save, self.opponent) || unit.checked_max_damage().is_none() {
                assert(!can_simulate(self.units@[i as int], save, self.opponent));
                return false;
            }
            i = i + 1;
        }
        true
    }

    /// The outcomes of as many simulated trials as asked for, for every unit, in the
    /// order of the units.
    pub fn compare_simulated_damage(&self, save: u32, num_simulations: u32) -> (r: Vec<
        SimulatedUnitResult,
    >)
        requires
            forall|i: int|
                0 <= i < self.units@.len() ==> can_simulate(#[trigger] self.units@[i], save, self.opponent),
        ensures
            r@.len() == self.units@.len(),
            forall|i: int|
                0 <= i < r@.len() ==> is_simulation_of(
                    #[trigger] r@[i],
                    self.units@[i],
                    save,
                    self.opponent,
                    num_simulations,
                ),
    {
        let mut results: Vec<SimulatedUnitResult> = Vec::new();
        let mut i: usize = 0;
        while i < self.units.len()
            invariant
                i <= self.units.len(),
                results@.len() == i,
                forall|j: int|
                    0 <= j < self.units@.len() ==> can_simulate(
                        #[trigger] self.units@[j],
                        save,
                        self.opponent,
                    ),
                forall|j: int|
                    0 <= j < i ==> is_simulation_of(
                        #[trigger] results@[j],
                        self.units@[j],
                        save,
                        self.opponent,
                        num_simulations,
                    ),
            decreases self.units.len() - i,
        {
            let unit = &self.units[i];
            assert(can_simulate(self.units@[i as int], save, self.opponent));
            let outcome = unit.simulate_damage(save, self.opponent, num_simulations);
            let result = SimulatedUnitResult {
                name: unit.name.clone(),
                results: Buckets::from(&outcome.buckets),
                average: outcome.mean(),
                max: unit.max_damage(),
            };
            assert(is_simulation_of(
                result,
                self.units@[i as int],
                save,
                self.opponent,
                num_simulations,
            )) by {
                assert(result.results.are_of(outcome.buckets@));
            }
            let ghost before = results@;
            results.push(result);
            assert forall|j: int| 0 <= j < i + 1 implies is_simulation_of(
                #[trigger] results@[j],
                self.units@[j],
                save,
                self.opponent,
                num_simulations,
            ) by {
                if j < i {
                    assert(results@[j] == before[j]);
                }
            }
            i = i + 1;
        }
        results
    }
}

} // verus!
