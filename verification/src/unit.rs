//! A unit: weapons that attack together, and the outcomes of its simulated attacks.
use crate::opponent::Opponent;
use crate::processors::{
    add_capped, capped, fits, AverageDamageProcessor, ProcessorResults,
    SimulatedDamageProcessor, LIMIT,
};
use crate::results::{total_damage, totals, Fraction};
use crate::rollable::{
    agrees, extends, follows, lemma_agrees_before, lemma_sides_join, lemma_sides_none,
    lemma_values_agree, shown_by, sides_from, stream_of, values_of, DiceRoller, Recorded,
    Script, Source,
};
use crate::weapon::Weapon;
use std::collections::HashMap;
use vstd::prelude::*;
use vstd::string::StringExecFns;

verus! {

broadcast use vstd::std_specs::hash::group_hash_axioms;

/// How often a damage was counted.
pub open spec fn count_of(buckets: Map<u32, u32>, damage: int) -> nat {
    if 0 <= damage <= u32::MAX && buckets.contains_key(damage as u32) {
        buckets[damage as u32] as nat
    } else {
        0
    }
}

/// How often a damage of at most the given one was counted.
pub open spec fn count_up_to(buckets: Map<u32, u32>, damage: int) -> nat
    decreases damage + 1,
{
    if damage < 0 {
        0
    } else {
        count_up_to(buckets, damage - 1) + count_of(buckets, damage)
    }
}

/// How many outcomes were counted in all.
pub open spec fn total_count(buckets: Map<u32, u32>) -> nat {
    count_up_to(buckets, u32::MAX as int)
}

/// Counting a damage once more adds one to the counts up to that damage and beyond,
/// and leaves the counts below it.
pub proof fn lemma_count_once_more(buckets: Map<u32, u32>, damage: u32, up_to: int)
    requires
        count_of(buckets, damage as int) < u32::MAX,
    ensures
        count_up_to(
            buckets.insert(damage, (count_of(buckets, damage as int) + 1) as u32),
            up_to,
        ) == count_up_to(buckets, up_to) + if up_to >= damage {
            1nat
        } else {
            0nat
        },
    decreases up_to + 1,
{
    if up_to >= 0 {
        lemma_count_once_more(buckets, damage, up_to - 1);
    }
}

/// No damage was counted more often than all outcomes together.
pub proof fn lemma_count_within(buckets: Map<u32, u32>, damage: int, up_to: int)
    requires
        damage <= up_to,
    ensures
        count_of(buckets, damage) <= count_up_to(buckets, up_to),
    decreases up_to - damage,
{
    if damage < 0 {
    } else if damage < up_to {
        lemma_count_within(buckets, damage, up_to - 1);
    }
}

/// The outcomes of simulated attacks: for each damage, how often it came out.
#[derive(Debug)]
pub struct UnitSimulationResults {
    pub buckets: HashMap<u32, u32>,
}

impl UnitSimulationResults {
    pub fn new() -> (r: Self)
        ensures
            r.buckets@ == Map::<u32, u32>::empty(),
    {
        Self { buckets: HashMap::new() }
    }

    /// Counts one more outcome with the given damage.
    pub fn incr(&mut self, damage: u32)
        requires
            count_of(old(self).buckets@, damage as int) < u32::MAX,
        ensures
            final(self).buckets@ == old(self).buckets@.insert(
                damage,
                (count_of(old(self).buckets@, damage as int) + 1) as u32,
            ),
    {
        let count = match self.buckets.get(&damage) {
            Some(count) => *count,
            None => 0,
        };
        self.buckets.insert(damage, count + 1);
    }
}

impl UnitSimulationResults {
    /// The mean damage of the outcomes: the sum of their damage out of their number.
    /// Without outcomes it is nothing out of nothing.
    pub fn mean(&self) -> (r: Fraction)
        ensures
            r.numerator == total_damage(self.buckets@),
            r.denominator == total_count(self.buckets@),
    {
        totals(&self.buckets)
    }
}

impl Default for UnitSimulationResults {
    fn default() -> (r: Self)
        ensures
            r.buckets@ == Map::<u32, u32>::empty(),
    {
        Self::new()
    }
}

/// The sum of the largest damages of the given weapons.
pub open spec fn total_max_damage(weapons: Seq<Weapon>) -> int
    decreases weapons.len(),
{
    if weapons.len() == 0 {
        0
    } else {
        total_max_damage(weapons.drop_last()) + weapons.last().max_damage_value()
    }
}

/// The sum of the largest simulated damages of the given weapons.
pub open spec fn total_simulated(weapons: Seq<Weapon>) -> int
    decreases weapons.len(),
{
    if weapons.len() == 0 {
        0
    } else {
        total_simulated(weapons.drop_last()) + weapons.last().max_simulated_value()
    }
}

/// The sum of the average damages of the given weapons against a save, in parts of
/// `AVERAGE_DENOMINATOR`.
pub open spec fn total_average(weapons: Seq<Weapon>, opponent: Option<&Opponent>, save: int) -> int
    decreases weapons.len(),
{
    if weapons.len() == 0 {
        0
    } else {
        total_average(weapons.drop_last(), opponent, save) + (AverageDamageProcessor {
            weapon: &weapons.last(),
            opponent,
        }).average_value(save)
    }
}

/// Whether the average damages of the given weapons can be computed and added up one
/// after the other within 128 bits.
pub open spec fn averages_fit(weapons: Seq<Weapon>, opponent: Option<&Opponent>) -> bool
    decreases weapons.len(),
{
    weapons.len() == 0 || {
        &&& averages_fit(weapons.drop_last(), opponent)
        &&& (AverageDamageProcessor { weapon: &weapons.last(), opponent }).can_average()
        &&& forall|save: int|
            1 <= save <= 7 ==> fits(#[trigger] total_average(weapons, opponent, save))
    }
}

/// A unit: a name and the weapons that its models bear.
#[derive(Debug)]
pub struct Unit {
    pub name: String,
    pub weapons: Vec<Weapon>,
}

impl Unit {
    pub fn new(name: &str, weapons: Vec<Weapon>) -> (r: Self)
        ensures
            r.name@ == name@,
            r.weapons == weapons,
    {
        Self { name: String::from_str(name), weapons }
    }

    /// The average damage of all weapons of the unit together against each save, or
    /// nothing where the numbers of the computation leave 128 bits.
    pub fn checked_average_damage(&self, opponent: Option<&Opponent>) -> (r: Option<
        ProcessorResults,
    >)
        ensures
            r is Some <==> averages_fit(self.weapons@, opponent),
            r matches Some(results) ==> results.has_saves() && forall|save: int|
                1 <= save <= 7 ==> #[trigger] results.value_for(save) == total_average(
                    self.weapons@,
                    opponent,
                    save,
                ),
    {
        let mut results = ProcessorResults::new();
        let mut i: usize = 0;
        while i < self.weapons.len()
            invariant
                i <= self.weapons.len(),
                averages_fit(self.weapons@.take(i as int), opponent),
                results.has_saves(),
                forall|save: int|
                    1 <= save <= 7 ==> #[trigger] results.value_for(save) == total_average(
                        self.weapons@.take(i as int),
                        opponent,
                        save,
                    ),
            decreases self.weapons.len() - i,
        {
            let ghost part = self.weapons@.take(i + 1);
            proof {
                assert(part.drop_last() =~= self.weapons@.take(i as int));
                assert(part.last() == self.weapons@[i as int]);
            }
            let mut processor = AverageDamageProcessor::new(&self.weapons[i]);
            if let Some(o) = opponent {
                processor.opponent(o);
            }
            let more = match processor.checked_average_damage() {
                Some(more) => more,
                None => {
                    proof {
                        assert(!averages_fit(part, opponent));
                        if averages_fit(self.weapons@, opponent) {
                            lemma_averages_fit_part(self.weapons@, opponent, i + 1);
                        }
                    }
                    return None;
                },
            };
            proof {
                assert forall|j: int| 0 <= j < 7 implies results.save_results@[j].value
                    + more.save_results@[j].value == total_average(part, opponent, j + 1) by {
                    assert(results.value_for(j + 1) == total_average(
                        self.weapons@.take(i as int),
                        opponent,
                        j + 1,
                    ));
                    assert(more.value_for(j + 1) == processor.average_value(j + 1));
                }
            }
            results = match results.checked_merge(&more) {
                Some(merged) => merged,
                None => {
                    proof {
                        let j = choose|j: int|
                            0 <= j < 7 && !(i128::MIN <= (#[trigger] results.save_results@[j]).value
                                + more.save_results@[j].value <= i128::MAX);
                        assert(!fits(total_average(part, opponent, j + 1)));
                        assert(!averages_fit(part, opponent));
                        if averages_fit(self.weapons@, opponent) {
                            lemma_averages_fit_part(self.weapons@, opponent, i + 1);
                        }
                    }
                    return None;
                },
            };
            proof {
                assert forall|save: int| 1 <= save <= 7 implies #[trigger] results.value_for(save)
                    == total_average(part, opponent, save) by {
                    assert(results.save_results@[save - 1].value == total_average(
                        part,
                        opponent,
                        save,
                    ));
                }
                assert forall|save: int| 1 <= save <= 7 implies fits(
                    #[trigger] total_average(part, opponent, save),
                ) by {
                    assert(results.value_for(save) == total_average(part, opponent, save));
                }
            }
            i = i + 1;
        }
        assert(self.weapons@.take(i as int) =~= self.weapons@);
        Some(results)
    }

    /// The average damage of all weapons of the unit together against each save.
    pub fn average_damage(&self, opponent: Option<&Opponent>) -> (r: ProcessorResults)
        requires
            averages_fit(self.weapons@, opponent),
        ensures
            r.has_saves(),
            forall|save: int|
                1 <= save <= 7 ==> #[trigger] r.value_for(save) == total_average(
                    self.weapons@,
                    opponent,
                    save,
                ),
    {
        self.checked_average_damage(opponent).unwrap()
    }

    fn capped_max_damage(&self) -> (r: u64)
        ensures
            r == capped(total_max_damage(self.weapons@)),
            total_max_damage(self.weapons@) >= 0,
    {
        let mut total: u64 = 0;
        let mut i: usize = 0;
        while i < self.weapons.len()
            invariant
                i <= self.weapons.len(),
                total == capped(total_max_damage(self.weapons@.take(i as int))),
                total_max_damage(self.weapons@.take(i as int)) >= 0,
            decreases self.weapons.len() - i,
        {
            assert(self.weapons@.take(i + 1).drop_last() =~= self.weapons@.take(i as int));
            total = add_capped(
                total,
                self.weapons[i].capped_max_damage(),
                Ghost(total_max_damage(self.weapons@.take(i as int))),
                Ghost(self.weapons@[i as int].max_damage_value()),
            );
            i = i + 1;
        }
        assert(self.weapons@.take(i as int) =~= self.weapons@);
        total
    }

    /// The largest damage of all weapons of the unit together.
    pub fn max_damage(&self) -> (r: u32)
        requires
            total_max_damage(self.weapons@) <= u32::MAX,
        ensures
            r == total_max_damage(self.weapons@),
    {
        self.capped_max_damage() as u32
    }

    /// The largest damage of all weapons of the unit together, or nothing where it is
    /// beyond 32 bits.
    pub fn checked_max_damage(&self) -> (r: Option<u32>)
        ensures
            match r {
                Some(damage) => damage == total_max_damage(self.weapons@),
                None => total_max_damage(self.weapons@) > u32::MAX,
            },
    {
        let damage = self.capped_max_damage();
        if damage < LIMIT {
            Some(damage as u32)
        } else {
            None
        }
    }

    /// What a simulation of the unit needs: what that of each weapon needs, and a
    /// largest damage of them all that the machine holds.
    pub open spec fn can_simulate(&self, save: u32, opponent: Option<&Opponent>) -> bool {
        &&& forall|i: int|
            0 <= i < self.weapons@.len() ==> (SimulatedDamageProcessor {
                weapon: &#[trigger] self.weapons@[i],
                opponent,
                save,
            }).can_simulate()
        &&& total_simulated(self.weapons@) <= u32::MAX
    }

    /// Whether the unit can be simulated against the save and the opponent.
    pub fn is_ready(&self, save: u32, opponent: Option<&Opponent>) -> (r: bool)
        ensures
            r == self.can_simulate(save, opponent),
    {
        let mut total: u64 = 0;
        let mut i: usize = 0;
        while i < self.weapons.len()
            invariant
                i <= self.weapons.len(),
                total == capped(total_simulated(self.weapons@.take(i as int))),
                total_simulated(self.weapons@.take(i as int)) >= 0,
                forall|j: int|
                    0 <= j < i ==> (SimulatedDamageProcessor {
                        weapon: &#[trigger] self.weapons@[j],
                        opponent,
                        save,
                    }).can_simulate(),
            decreases self.weapons.len() - i,
        {
            assert(self.weapons@.take(i + 1).drop_last() =~= self.weapons@.take(i as int));
            let mut processor = SimulatedDamageProcessor::new(&self.weapons[i], save);
            if let Some(o) = opponent {
                processor.opponent(o);
            }
            if !processor.is_ready() {
                return false;
            }
            total = add_capped(
                total,
                self.weapons[i].capped_simulated(),
                Ghost(total_simulated(self.weapons@.take(i as int))),
                Ghost(self.weapons@[i as int].max_simulated_value()),
            );
            i = i + 1;
        }
        assert(self.weapons@.take(i as int) =~= self.weapons@);
        total < LIMIT
    }

    /// What one trial of the unit makes of the given rolls, read from the first on: the
    /// damage, and how many rolls it reads. A roll that is missing is read as 1.
    pub open spec fn trial_on(
        &self,
        save: u32,
        opponent: Option<&Opponent>,
        rolls: Seq<u32>,
    ) -> (int, int) {
        trials_of(self.weapons@, save, opponent, stream_of(rolls), 0)
    }

    /// The damage is what one trial of the unit deals for some rolls of the dice that it
    /// throws.
    pub open spec fn is_outcome(
        &self,
        save: u32,
        opponent: Option<&Opponent>,
        damage: int,
    ) -> bool {
        exists|rolls: Seq<u32>|
            shown_by(rolls, trials_sides(self.weapons@, save, opponent, stream_of(rolls), 0))
                && self.trial_on(save, opponent, rolls) == (damage, rolls.len() as int)
    }

    /// One trial with dice from the source: the damage of the attacks of all weapons,
    /// one weapon after the other.
    pub fn roll_damage_from<S: Source>(
        &self,
        save: u32,
        opponent: Option<&Opponent>,
        source: &mut S,
    ) -> (r: u32)
        requires
            self.can_simulate(save, opponent),
            old(source).valid(),
        ensures
            r <= total_simulated(self.weapons@),
            r <= total_max_damage(self.weapons@),
            follows(*old(source), *final(source)),
            forall|stream: spec_fn(int) -> u32| #[trigger]
                agrees(stream, final(source).drawn()) ==> sides_from(
                    final(source).drawn(),
                    old(source).drawn().len() as int,
                ) == trials_sides(
                    self.weapons@,
                    save,
                    opponent,
                    stream,
                    old(source).drawn().len() as int,
                ),
            forall|stream: spec_fn(int) -> u32| #[trigger]
                agrees(stream, final(source).drawn()) ==> trials_of(
                    self.weapons@,
                    save,
                    opponent,
                    stream,
                    old(source).drawn().len() as int,
                ) == (r as int, final(source).drawn().len() as int),
    {
        let ghost start = source.drawn();
        let ghost given = source.given();
        let mut total: u32 = 0;
        let mut i: usize = 0;
        proof {
            lemma_sides_none(start);
        }
        while i < self.weapons.len()
            invariant
                i <= self.weapons.len(),
                self.can_simulate(save, opponent),
                total <= total_simulated(self.weapons@.take(i as int)),
                total <= total_max_damage(self.weapons@.take(i as int)),
                source.valid(),
                source.given() == given,
                extends(start, source.drawn()),
                forall|stream: spec_fn(int) -> u32| #[trigger]
                    agrees(stream, source.drawn()) ==> sides_from(
                        source.drawn(),
                        start.len() as int,
                    ) == trials_sides(
                        self.weapons@.take(i as int),
                        save,
                        opponent,
                        stream,
                        start.len() as int,
                    ),
                forall|stream: spec_fn(int) -> u32| #[trigger]
                    agrees(stream, source.drawn()) ==> trials_of(
                        self.weapons@.take(i as int),
                        save,
                        opponent,
                        stream,
                        start.len() as int,
                    ) == (total as int, source.drawn().len() as int),
            decreases self.weapons.len() - i,
        {
            proof {
                assert(self.weapons@.take(i + 1).drop_last() =~= self.weapons@.take(i as int));
                lemma_simulated_part(self.weapons@, i + 1);
            }
            let mut processor = SimulatedDamageProcessor::new(&self.weapons[i], save);
            if let Some(o) = opponent {
                processor.opponent(o);
            }
            let ghost before = source.drawn();
            let more = processor.simulate_damage_from(source);
            proof {
                lemma_sides_join(start.len() as int, before, source.drawn());
                assert forall|stream: spec_fn(int) -> u32| #[trigger]
                    agrees(stream, source.drawn()) implies sides_from(
                    source.drawn(),
                    start.len() as int,
                ) == trials_sides(
                    self.weapons@.take(i + 1),
                    save,
                    opponent,
                    stream,
                    start.len() as int,
                ) by {
                    lemma_agrees_before(stream, before, source.drawn());
                }
                assert forall|stream: spec_fn(int) -> u32| #[trigger]
                    agrees(stream, source.drawn()) implies trials_of(
                    self.weapons@.take(i + 1),
                    save,
                    opponent,
                    stream,
                    start.len() as int,
                ) == (total + more, source.drawn().len() as int) by {
                    lemma_agrees_before(stream, before, source.drawn());
                }
            }
            total = total + more;
            i = i + 1;
        }
        assert(self.weapons@.take(i as int) =~= self.weapons@);
        total
    }

    /// One trial: the damage of the attacks of all weapons, rolled with the random
    /// number generator of the thread.
    pub fn roll_damage(&self, save: u32, opponent: Option<&Opponent>) -> (r: u32)
        requires
            self.can_simulate(save, opponent),
        ensures
            r <= total_simulated(self.weapons@),
            r <= total_max_damage(self.weapons@),
            self.is_outcome(save, opponent, r as int),
    {
        let roller = DiceRoller::default();
        let mut source = Recorded::new(&roller);
        let damage = self.roll_damage_from(save, opponent, &mut source);
        proof {
            source.lemma_in_range();
            lemma_values_agree(source.drawn());
            let rolls = values_of(source.drawn());
            assert(shown_by(rolls, trials_sides(self.weapons@, save, opponent, stream_of(rolls), 0))
                && self.trial_on(save, opponent, rolls) == (damage as int, rolls.len() as int));
        }
        damage
    }

    /// The damage of one trial where the dice show the given rolls, and how many of the
    /// rolls were read; nothing where the rolls do not suffice.
    pub fn resolve_damage(&self, save: u32, opponent: Option<&Opponent>, rolls: &Vec<u32>) -> (r:
        Option<(u32, usize)>)
        requires
            self.can_simulate(save, opponent),
        ensures
            r is Some <==> self.trial_on(save, opponent, rolls@).1 <= rolls@.len(),
            r matches Some(dealt) ==> self.trial_on(save, opponent, rolls@) == (
                dealt.0 as int,
                dealt.1 as int,
            ),
            r matches Some(dealt) ==> dealt.0 <= total_max_damage(self.weapons@),
    {
        let mut script = Script::new(rolls);
        let damage = self.roll_damage_from(save, opponent, &mut script);
        proof {
            script.lemma_agrees();
        }
        match script.read() {
            Some(read) => Some((damage, read)),
            None => None,
        }
    }

    /// As many trials as asked for, counted by their damage: every damage that was
    /// counted is what a trial deals for some rolls of the dice.
    pub fn simulate_damage(
        &self,
        save: u32,
        opponent: Option<&Opponent>,
        num_simulations: u32,
    ) -> (r: UnitSimulationResults)
        requires
            self.can_simulate(save, opponent),
        ensures
            total_count(r.buckets@) == num_simulations,
            forall|damage: u32|
                r.buckets@.contains_key(damage) ==> damage <= total_max_damage(self.weapons@)
                    && r.buckets@[damage] >= 1,
            forall|damage: u32|
                r.buckets@.contains_key(damage) ==> self.is_outcome(save, opponent, damage as int),
    {
        let mut results = UnitSimulationResults::new();
        let mut i: u32 = 0;
        proof {
            lemma_count_empty(u32::MAX as int);
        }
        while i < num_simulations
            invariant
                i <= num_simulations,
                self.can_simulate(save, opponent),
                total_count(results.buckets@) == i,
                forall|damage: u32|
                    results.buckets@.contains_key(damage) ==> damage <= total_max_damage(
                        self.weapons@,
                    ) && results.buckets@[damage] >= 1,
                forall|damage: u32|
                    results.buckets@.contains_key(damage) ==> self.is_outcome(
                        save,
                        opponent,
                        damage as int,
                    ),
            decreases num_simulations - i,
        {
            let damage = self.roll_damage(save, opponent);
            proof {
                lemma_count_within(results.buckets@, damage as int, u32::MAX as int);
                lemma_count_once_more(results.buckets@, damage, u32::MAX as int);
            }
            results.incr(damage);
            i = i + 1;
        }
        results
    }
}

/// The sides of the dice that one trial of each of the given weapons throws, one weapon
/// after the other, read from the place `at` of the stream on.
pub open spec fn trials_sides(
    weapons: Seq<Weapon>,
    save: u32,
    opponent: Option<&Opponent>,
    stream: spec_fn(int) -> u32,
    at: int,
) -> Seq<u32>
    decreases weapons.len(),
{
    if weapons.len() == 0 {
        Seq::empty()
    } else {
        trials_sides(weapons.drop_last(), save, opponent, stream, at) + (SimulatedDamageProcessor {
            weapon: &weapons.last(),
            opponent,
            save,
        }).trial_sides(stream, trials_of(weapons.drop_last(), save, opponent, stream, at).1)
    }
}

/// One trial of each of the given weapons, one after the other, read from the place
/// `at` of the stream on: the damage of them all, and the place behind the rolls read.
pub open spec fn trials_of(
    weapons: Seq<Weapon>,
    save: u32,
    opponent: Option<&Opponent>,
    stream: spec_fn(int) -> u32,
    at: int,
) -> (int, int)
    decreases weapons.len(),
{
    if weapons.len() == 0 {
        (0, at)
    } else {
        let (damage, next) = trials_of(weapons.drop_last(), save, opponent, stream, at);
        let (more, end) = (SimulatedDamageProcessor {
            weapon: &weapons.last(),
            opponent,
            save,
        }).trial_of(stream, next);
        (damage + more, end)
    }
}

/// Where the averages of all weapons fit, those of the first of them do.
pub proof fn lemma_averages_fit_part(weapons: Seq<Weapon>, opponent: Option<&Opponent>, i: int)
    requires
        0 <= i <= weapons.len(),
        averages_fit(weapons, opponent),
    ensures
        averages_fit(weapons.take(i), opponent),
    decreases weapons.len() - i,
{
    if i < weapons.len() {
        assert(weapons.drop_last().take(i) =~= weapons.take(i));
        lemma_averages_fit_part(weapons.drop_last(), opponent, i);
    } else {
        assert(weapons.take(i) =~= weapons);
    }
}

/// Nothing was counted where no outcome was.
pub proof fn lemma_count_empty(up_to: int)
    ensures
        count_up_to(Map::<u32, u32>::empty(), up_to) == 0,
    decreases up_to + 1,
{
    if up_to >= 0 {
        lemma_count_empty(up_to - 1);
    }
}

/// The largest simulated damage of a part of the weapons is at most that of all, and
/// not below zero.
pub proof fn lemma_simulated_part(weapons: Seq<Weapon>, i: int)
    requires
        0 <= i <= weapons.len(),
    ensures
        0 <= total_simulated(weapons.take(i)) <= total_simulated(weapons),
    decreases weapons.len() - i,
{
    if i < weapons.len() {
        assert(weapons.take(i + 1).drop_last() =~= weapons.take(i));
        lemma_simulated_part(weapons, i + 1);
        lemma_simulated_floor(weapons.take(i));
        weapons[i].lemma_simulated_floor();
    } else {
        assert(weapons.take(i) =~= weapons);
        lemma_simulated_floor(weapons);
    }
}

/// No largest simulated damage is below zero.
pub proof fn lemma_simulated_floor(weapons: Seq<Weapon>)
    ensures
        0 <= total_simulated(weapons),
    decreases weapons.len(),
{
    if weapons.len() > 0 {
        lemma_simulated_floor(weapons.drop_last());
        weapons.last().lemma_simulated_floor();
    }
}

} // verus!
