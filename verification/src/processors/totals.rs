//! The largest values of a weapon, followed as far as 32 bits reach.
use super::max::either_way;
use super::capped::{
    cap_add, cap_larger, cap_mul, cap_wide, capped, larger, lemma_capped_add,
    lemma_capped_larger, lemma_capped_mul,
};
use crate::abilities::weapon::Ability;
use crate::abilities::{Characteristic, RollCharacteristic, ValueCharacteristic};
use crate::rollable::Rollable;
use crate::weapon::{
    added_mortals_max, bonus_max, exploding_max, leader_max, lemma_total_of_next, mortals_max,
    total_of, Weapon,
};
use vstd::prelude::*;

verus! {

/// The capped sum of two capped numbers.
pub(crate) fn add_capped(a: u64, b: u64, Ghost(x): Ghost<int>, Ghost(y): Ghost<int>) -> (r: u64)
    requires
        x >= 0,
        y >= 0,
        a == capped(x),
        b == capped(y),
    ensures
        r == capped(x + y),
{
    proof {
        lemma_capped_add(x, y);
    }
    cap_add(a, b)
}

/// The capped product of two capped numbers.
pub(crate) fn mul_capped(a: u64, b: u64, Ghost(x): Ghost<int>, Ghost(y): Ghost<int>) -> (r: u64)
    requires
        x >= 0,
        y >= 0,
        a == capped(x),
        b == capped(y),
    ensures
        r == capped(x * y),
        x * y >= 0,
{
    proof {
        lemma_capped_mul(x, y);
    }
    cap_mul(a, b)
}

/// The capped most of a roll and what follows it, from its capped parts.
pub(crate) fn capped_either_way(
    extra: u64,
    each: u64,
    all: u64,
    added: u64,
    Ghost(e): Ghost<int>,
    Ghost(v): Ghost<int>,
    Ghost(m): Ghost<int>,
    Ghost(a): Ghost<int>,
) -> (r: u64)
    requires
        e >= 0,
        v >= 0,
        m >= 0,
        a >= 0,
        extra == capped(e),
        each == capped(v),
        all == capped(m),
        added == capped(a),
    ensures
        r == capped(either_way(e, v, m, a)),
        either_way(e, v, m, a) >= 0,
{
    let in_place = add_capped(mul_capped(extra, each, Ghost(e), Ghost(v)), all, Ghost(e * v), Ghost(m));
    let more = add_capped(1, extra, Ghost(1), Ghost(e));
    let in_addition = add_capped(
        mul_capped(more, each, Ghost(1 + e), Ghost(v)),
        added,
        Ghost((1 + e) * v),
        Ghost(a),
    );
    proof {
        lemma_capped_larger(e * v + m, (1 + e) * v + a);
    }
    cap_larger(in_place, in_addition)
}

impl Weapon {
    pub fn capped_bonus(&self, characteristic: Characteristic) -> (r: u64)
        ensures
            r == capped(self.max_bonus_value(characteristic)),
            self.max_bonus_value(characteristic) >= 0,
    {
        let abilities = &self.abilities;
        let ghost tally = bonus_max(characteristic);
        let mut total: u64 = 0;
        let mut i: usize = 0;
        while i < abilities.len()
            invariant
                i <= abilities.len(),
                tally == bonus_max(characteristic),
                total == capped(total_of(abilities@.take(i as int), tally)),
                total_of(abilities@.take(i as int), tally) >= 0,
            decreases abilities.len() - i,
        {
            proof {
                lemma_total_of_next(abilities@, i as int, tally);
            }
            match &abilities[i] {
                Ability::Bonus(a) => {
                    if a.characteristic == characteristic {
                        total = add_capped(
                            total,
                            cap_wide(a.value.max_wide()),
                            Ghost(total_of(abilities@.take(i as int), tally)),
                            Ghost(a.value.max_value()),
                        );
                    }
                },
                _ => {},
            }
            i = i + 1;
        }
        assert(abilities@.take(i as int) =~= abilities@);
        total
    }

    pub fn capped_leader_extra_attacks(&self) -> (r: u64)
        ensures
            r == capped(self.max_leader_value()),
            self.max_leader_value() >= 0,
    {
        let abilities = &self.abilities;
        let ghost tally = leader_max();
        let mut total: u64 = 0;
        let mut i: usize = 0;
        while i < abilities.len()
            invariant
                i <= abilities.len(),
                tally == leader_max(),
                total == capped(total_of(abilities@.take(i as int), tally)),
                total_of(abilities@.take(i as int), tally) >= 0,
            decreases abilities.len() - i,
        {
            proof {
                lemma_total_of_next(abilities@, i as int, tally);
            }
            match &abilities[i] {
                Ability::LeaderExtraAttacks(a) => {
                    let extra = mul_capped(
                        a.models as u64,
                        cap_wide(a.value.max_wide()),
                        Ghost(a.models as int),
                        Ghost(a.value.max_value()),
                    );
                    total = add_capped(
                        total,
                        extra,
                        Ghost(total_of(abilities@.take(i as int), tally)),
                        Ghost(a.models * a.value.max_value()),
                    );
                },
                _ => {},
            }
            i = i + 1;
        }
        assert(abilities@.take(i as int) =~= abilities@);
        total
    }

    pub fn capped_exploding(&self, phase: RollCharacteristic) -> (r: u64)
        ensures
            r == capped(self.max_exploding_value(phase)),
            self.max_exploding_value(phase) >= 0,
    {
        let abilities = &self.abilities;
        let ghost tally = exploding_max(phase);
        let mut total: u64 = 0;
        let mut i: usize = 0;
        while i < abilities.len()
            invariant
                i <= abilities.len(),
                tally == exploding_max(phase),
                total == capped(total_of(abilities@.take(i as int), tally)),
                total_of(abilities@.take(i as int), tally) >= 0,
            decreases abilities.len() - i,
        {
            proof {
                lemma_total_of_next(abilities@, i as int, tally);
            }
            match &abilities[i] {
                Ability::Exploding(a) => {
                    if a.characteristic == phase {
                        total = add_capped(
                            total,
                            cap_wide(a.extra.max_wide()),
                            Ghost(total_of(abilities@.take(i as int), tally)),
                            Ghost(a.extra.max_value()),
                        );
                    }
                },
                _ => {},
            }
            i = i + 1;
        }
        assert(abilities@.take(i as int) =~= abilities@);
        total
    }

    pub fn capped_mortal_wounds(&self, phase: RollCharacteristic) -> (r: (u64, u64))
        ensures
            r.0 == capped(self.max_mortals_value(phase)),
            r.1 == capped(self.max_added_mortals_value(phase)),
            self.max_mortals_value(phase) >= 0,
            self.max_added_mortals_value(phase) >= 0,
    {
        let abilities = &self.abilities;
        let ghost tally = mortals_max(phase);
        let ghost added_tally = added_mortals_max(phase);
        let mut total: u64 = 0;
        let mut added: u64 = 0;
        let mut i: usize = 0;
        while i < abilities.len()
            invariant
                i <= abilities.len(),
                tally == mortals_max(phase),
                added_tally == added_mortals_max(phase),
                total == capped(total_of(abilities@.take(i as int), tally)),
                added == capped(total_of(abilities@.take(i as int), added_tally)),
                total_of(abilities@.take(i as int), tally) >= 0,
                total_of(abilities@.take(i as int), added_tally) >= 0,
            decreases abilities.len() - i,
        {
            proof {
                lemma_total_of_next(abilities@, i as int, tally);
                lemma_total_of_next(abilities@, i as int, added_tally);
            }
            match &abilities[i] {
                Ability::MortalWounds(a) => {
                    if a.characteristic == phase {
                        let mortals = cap_wide(a.mortals.max_wide());
                        total = add_capped(
                            total,
                            mortals,
                            Ghost(total_of(abilities@.take(i as int), tally)),
                            Ghost(a.mortals.max_value()),
                        );
                        if a.in_addition {
                            added = add_capped(
                                added,
                                mortals,
                                Ghost(total_of(abilities@.take(i as int), added_tally)),
                                Ghost(a.mortals.max_value()),
                            );
                        }
                    }
                },
                _ => {},
            }
            i = i + 1;
        }
        assert(abilities@.take(i as int) =~= abilities@);
        (total, added)
    }

    /// The most attacks, as far as they are followed.
    pub fn capped_attacks(&self) -> (r: u64)
        ensures
            r == capped(self.max_attacks_value()),
            self.max_attacks_value() >= 0,
    {
        let ghost attack_bonus = self.max_bonus_value(
            Characteristic::Value(ValueCharacteristic::Attacks),
        );
        let per_model = add_capped(
            cap_wide(self.attacks.max_wide()),
            self.capped_bonus(Characteristic::Value(ValueCharacteristic::Attacks)),
            Ghost(self.attacks.max_value()),
            Ghost(attack_bonus),
        );
        let model_attacks = mul_capped(
            self.models as u64,
            per_model,
            Ghost(self.models as int),
            Ghost(self.attacks.max_value() + attack_bonus),
        );
        add_capped(
            model_attacks,
            self.capped_leader_extra_attacks(),
            Ghost(self.models * (self.attacks.max_value() + attack_bonus)),
            Ghost(self.max_leader_value()),
        )
    }

    /// The most damage of one wound, as far as it is followed.
    pub fn capped_wound_damage(&self) -> (r: u64)
        ensures
            r == capped(self.max_wound_damage_value()),
            self.max_wound_damage_value() >= 0,
    {
        add_capped(
            cap_wide(self.damage.max_wide()),
            self.capped_bonus(Characteristic::Value(ValueCharacteristic::Damage)),
            Ghost(self.damage.max_value()),
            Ghost(self.max_bonus_value(Characteristic::Value(ValueCharacteristic::Damage))),
        )
    }

    /// The most hits or wounds of one roll, as far as they are followed.
    pub fn capped_results(&self, phase: RollCharacteristic) -> (r: u64)
        ensures
            r == capped(self.max_results_value(phase)),
            self.max_results_value(phase) >= 1,
    {
        add_capped(
            1,
            self.capped_exploding(phase),
            Ghost(1),
            Ghost(self.max_exploding_value(phase)),
        )
    }

    /// The most wounds of one attack, as far as they are followed.
    pub fn capped_attack_wounds(&self) -> (r: u64)
        ensures
            r == capped(self.max_attack_wounds_value()),
            self.max_attack_wounds_value() >= 0,
    {
        mul_capped(
            self.capped_results(RollCharacteristic::Hit),
            self.capped_results(RollCharacteristic::Wound),
            Ghost(self.max_results_value(RollCharacteristic::Hit)),
            Ghost(self.max_results_value(RollCharacteristic::Wound)),
        )
    }

    /// The most damage of one attack, as far as it is followed.
    pub fn capped_attack_damage(&self) -> (r: u64)
        ensures
            r == capped(self.max_attack_damage_value()),
            self.max_attack_damage_value() >= 0,
    {
        let hit = RollCharacteristic::Hit;
        let wound = RollCharacteristic::Wound;
        let (hit_mortals, _) = self.capped_mortal_wounds(hit);
        let (wound_mortals, _) = self.capped_mortal_wounds(wound);
        let later_mortals = mul_capped(
            self.capped_results(hit),
            wound_mortals,
            Ghost(self.max_results_value(hit)),
            Ghost(self.max_mortals_value(wound)),
        );
        let all_mortals = add_capped(
            hit_mortals,
            later_mortals,
            Ghost(self.max_mortals_value(hit)),
            Ghost(self.max_results_value(hit) * self.max_mortals_value(wound)),
        );
        let all_wound_damage = mul_capped(
            self.capped_attack_wounds(),
            self.capped_wound_damage(),
            Ghost(self.max_attack_wounds_value()),
            Ghost(self.max_wound_damage_value()),
        );
        add_capped(
            all_mortals,
            all_wound_damage,
            Ghost(
                self.max_mortals_value(hit) + self.max_results_value(hit)
                    * self.max_mortals_value(wound),
            ),
            Ghost(self.max_attack_wounds_value() * self.max_wound_damage_value()),
        )
    }

    /// The most damage of all attacks together, as far as it is followed.
    pub fn capped_simulated(&self) -> (r: u64)
        ensures
            r == capped(self.max_simulated_value()),
            self.max_simulated_value() >= 0,
    {
        mul_capped(
            self.capped_attacks(),
            self.capped_attack_damage(),
            Ghost(self.max_attacks_value()),
            Ghost(self.max_attack_damage_value()),
        )
    }

    /// The most damage of a hit, as far as it is followed.
    pub fn capped_hit(&self) -> (r: u64)
        ensures
            r == capped(self.max_hit_value()),
            self.max_hit_value() >= 0,
    {
        let wound = RollCharacteristic::Wound;
        let (all, added) = self.capped_mortal_wounds(wound);
        capped_either_way(
            self.capped_exploding(wound),
            self.capped_wound_damage(),
            all,
            added,
            Ghost(self.max_exploding_value(wound)),
            Ghost(self.max_wound_damage_value()),
            Ghost(self.max_mortals_value(wound)),
            Ghost(self.max_added_mortals_value(wound)),
        )
    }

    /// The most damage of an attack, as far as it is followed.
    pub fn capped_attack(&self) -> (r: u64)
        ensures
            r == capped(self.max_attack_value()),
            self.max_attack_value() >= 0,
    {
        let hit = RollCharacteristic::Hit;
        let (all, added) = self.capped_mortal_wounds(hit);
        capped_either_way(
            self.capped_exploding(hit),
            self.capped_hit(),
            all,
            added,
            Ghost(self.max_exploding_value(hit)),
            Ghost(self.max_hit_value()),
            Ghost(self.max_mortals_value(hit)),
            Ghost(self.max_added_mortals_value(hit)),
        )
    }

    /// The most damage of all attacks made one by one, as far as it is followed.
    pub fn capped_trial(&self) -> (r: u64)
        ensures
            r == capped(self.max_trial_value()),
            self.max_trial_value() >= 0,
    {
        mul_capped(
            self.capped_attacks(),
            self.capped_attack(),
            Ghost(self.max_attacks_value()),
            Ghost(self.max_attack_value()),
        )
    }

    /// The largest damage of the weapon, as far as it is followed.
    pub fn capped_max_damage(&self) -> (r: u64)
        ensures
            r == capped(self.max_damage_value()),
            self.max_damage_value() >= 0,
    {
        proof {
            lemma_capped_larger(self.max_pooled_value(), self.max_trial_value());
        }
        cap_larger(self.capped_pooled(), self.capped_trial())
    }

    /// The largest damage where every roll deals all it can, as far as it is followed.
    pub fn capped_pooled(&self) -> (r: u64)
        ensures
            r == capped(self.max_pooled_value()),
            self.max_pooled_value() >= 0,
    {
        let ghost w = self;
        let ghost exploding_hits = w.max_exploding_value(RollCharacteristic::Hit);
        let ghost exploding_wounds = w.max_exploding_value(RollCharacteristic::Wound);
        let ghost hit_rolls_value = w.max_hit_rolls_value();
        let ghost wound_rolls_value = w.max_wound_rolls_value();

        let attacks = self.capped_attacks();
        let extra_hits = mul_capped(
            attacks,
            self.capped_exploding(RollCharacteristic::Hit),
            Ghost(w.max_attacks_value()),
            Ghost(exploding_hits),
        );
        let hit_rolls = add_capped(
            attacks,
            extra_hits,
            Ghost(w.max_attacks_value()),
            Ghost(w.max_attacks_value() * exploding_hits),
        );
        let (hit_mortal_sum, hit_added_sum) = self.capped_mortal_wounds(RollCharacteristic::Hit);
        let hit_mortals = mul_capped(
            hit_rolls,
            hit_mortal_sum,
            Ghost(hit_rolls_value),
            Ghost(w.max_mortals_value(RollCharacteristic::Hit)),
        );
        let hit_added = mul_capped(
            hit_rolls,
            hit_added_sum,
            Ghost(hit_rolls_value),
            Ghost(w.max_added_mortals_value(RollCharacteristic::Hit)),
        );

        let extra_wounds = mul_capped(
            hit_rolls,
            self.capped_exploding(RollCharacteristic::Wound),
            Ghost(hit_rolls_value),
            Ghost(exploding_wounds),
        );
        let wound_rolls = add_capped(
            hit_rolls,
            extra_wounds,
            Ghost(hit_rolls_value),
            Ghost(hit_rolls_value * exploding_wounds),
        );
        let (wound_mortal_sum, wound_added_sum) = self.capped_mortal_wounds(
            RollCharacteristic::Wound,
        );
        let wound_mortals = mul_capped(
            wound_rolls,
            wound_mortal_sum,
            Ghost(wound_rolls_value),
            Ghost(w.max_mortals_value(RollCharacteristic::Wound)),
        );
        let wound_added = mul_capped(
            wound_rolls,
            wound_added_sum,
            Ghost(wound_rolls_value),
            Ghost(w.max_added_mortals_value(RollCharacteristic::Wound)),
        );

        let damage_per_wound = self.capped_wound_damage();
        let wound_damage = mul_capped(
            wound_rolls,
            damage_per_wound,
            Ghost(wound_rolls_value),
            Ghost(w.max_wound_damage_value()),
        );
        let with_hit_mortals = add_capped(
            wound_damage,
            hit_added,
            Ghost(wound_rolls_value * w.max_wound_damage_value()),
            Ghost(hit_rolls_value * w.max_added_mortals_value(RollCharacteristic::Hit)),
        );
        let damage = add_capped(
            with_hit_mortals,
            wound_added,
            Ghost(
                wound_rolls_value * w.max_wound_damage_value() + hit_rolls_value
                    * w.max_added_mortals_value(RollCharacteristic::Hit),
            ),
            Ghost(wound_rolls_value * w.max_added_mortals_value(RollCharacteristic::Wound)),
        );
        proof {
            let mortals = larger(
                hit_rolls_value * w.max_mortals_value(RollCharacteristic::Hit),
                wound_rolls_value * w.max_mortals_value(RollCharacteristic::Wound),
            );
            lemma_capped_larger(
                hit_rolls_value * w.max_mortals_value(RollCharacteristic::Hit),
                wound_rolls_value * w.max_mortals_value(RollCharacteristic::Wound),
            );
            lemma_capped_larger(
                wound_rolls_value * w.max_wound_damage_value() + hit_rolls_value
                    * w.max_added_mortals_value(RollCharacteristic::Hit) + wound_rolls_value
                    * w.max_added_mortals_value(RollCharacteristic::Wound),
                mortals,
            );
        }
        cap_larger(damage, cap_larger(hit_mortals, wound_mortals))
    }
}

} // verus!
