//! A weapon profile and its abilities.
use crate::abilities::weapon::{Ability, Reroll};
use crate::abilities::{Characteristic, RollCharacteristic, ValueCharacteristic};
use crate::rollable::{DiceNotation, Rollable};
use vstd::prelude::*;

verus! {

/// A weapon profile: the models that bear it, its characteristics and its abilities.
#[derive(Debug, Clone, PartialEq, Eq)]
pub struct Weapon {
    /// The number of models that attack with the weapon.
    pub models: u32,
    /// The attacks of each model.
    pub attacks: DiceNotation,
    /// The roll needed to hit.
    pub to_hit: u32,
    /// The roll needed to wound.
    pub to_wound: u32,
    /// How much the weapon worsens the save of its target.
    pub rend: u32,
    /// The damage of each unsaved wound.
    pub damage: DiceNotation,
    pub abilities: Vec<Ability>,
}

/// Whether an ability allows rolls for the given characteristic to be rolled again.
pub open spec fn is_reroll_for(ability: Ability, phase: RollCharacteristic) -> bool {
    ability matches Ability::Reroll(a) && a.characteristic == phase
}

/// The rank of the rerolls that an ability allows for the given characteristic, or -1
/// where it allows none.
pub open spec fn reroll_rank_for(ability: Ability, phase: RollCharacteristic) -> int {
    match ability {
        Ability::Reroll(a) if a.characteristic == phase => a.reroll_type.rank(),
        _ => -1,
    }
}

/// The sum of what a tally counts for each of the abilities.
pub open spec fn total_of(abilities: Seq<Ability>, tally: spec_fn(Ability) -> int) -> int
    decreases abilities.len(),
{
    if abilities.len() == 0 {
        0
    } else {
        total_of(abilities.drop_last(), tally) + tally(abilities.last())
    }
}

/// The largest value of a bonus to the given characteristic; nothing for other abilities.
pub open spec fn bonus_max(characteristic: Characteristic) -> spec_fn(Ability) -> int {
    |ability: Ability|
        match ability {
            Ability::Bonus(a) if a.characteristic == characteristic => a.value.max_value(),
            _ => 0,
        }
}

/// The most extra attacks that the leaders of an ability make.
pub open spec fn leader_max() -> spec_fn(Ability) -> int {
    |ability: Ability|
        match ability {
            Ability::LeaderExtraAttacks(a) => a.models * a.value.max_value(),
            _ => 0,
        }
}

/// The most extra hits or wounds of an exploding ability for the given phase.
pub open spec fn exploding_max(phase: RollCharacteristic) -> spec_fn(Ability) -> int {
    |ability: Ability|
        match ability {
            Ability::Exploding(a) if a.characteristic == phase => a.extra.max_value(),
            _ => 0,
        }
}

/// The most mortal wounds of an ability for the given phase.
pub open spec fn mortals_max(phase: RollCharacteristic) -> spec_fn(Ability) -> int {
    |ability: Ability|
        match ability {
            Ability::MortalWounds(a) if a.characteristic == phase => a.mortals.max_value(),
            _ => 0,
        }
}

/// The most mortal wounds of an ability for the given phase that come in addition to
/// the hit or wound.
pub open spec fn added_mortals_max(phase: RollCharacteristic) -> spec_fn(Ability) -> int {
    |ability: Ability|
        match ability {
            Ability::MortalWounds(a) if a.characteristic == phase && a.in_addition =>
                a.mortals.max_value(),
            _ => 0,
        }
}

/// The highest rank among the rerolls that the given abilities allow for a
/// characteristic, or -1 where none allows any.
pub open spec fn highest_reroll(abilities: Seq<Ability>, phase: RollCharacteristic) -> int
    decreases abilities.len(),
{
    if abilities.len() == 0 {
        -1
    } else if reroll_rank_for(abilities.last(), phase) > highest_reroll(
        abilities.drop_last(),
        phase,
    ) {
        reroll_rank_for(abilities.last(), phase)
    } else {
        highest_reroll(abilities.drop_last(), phase)
    }
}

/// Whether every die of an ability has at least one side.
pub open spec fn ability_has_sides(ability: Ability) -> bool {
    match ability {
        Ability::Reroll(_) => true,
        Ability::Bonus(a) => a.value.has_sides(),
        Ability::LeaderExtraAttacks(a) => a.value.has_sides(),
        Ability::Exploding(a) => a.extra.has_sides(),
        Ability::MortalWounds(a) => a.mortals.has_sides(),
    }
}

/// A total grows by what the tally counts for the next ability.
pub proof fn lemma_total_of_next(abilities: Seq<Ability>, i: int, tally: spec_fn(Ability) -> int)
    requires
        0 <= i < abilities.len(),
    ensures
        total_of(abilities.take(i + 1), tally) == total_of(abilities.take(i), tally) + tally(
            abilities[i],
        ),
{
    assert(abilities.take(i + 1).drop_last() =~= abilities.take(i));
}

/// With a tally that counts nothing below zero, the total of a part is at most the
/// total of the whole, and neither is below zero.
pub proof fn lemma_total_of_part(abilities: Seq<Ability>, i: int, tally: spec_fn(Ability) -> int)
    requires
        0 <= i <= abilities.len(),
        forall|a: Ability| #[trigger] tally(a) >= 0,
    ensures
        0 <= total_of(abilities.take(i), tally) <= total_of(abilities, tally),
    decreases abilities.len() - i,
{
    if i < abilities.len() {
        lemma_total_of_next(abilities, i, tally);
        lemma_total_of_part(abilities, i + 1, tally);
        lemma_total_of_floor(abilities.take(i), tally);
    } else {
        assert(abilities.take(i) =~= abilities);
        lemma_total_of_floor(abilities, tally);
    }
}

/// Where one tally counts no more than another for any ability, its total is no more.
pub proof fn lemma_total_of_order(
    abilities: Seq<Ability>,
    low: spec_fn(Ability) -> int,
    high: spec_fn(Ability) -> int,
)
    requires
        forall|a: Ability| #[trigger] low(a) <= #[trigger] high(a),
    ensures
        total_of(abilities, low) <= total_of(abilities, high),
    decreases abilities.len(),
{
    if abilities.len() > 0 {
        lemma_total_of_order(abilities.drop_last(), low, high);
    }
}

/// No total of a tally that counts nothing below zero is below zero.
pub proof fn lemma_total_of_floor(abilities: Seq<Ability>, tally: spec_fn(Ability) -> int)
    requires
        forall|a: Ability| #[trigger] tally(a) >= 0,
    ensures
        0 <= total_of(abilities, tally),
    decreases abilities.len(),
{
    if abilities.len() > 0 {
        lemma_total_of_floor(abilities.drop_last(), tally);
    }
}

impl Weapon {
    pub fn new(
        models: u32,
        attacks: DiceNotation,
        to_hit: u32,
        to_wound: u32,
        rend: u32,
        damage: DiceNotation,
        abilities: Vec<Ability>,
    ) -> (r: Self)
        ensures
            r == (Weapon { models, attacks, to_hit, to_wound, rend, damage, abilities }),
    {
        Self { models, attacks, to_hit, to_wound, rend, damage, abilities }
    }

    /// Every die of the weapon and of its abilities has at least one side, so that all of
    /// them can be rolled.
    pub open spec fn has_sides(&self) -> bool {
        &&& self.attacks.has_sides()
        &&& self.damage.has_sides()
        &&& forall|i: int|
            0 <= i < self.abilities@.len() ==> ability_has_sides(#[trigger] self.abilities@[i])
    }

    /// Whether every die of the weapon and of its abilities has at least one side.
    pub fn can_be_rolled(&self) -> (r: bool)
        ensures
            r == self.has_sides(),
    {
        if !self.attacks.can_be_rolled() || !self.damage.can_be_rolled() {
            return false;
        }
        let mut i: usize = 0;
        while i < self.abilities.len()
            invariant
                i <= self.abilities.len(),
                forall|j: int| 0 <= j < i ==> ability_has_sides(#[trigger] self.abilities@[j]),
            decreases self.abilities.len() - i,
        {
            let rolled = match &self.abilities[i] {
                Ability::Reroll(_) => true,
                Ability::Bonus(a) => a.value.can_be_rolled(),
                Ability::LeaderExtraAttacks(a) => a.value.can_be_rolled(),
                Ability::Exploding(a) => a.extra.can_be_rolled(),
                Ability::MortalWounds(a) => a.mortals.can_be_rolled(),
            };
            if !rolled {
                return false;
            }
            i = i + 1;
        }
        true
    }

    /// The largest sum of the bonuses to a characteristic.
    pub open spec fn max_bonus_value(&self, characteristic: Characteristic) -> int {
        total_of(self.abilities@, bonus_max(characteristic))
    }

    /// The most extra attacks that leaders make.
    pub open spec fn max_leader_value(&self) -> int {
        total_of(self.abilities@, leader_max())
    }

    /// The most extra hits or wounds that one roll gives.
    pub open spec fn max_exploding_value(&self, phase: RollCharacteristic) -> int {
        total_of(self.abilities@, exploding_max(phase))
    }

    /// The most mortal wounds that one roll deals.
    pub open spec fn max_mortals_value(&self, phase: RollCharacteristic) -> int {
        total_of(self.abilities@, mortals_max(phase))
    }

    /// The most mortal wounds that one roll deals in addition to its hit or wound.
    pub open spec fn max_added_mortals_value(&self, phase: RollCharacteristic) -> int {
        total_of(self.abilities@, added_mortals_max(phase))
    }

    /// The most attacks: those of every model, with the bonuses, and those of leaders.
    pub open spec fn max_attacks_value(&self) -> int {
        self.models * (self.attacks.max_value() + self.max_bonus_value(
            Characteristic::Value(ValueCharacteristic::Attacks),
        )) + self.max_leader_value()
    }

    /// The most hit rolls that count: every attack, and the extra hits of each.
    pub open spec fn max_hit_rolls_value(&self) -> int {
        self.max_attacks_value() + self.max_attacks_value() * self.max_exploding_value(
            RollCharacteristic::Hit,
        )
    }

    /// The most wound rolls that count: every hit, and the extra wounds of each.
    pub open spec fn max_wound_rolls_value(&self) -> int {
        self.max_hit_rolls_value() + self.max_hit_rolls_value() * self.max_exploding_value(
            RollCharacteristic::Wound,
        )
    }

    /// The most damage of one wound.
    pub open spec fn max_wound_damage_value(&self) -> int {
        self.damage.max_value() + self.max_bonus_value(
            Characteristic::Value(ValueCharacteristic::Damage),
        )
    }

    /// The most hits or wounds of one roll: the roll itself and its extra ones.
    pub open spec fn max_results_value(&self, phase: RollCharacteristic) -> int {
        1 + self.max_exploding_value(phase)
    }

    /// The most wounds of one attack.
    pub open spec fn max_attack_wounds_value(&self) -> int {
        self.max_results_value(RollCharacteristic::Hit) * self.max_results_value(
            RollCharacteristic::Wound,
        )
    }

    /// The most damage of one attack: the mortal wounds of the roll to hit, those of the
    /// roll to wound of each hit, and the damage of each wound.
    pub open spec fn max_attack_damage_value(&self) -> int {
        self.max_mortals_value(RollCharacteristic::Hit) + self.max_results_value(
            RollCharacteristic::Hit,
        ) * self.max_mortals_value(RollCharacteristic::Wound) + self.max_attack_wounds_value()
            * self.max_wound_damage_value()
    }

    /// The most damage of all attacks together.
    pub open spec fn max_simulated_value(&self) -> int {
        self.max_attacks_value() * self.max_attack_damage_value()
    }

    /// None of the largest values of a weapon is below zero.
    pub proof fn lemma_totals_floor(&self)
        ensures
            forall|c: Characteristic| 0 <= #[trigger] self.max_bonus_value(c),
            forall|p: RollCharacteristic| 0 <= #[trigger] self.max_exploding_value(p),
            forall|p: RollCharacteristic| 0 <= #[trigger] self.max_mortals_value(p),
            forall|p: RollCharacteristic| 0 <= #[trigger] self.max_added_mortals_value(p),
            0 <= self.max_leader_value(),
            0 <= self.attacks.max_value(),
            0 <= self.damage.max_value(),
    {
        assert forall|c: Characteristic| 0 <= #[trigger] self.max_bonus_value(c) by {
            lemma_total_of_floor(self.abilities@, bonus_max(c));
        }
        assert forall|p: RollCharacteristic| 0 <= #[trigger] self.max_exploding_value(p) by {
            lemma_total_of_floor(self.abilities@, exploding_max(p));
        }
        assert forall|p: RollCharacteristic| 0 <= #[trigger] self.max_mortals_value(p) by {
            lemma_total_of_floor(self.abilities@, mortals_max(p));
        }
        assert forall|p: RollCharacteristic| 0 <= #[trigger] self.max_added_mortals_value(p) by {
            lemma_total_of_floor(self.abilities@, added_mortals_max(p));
        }
        assert(0 <= self.max_leader_value()) by {
            assert forall|a: Ability| #[trigger] leader_max()(a) >= 0 by {
                match a {
                    Ability::LeaderExtraAttacks(l) => {
                        assert(l.models * l.value.max_value() >= 0) by (nonlinear_arith)
                            requires
                                l.models >= 0,
                                l.value.max_value() >= 0,
                        ;
                    },
                    _ => {},
                }
            }
            lemma_total_of_floor(self.abilities@, leader_max());
        }
    }

    /// The largest simulated damage is not below zero.
    pub proof fn lemma_simulated_floor(&self)
        ensures
            0 <= self.max_simulated_value(),
    {
        self.lemma_totals_floor();
        let hit = RollCharacteristic::Hit;
        let wound = RollCharacteristic::Wound;
        assert(self.max_results_value(hit) * self.max_mortals_value(wound) >= 0)
            by (nonlinear_arith)
            requires
                self.max_results_value(hit) >= 0,
                self.max_mortals_value(wound) >= 0,
        ;
        assert(self.max_attack_wounds_value() >= 0) by (nonlinear_arith)
            requires
                self.max_attack_wounds_value() == self.max_results_value(hit)
                    * self.max_results_value(wound),
                self.max_results_value(hit) >= 0,
                self.max_results_value(wound) >= 0,
        ;
        assert(self.max_attack_wounds_value() * self.max_wound_damage_value() >= 0)
            by (nonlinear_arith)
            requires
                self.max_attack_wounds_value() >= 0,
                self.max_wound_damage_value() >= 0,
        ;
        assert(self.models * (self.attacks.max_value() + self.max_bonus_value(
            Characteristic::Value(ValueCharacteristic::Attacks),
        )) >= 0) by (nonlinear_arith)
            requires
                self.models >= 0,
                self.attacks.max_value() + self.max_bonus_value(
                    Characteristic::Value(ValueCharacteristic::Attacks),
                ) >= 0,
        ;
        assert(self.max_attacks_value() * self.max_attack_damage_value() >= 0)
            by (nonlinear_arith)
            requires
                self.max_attacks_value() >= 0,
                self.max_attack_damage_value() >= 0,
        ;
    }

    /// The roll needed in the given phase.
    pub open spec fn needed(&self, phase: RollCharacteristic) -> u32 {
        match phase {
            RollCharacteristic::Hit => self.to_hit,
            RollCharacteristic::Wound => self.to_wound,
        }
    }

    /// The reroll ability that applies to a characteristic: of all that the weapon has
    /// for it, the most permissive.
    pub fn reroll_ability(&self, phase: RollCharacteristic) -> (r: Option<&Reroll>)
        ensures
            r is Some <==> exists|i: int|
                0 <= i < self.abilities@.len() && is_reroll_for(
                    #[trigger] self.abilities@[i],
                    phase,
                ),
            r is Some ==> r.unwrap().characteristic == phase && self.abilities@.contains(
                Ability::Reroll(*r.unwrap()),
            ),
            r is Some ==> forall|i: int|
                0 <= i < self.abilities@.len() ==> reroll_rank_for(
                    #[trigger] self.abilities@[i],
                    phase,
                ) <= r.unwrap().reroll_type.rank(),
            highest_reroll(self.abilities@, phase) == (match r {
                Some(a) => a.reroll_type.rank(),
                None => -1,
            }),
    {
        let mut best: Option<&Reroll> = None;
        let mut i: usize = 0;
        while i < self.abilities.len()
            invariant
                i <= self.abilities.len(),
                best is Some <==> exists|j: int|
                    0 <= j < i && is_reroll_for(#[trigger] self.abilities@[j], phase),
                best is Some ==> best.unwrap().characteristic == phase
                    && self.abilities@.contains(Ability::Reroll(*best.unwrap())),
                best is Some ==> forall|j: int|
                    0 <= j < i ==> reroll_rank_for(#[trigger] self.abilities@[j], phase)
                        <= best.unwrap().reroll_type.rank(),
                highest_reroll(self.abilities@.take(i as int), phase) == (match best {
                    Some(a) => a.reroll_type.rank(),
                    None => -1,
                }),
            decreases self.abilities.len() - i,
        {
            assert(self.abilities@.take(i + 1).drop_last() =~= self.abilities@.take(i as int));
            match &self.abilities[i] {
                Ability::Reroll(a) => {
                    if a.characteristic == phase {
                        assert(is_reroll_for(self.abilities@[i as int], phase));
                        let better = match best {
                            Some(b) => a.reroll_type.outranks(b.reroll_type),
                            None => true,
                        };
                        if better {
                            best = Some(a);
                        }
                    }
                },
                _ => {},
            }
            i = i + 1;
        }
        assert(self.abilities@.take(i as int) =~= self.abilities@);
        best
    }
}

} // verus!
