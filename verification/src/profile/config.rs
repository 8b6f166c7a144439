//! Profiles as they are written down: plain characteristics and lists of abilities.
use super::characteristics::{fits_i16, RerollType};
use super::target::{Save, Target};
use super::weapon::{Attacks, Damage, Hit, Rend, Weapon, Wound};
use vstd::prelude::*;
use vstd::std_specs::convert::FromSpecImpl;

verus! {

/// The characteristics that a bonus can be given to.
#[derive(Debug, Copy, Clone, Eq, PartialEq, Structural)]
pub enum ValueCharacteristic {
    Attacks,
    Hit,
    Wound,
    Rend,
    Damage,
}

/// The characteristics that are rolled for.
#[derive(Debug, Copy, Clone, Eq, PartialEq, Structural)]
pub enum RollCharacteristic {
    Hit,
    Wound,
}

/// The plain characteristics of a weapon.
#[derive(Debug, Copy, Clone, Eq, PartialEq, Structural)]
pub struct Characteristics {
    pub attack: u8,
    pub hit: u8,
    pub wound: u8,
    pub rend: u8,
    pub damage: u8,
}

/// An amount that is added to a characteristic.
#[derive(Debug, Copy, Clone, Eq, PartialEq, Structural)]
pub struct BonusAbility {
    pub to: ValueCharacteristic,
    pub amount: i16,
}

/// Rerolls for a characteristic.
#[derive(Debug, Copy, Clone, Eq, PartialEq, Structural)]
pub struct RerollAbility {
    pub to: RollCharacteristic,
    pub reroll_type: RerollType,
}

/// Extra hits or wounds for a characteristic.
#[derive(Debug, Copy, Clone, Eq, PartialEq, Structural)]
pub struct ExplodingAbility {
    pub to: RollCharacteristic,
    pub on: u8,
    pub unmodified: bool,
    pub extra: u8,
}

impl From<ExplodingAbility> for super::characteristics::ExplodingAbility {
    fn from(value: ExplodingAbility) -> (r: Self) {
        Self { on: value.on, unmodified: value.unmodified, extra: value.extra }
    }
}

impl FromSpecImpl<ExplodingAbility> for super::characteristics::ExplodingAbility {
    open spec fn obeys_from_spec() -> bool {
        true
    }

    open spec fn from_spec(value: ExplodingAbility) -> Self {
        super::characteristics::ExplodingAbility {
            on: value.on,
            unmodified: value.unmodified,
            extra: value.extra,
        }
    }
}

/// The abilities of a weapon, by kind.
#[derive(Debug)]
pub struct Abilities {
    pub bonus: Vec<BonusAbility>,
    pub reroll: Vec<RerollAbility>,
    pub exploding: Vec<ExplodingAbility>,
}

impl Default for Abilities {
    fn default() -> (r: Self)
        ensures
            r.bonus@.len() == 0,
            r.reroll@.len() == 0,
            r.exploding@.len() == 0,
    {
        Self { bonus: Vec::new(), reroll: Vec::new(), exploding: Vec::new() }
    }
}

/// A weapon as it is written down.
#[derive(Debug)]
pub struct WeaponConfig {
    pub characteristics: Characteristics,
    pub abilities: Abilities,
}

/// The sum of the bonuses to a characteristic.
pub open spec fn total_bonus(bonuses: Seq<BonusAbility>, to: ValueCharacteristic) -> int
    decreases bonuses.len(),
{
    if bonuses.len() == 0 {
        0
    } else {
        total_bonus(bonuses.drop_last(), to) + if bonuses.last().to == to {
            bonuses.last().amount as int
        } else {
            0
        }
    }
}

/// The highest rank among the rerolls for a characteristic, or -1 where there are none.
pub open spec fn best_reroll(rerolls: Seq<RerollAbility>, to: RollCharacteristic) -> int
    decreases rerolls.len(),
{
    if rerolls.len() == 0 {
        -1
    } else {
        let before = best_reroll(rerolls.drop_last(), to);
        if rerolls.last().to == to && rerolls.last().reroll_type.rank() > before {
            rerolls.last().reroll_type.rank()
        } else {
            before
        }
    }
}

/// The first exploding ability for a characteristic.
pub open spec fn first_exploding(
    abilities: Seq<ExplodingAbility>,
    to: RollCharacteristic,
) -> Option<ExplodingAbility>
    decreases abilities.len(),
{
    if abilities.len() == 0 {
        None
    } else if abilities[0].to == to {
        Some(abilities[0])
    } else {
        first_exploding(abilities.drop_first(), to)
    }
}

/// The bonuses of a part of a list are within the bounds that their number sets.
proof fn lemma_total_bonus_bounds(bonuses: Seq<BonusAbility>, to: ValueCharacteristic)
    ensures
        -0x8000 * bonuses.len() <= total_bonus(bonuses, to) <= 0x7FFF * bonuses.len(),
    decreases bonuses.len(),
{
    if bonuses.len() > 0 {
        lemma_total_bonus_bounds(bonuses.drop_last(), to);
    }
}

/// Behind an ability for another characteristic, the first exploding ability is that of
/// the rest.
proof fn lemma_first_exploding(abilities: Seq<ExplodingAbility>, to: RollCharacteristic, i: int)
    requires
        0 <= i <= abilities.len(),
        forall|j: int| 0 <= j < i ==> (#[trigger] abilities[j]).to != to,
    ensures
        first_exploding(abilities, to) == first_exploding(abilities.skip(i), to),
    decreases i,
{
    if i > 0 {
        assert(abilities.drop_first().skip(i - 1) =~= abilities.skip(i));
        assert forall|j: int| 0 <= j < i - 1 implies (#[trigger] abilities.drop_first()[j]).to
            != to by {
            assert(abilities.drop_first()[j] == abilities[j + 1]);
        }
        lemma_first_exploding(abilities.drop_first(), to, i - 1);
    } else {
        assert(abilities.skip(0) =~= abilities);
    }
}

impl WeaponConfig {
    /// The sum of the bonuses to a characteristic.
    pub fn bonus_to(&self, to: ValueCharacteristic) -> (r: i16)
        requires
            fits_i16(total_bonus(self.abilities.bonus@, to)),
        ensures
            r == total_bonus(self.abilities.bonus@, to),
    {
        self.wide_bonus_to(to) as i16
    }

    /// The rerolls for a characteristic: of all that are listed for it, the most
    /// permissive.
    pub fn reroll_to(&self, to: RollCharacteristic) -> (r: Option<RerollType>)
        ensures
            best_reroll(self.abilities.reroll@, to) == (match r {
                Some(reroll) => reroll.rank(),
                None => -1,
            }),
    {
        let rerolls = &self.abilities.reroll;
        let mut best: Option<RerollType> = None;
        let mut i: usize = 0;
        while i < rerolls.len()
            invariant
                i <= rerolls.len(),
                best_reroll(rerolls@.take(i as int), to) == (match best {
                    Some(reroll) => reroll.rank(),
                    None => -1,
                }),
            decreases rerolls.len() - i,
        {
            assert(rerolls@.take(i + 1).drop_last() =~= rerolls@.take(i as int));
            if rerolls[i].to == to {
                let better = match best {
                    Some(b) => rerolls[i].reroll_type.outranks(b),
                    None => true,
                };
                if better {
                    best = Some(rerolls[i].reroll_type);
                }
            }
            i = i + 1;
        }
        assert(rerolls@.take(i as int) =~= rerolls@);
        best
    }

    /// The exploding ability for a characteristic: the first that is listed for it.
    pub fn exploding_to(&self, to: RollCharacteristic) -> (r: Option<ExplodingAbility>)
        ensures
            r == first_exploding(self.abilities.exploding@, to),
    {
        let abilities = &self.abilities.exploding;
        let mut i: usize = 0;
        while i < abilities.len()
            invariant
                i <= abilities.len(),
                abilities == &self.abilities.exploding,
                forall|j: int| 0 <= j < i ==> (#[trigger] abilities@[j]).to != to,
            decreases abilities.len() - i,
        {
            if abilities[i].to == to {
                proof {
                    lemma_first_exploding(abilities@, to, i as int);
                    let rest = abilities@.skip(i as int);
                    assert(rest.len() > 0 && rest[0] == abilities@[i as int]);
                    assert(first_exploding(rest, to) == Some(rest[0]));
                }
                return Some(abilities[i]);
            }
            i = i + 1;
        }
        proof {
            lemma_first_exploding(abilities@, to, i as int);
        }
        None
    }

    /// What the conversion into a weapon needs: bonuses that stay within sixteen bits.
    pub open spec fn can_convert(&self) -> bool {
        &&& fits_i16(total_bonus(self.abilities.bonus@, ValueCharacteristic::Attacks))
        &&& fits_i16(total_bonus(self.abilities.bonus@, ValueCharacteristic::Hit))
        &&& fits_i16(total_bonus(self.abilities.bonus@, ValueCharacteristic::Wound))
        &&& fits_i16(total_bonus(self.abilities.bonus@, ValueCharacteristic::Rend))
        &&& fits_i16(total_bonus(self.abilities.bonus@, ValueCharacteristic::Damage))
    }

    /// The sum of the bonuses to a characteristic, in an integer wide enough for any list.
    fn wide_bonus_to(&self, to: ValueCharacteristic) -> (r: i128)
        ensures
            r == total_bonus(self.abilities.bonus@, to),
    {
        let bonuses = &self.abilities.bonus;
        let mut total: i128 = 0;
        let mut i: usize = 0;
        while i < bonuses.len()
            invariant
                i <= bonuses.len(),
                total == total_bonus(bonuses@.take(i as int), to),
            decreases bonuses.len() - i,
        {
            proof {
                assert(bonuses@.take(i + 1).drop_last() =~= bonuses@.take(i as int));
                lemma_total_bonus_bounds(bonuses@.take(i as int), to);
            }
            if bonuses[i].to == to {
                total = total + bonuses[i].amount as i128;
            }
            i = i + 1;
        }
        assert(bonuses@.take(i as int) =~= bonuses@);
        total
    }

    /// Whether the sum of the bonuses to a characteristic stays within sixteen bits.
    fn bonus_fits(&self, to: ValueCharacteristic) -> (r: bool)
        ensures
            r == fits_i16(total_bonus(self.abilities.bonus@, to)),
    {
        let total = self.wide_bonus_to(to);
        -0x8000 <= total && total <= 0x7FFF
    }

    /// Whether the weapon that is written down can be made: whether its bonuses stay
    /// within sixteen bits.
    pub fn is_convertible(&self) -> (r: bool)
        ensures
            r == self.can_convert(),
    {
        self.bonus_fits(ValueCharacteristic::Attacks) && self.bonus_fits(ValueCharacteristic::Hit)
            && self.bonus_fits(ValueCharacteristic::Wound) && self.bonus_fits(
            ValueCharacteristic::Rend,
        ) && self.bonus_fits(ValueCharacteristic::Damage)
    }

    /// The weapon that is written down: each characteristic with the sum of its bonuses,
    /// and the rolls with their best rerolls and first exploding ability.
    pub fn try_into(self) -> (r: Result<Weapon, super::weapon::WeaponBuilderError>)
        requires
            self.can_convert(),
        ensures
            r matches Ok(weapon) && {
                &&& weapon.attacks == (Attacks {
                    value: self.characteristics.attack,
                    bonus: total_bonus(self.abilities.bonus@, ValueCharacteristic::Attacks) as i16,
                })
                &&& weapon.hit.value == self.characteristics.hit
                &&& weapon.hit.bonus == total_bonus(
                    self.abilities.bonus@,
                    ValueCharacteristic::Hit,
                )
                &&& best_reroll(self.abilities.reroll@, RollCharacteristic::Hit) == (
                match weapon.hit.reroll {
                    Some(reroll) => reroll.rank(),
                    None => -1,
                })
                &&& weapon.hit.exploding == (match first_exploding(
                    self.abilities.exploding@,
                    RollCharacteristic::Hit,
                ) {
                    Some(a) => Some(
                        super::characteristics::ExplodingAbility {
                            on: a.on,
                            unmodified: a.unmodified,
                            extra: a.extra,
                        },
                    ),
                    None => None,
                })
                &&& weapon.wound.value == self.characteristics.wound
                &&& weapon.wound.bonus == total_bonus(
                    self.abilities.bonus@,
                    ValueCharacteristic::Wound,
                )
                &&& best_reroll(self.abilities.reroll@, RollCharacteristic::Wound) == (
                match weapon.wound.reroll {
                    Some(reroll) => reroll.rank(),
                    None => -1,
                })
                &&& weapon.wound.exploding == (match first_exploding(
                    self.abilities.exploding@,
                    RollCharacteristic::Wound,
                ) {
                    Some(a) => Some(
                        super::characteristics::ExplodingAbility {
                            on: a.on,
                            unmodified: a.unmodified,
                            extra: a.extra,
                        },
                    ),
                    None => None,
                })
                &&& weapon.rend == (Rend {
                    value: self.characteristics.rend,
                    bonus: total_bonus(self.abilities.bonus@, ValueCharacteristic::Rend) as i16,
                })
                &&& weapon.damage == (Damage {
                    value: self.characteristics.damage,
                    bonus: total_bonus(self.abilities.bonus@, ValueCharacteristic::Damage) as i16,
                })
            },
    {
        let mut builder = super::weapon::WeaponBuilder::default();
        builder.attacks = Some(
            Attacks {
                value: self.characteristics.attack,
                bonus: self.bonus_to(ValueCharacteristic::Attacks),
            },
        );
        builder.hit = Some(
            Hit {
                value: self.characteristics.hit,
                bonus: self.bonus_to(ValueCharacteristic::Hit),
                reroll: self.reroll_to(RollCharacteristic::Hit),
                exploding: match self.exploding_to(RollCharacteristic::Hit) {
                    Some(a) => Some(a.into()),
                    None => None,
                },
            },
        );
        builder.wound = Some(
            Wound {
                value: self.characteristics.wound,
                bonus: self.bonus_to(ValueCharacteristic::Wound),
                reroll: self.reroll_to(RollCharacteristic::Wound),
                exploding: match self.exploding_to(RollCharacteristic::Wound) {
                    Some(a) => Some(a.into()),
                    None => None,
                },
            },
        );
        builder.rend = Some(
            Rend {
                value: self.characteristics.rend,
                bonus: self.bonus_to(ValueCharacteristic::Rend),
            },
        );
        builder.damage = Some(
            Damage {
                value: self.characteristics.damage,
                bonus: self.bonus_to(ValueCharacteristic::Damage),
            },
        );
        builder.build()
    }
}

/// The save of a target as it is written down.
#[derive(Debug, Copy, Clone, Eq, PartialEq, Structural)]
pub struct TargetCharacteristics {
    pub save: u8,
}

/// The abilities of a target as they are written down.
#[derive(Debug, Copy, Clone, Eq, PartialEq, Structural)]
pub struct TargetAbilities {
    pub bonus: Option<i16>,
    pub ethereal: bool,
    pub reroll: Option<RerollType>,
}

impl Default for TargetAbilities {
    fn default() -> (r: Self)
        ensures
            r == (TargetAbilities { bonus: None, ethereal: false, reroll: None }),
    {
        Self { bonus: None, ethereal: false, reroll: None }
    }
}

/// A target as it is written down.
#[derive(Debug, Copy, Clone, Eq, PartialEq, Structural)]
pub struct TargetConfig {
    pub characteristics: TargetCharacteristics,
    pub abilities: TargetAbilities,
}

impl TargetConfig {
    /// The target that is written down.
    pub fn try_into(self) -> (r: Result<Target, super::target::TargetBuilderError>)
        ensures
            r == Ok::<Target, super::target::TargetBuilderError>(
                Target {
                    save: Save {
                        value: self.characteristics.save,
                        bonus: match self.abilities.bonus {
                            Some(bonus) => bonus,
                            None => 0,
                        },
                        reroll: self.abilities.reroll,
                    },
                    ethereal: self.abilities.ethereal,
                },
            ),
    {
        let mut builder = super::target::TargetBuilder::default();
        builder.save(self.characteristics.save);
        builder.ethereal(self.abilities.ethereal);
        if let Some(bonus) = self.abilities.bonus {
            builder.bonus(bonus);
        }
        if let Some(reroll) = self.abilities.reroll {
            builder.reroll(reroll);
        }
        builder.build()
    }
}

} // verus!
