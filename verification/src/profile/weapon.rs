//! A weapon profile whose characteristics carry their bonuses and abilities.
use super::characteristics::{
    can_modify, extra_sixths, fits_i16, modified_value, modify, probability, reroll_sixths,
    Characteristic, Exploding, ExplodingAbility, Reroll, RerollType,
};
use super::target::Target;
use crate::processors::success_sixths;
use vstd::prelude::*;
use vstd::std_specs::convert::{FromSpecImpl, IntoSpec};
use vstd::std_specs::ops::{AddSpecImpl, SubSpecImpl};

verus! {

/// The attacks of a weapon. A bonus adds attacks.
#[derive(Debug, PartialEq, Eq, Structural, Clone, Copy)]
pub struct Attacks {
    pub value: u8,
    pub bonus: i16,
}

/// The roll needed to hit. A bonus lowers it.
#[derive(Debug, PartialEq, Eq, Structural, Clone, Copy)]
pub struct Hit {
    pub value: u8,
    pub bonus: i16,
    pub reroll: Option<RerollType>,
    pub exploding: Option<ExplodingAbility>,
}

/// The roll needed to wound. A bonus lowers it.
#[derive(Debug, PartialEq, Eq, Structural, Clone, Copy)]
pub struct Wound {
    pub value: u8,
    pub bonus: i16,
    pub reroll: Option<RerollType>,
    pub exploding: Option<ExplodingAbility>,
}

/// The rend of a weapon. A bonus adds rend.
#[derive(Debug, PartialEq, Eq, Structural, Clone, Copy)]
pub struct Rend {
    pub value: u8,
    pub bonus: i16,
}

/// The damage of a weapon. A bonus adds damage.
#[derive(Debug, PartialEq, Eq, Structural, Clone, Copy)]
pub struct Damage {
    pub value: u8,
    pub bonus: i16,
}

impl Default for Attacks {
    fn default() -> (r: Self)
        ensures
            r == (Attacks { value: 0, bonus: 0 }),
    {
        Self { value: 0, bonus: 0 }
    }
}

impl Characteristic for Attacks {
    open spec fn spec_bonus(&self) -> i16 {
        self.bonus
    }

    open spec fn spec_unmodified(&self) -> u8 {
        self.value
    }

    open spec fn change(&self) -> int {
        self.bonus as int
    }

    fn bonus(&self) -> (r: i16) {
        self.bonus
    }

    fn unmodified(&self) -> (r: u8) {
        self.value
    }

    fn modified(&self) -> (r: u8) {
        modify(self.value, self.bonus as i32)
    }
}

impl From<u8> for Attacks {
    fn from(value: u8) -> (r: Self) {
        Self { value, bonus: 0 }
    }
}

impl FromSpecImpl<u8> for Attacks {
    open spec fn obeys_from_spec() -> bool {
        true
    }

    open spec fn from_spec(value: u8) -> Self {
        Attacks { value, bonus: 0 }
    }
}

impl core::ops::Add<i16> for Attacks {
    type Output = Attacks;

    /// Raises the bonus.
    fn add(self, rhs: i16) -> (r: Attacks) {
        let mut result = self;
        result.bonus = result.bonus + rhs;
        result
    }
}

impl AddSpecImpl<i16> for Attacks {
    open spec fn obeys_add_spec() -> bool {
        true
    }

    open spec fn add_req(self, rhs: i16) -> bool {
        fits_i16(self.bonus + rhs)
    }

    open spec fn add_spec(self, rhs: i16) -> Attacks {
        Attacks { bonus: (self.bonus + rhs) as i16, ..self }
    }
}

impl core::ops::Sub<i16> for Attacks {
    type Output = Attacks;

    /// Lowers the bonus.
    fn sub(self, rhs: i16) -> (r: Attacks) {
        let mut result = self;
        result.bonus = result.bonus - rhs;
        result
    }
}

impl SubSpecImpl<i16> for Attacks {
    open spec fn obeys_sub_spec() -> bool {
        true
    }

    open spec fn sub_req(self, rhs: i16) -> bool {
        fits_i16(self.bonus - rhs)
    }

    open spec fn sub_spec(self, rhs: i16) -> Attacks {
        Attacks { bonus: (self.bonus - rhs) as i16, ..self }
    }
}

impl Default for Hit {
    fn default() -> (r: Self)
        ensures
            r == (Hit { value: 0, bonus: 0, reroll: None, exploding: None }),
    {
        Self { value: 0, bonus: 0, reroll: None, exploding: None }
    }
}

impl Characteristic for Hit {
    open spec fn spec_bonus(&self) -> i16 {
        self.bonus
    }

    open spec fn spec_unmodified(&self) -> u8 {
        self.value
    }

    open spec fn change(&self) -> int {
        -(self.bonus as int)
    }

    fn bonus(&self) -> (r: i16) {
        self.bonus
    }

    fn unmodified(&self) -> (r: u8) {
        self.value
    }

    fn modified(&self) -> (r: u8) {
        modify(self.value, -(self.bonus as i32))
    }
}

impl From<u8> for Hit {
    fn from(value: u8) -> (r: Self) {
        Self { value, bonus: 0, reroll: None, exploding: None }
    }
}

impl FromSpecImpl<u8> for Hit {
    open spec fn obeys_from_spec() -> bool {
        true
    }

    open spec fn from_spec(value: u8) -> Self {
        Hit { value, bonus: 0, reroll: None, exploding: None }
    }
}

impl core::ops::Add<i16> for Hit {
    type Output = Hit;

    /// Raises the bonus.
    fn add(self, rhs: i16) -> (r: Hit) {
        let mut result = self;
        result.bonus = result.bonus + rhs;
        result
    }
}

impl AddSpecImpl<i16> for Hit {
    open spec fn obeys_add_spec() -> bool {
        true
    }

    open spec fn add_req(self, rhs: i16) -> bool {
        fits_i16(self.bonus + rhs)
    }

    open spec fn add_spec(self, rhs: i16) -> Hit {
        Hit { bonus: (self.bonus + rhs) as i16, ..self }
    }
}

impl core::ops::Sub<i16> for Hit {
    type Output = Hit;

    /// Lowers the bonus.
    fn sub(self, rhs: i16) -> (r: Hit) {
        let mut result = self;
        result.bonus = result.bonus - rhs;
        result
    }
}

impl SubSpecImpl<i16> for Hit {
    open spec fn obeys_sub_spec() -> bool {
        true
    }

    open spec fn sub_req(self, rhs: i16) -> bool {
        fits_i16(self.bonus - rhs)
    }

    open spec fn sub_spec(self, rhs: i16) -> Hit {
        Hit { bonus: (self.bonus - rhs) as i16, ..self }
    }
}

impl Reroll for Hit {
    open spec fn spec_reroll_type(&self) -> Option<RerollType> {
        self.reroll
    }

    fn reroll_type(&self) -> (r: Option<RerollType>) {
        self.reroll
    }
}

impl Exploding for Hit {
    open spec fn spec_exploding(&self) -> Option<ExplodingAbility> {
        self.exploding
    }

    fn extra_probability(&self) -> (r: u16) {
        match self.exploding {
            Some(ability) => {
                let chance = probability(ability.roll_target(self.bonus));
                assert(ability.extra * chance <= 255 * 6) by (nonlinear_arith)
                    requires
                        ability.extra <= 255,
                        chance <= 6,
                ;
                ability.extra as u16 * chance as u16
            },
            None => 0,
        }
    }
}

impl Default for Wound {
    fn default() -> (r: Self)
        ensures
            r == (Wound { value: 0, bonus: 0, reroll: None, exploding: None }),
    {
        Self { value: 0, bonus: 0, reroll: None, exploding: None }
    }
}

impl Characteristic for Wound {
    open spec fn spec_bonus(&self) -> i16 {
        self.bonus
    }

    open spec fn spec_unmodified(&self) -> u8 {
        self.value
    }

    open spec fn change(&self) -> int {
        -(self.bonus as int)
    }

    fn bonus(&self) -> (r: i16) {
        self.bonus
    }

    fn unmodified(&self) -> (r: u8) {
        self.value
    }

    fn modified(&self) -> (r: u8) {
        modify(self.value, -(self.bonus as i32))
    }
}

impl From<u8> for Wound {
    fn from(value: u8) -> (r: Self) {
        Self { value, bonus: 0, reroll: None, exploding: None }
    }
}

impl FromSpecImpl<u8> for Wound {
    open spec fn obeys_from_spec() -> bool {
        true
    }

    open spec fn from_spec(value: u8) -> Self {
        Wound { value, bonus: 0, reroll: None, exploding: None }
    }
}

impl core::ops::Add<i16> for Wound {
    type Output = Wound;

    /// Raises the bonus.
    fn add(self, rhs: i16) -> (r: Wound) {
        let mut result = self;
        result.bonus = result.bonus + rhs;
        result
    }
}

impl AddSpecImpl<i16> for Wound {
    open spec fn obeys_add_spec() -> bool {
        true
    }

    open spec fn add_req(self, rhs: i16) -> bool {
        fits_i16(self.bonus + rhs)
    }

    open spec fn add_spec(self, rhs: i16) -> Wound {
        Wound { bonus: (self.bonus + rhs) as i16, ..self }
    }
}

impl core::ops::Sub<i16> for Wound {
    type Output = Wound;

    /// Lowers the bonus.
    fn sub(self, rhs: i16) -> (r: Wound) {
        let mut result = self;
        result.bonus = result.bonus - rhs;
        result
    }
}

impl SubSpecImpl<i16> for Wound {
    open spec fn obeys_sub_spec() -> bool {
        true
    }

    open spec fn sub_req(self, rhs: i16) -> bool {
        fits_i16(self.bonus - rhs)
    }

    open spec fn sub_spec(self, rhs: i16) -> Wound {
        Wound { bonus: (self.bonus - rhs) as i16, ..self }
    }
}

impl Reroll for Wound {
    open spec fn spec_reroll_type(&self) -> Option<RerollType> {
        self.reroll
    }

    fn reroll_type(&self) -> (r: Option<RerollType>) {
        self.reroll
    }
}

impl Exploding for Wound {
    open spec fn spec_exploding(&self) -> Option<ExplodingAbility> {
        self.exploding
    }

    fn extra_probability(&self) -> (r: u16) {
        match self.exploding {
            Some(ability) => {
                let chance = probability(ability.roll_target(self.bonus));
                assert(ability.extra * chance <= 255 * 6) by (nonlinear_arith)
                    requires
                        ability.extra <= 255,
                        chance <= 6,
                ;
                ability.extra as u16 * chance as u16
            },
            None => 0,
        }
    }
}

impl Default for Rend {
    fn default() -> (r: Self)
        ensures
            r == (Rend { value: 0, bonus: 0 }),
    {
        Self { value: 0, bonus: 0 }
    }
}

impl Characteristic for Rend {
    open spec fn spec_bonus(&self) -> i16 {
        self.bonus
    }

    open spec fn spec_unmodified(&self) -> u8 {
        self.value
    }

    open spec fn change(&self) -> int {
        self.bonus as int
    }

    fn bonus(&self) -> (r: i16) {
        self.bonus
    }

    fn unmodified(&self) -> (r: u8) {
        self.value
    }

    fn modified(&self) -> (r: u8) {
        modify(self.value, self.bonus as i32)
    }
}

impl From<u8> for Rend {
    fn from(value: u8) -> (r: Self) {
        Self { value, bonus: 0 }
    }
}

impl FromSpecImpl<u8> for Rend {
    open spec fn obeys_from_spec() -> bool {
        true
    }

    open spec fn from_spec(value: u8) -> Self {
        Rend { value, bonus: 0 }
    }
}

impl core::ops::Add<i16> for Rend {
    type Output = Rend;

    /// Raises the bonus.
    fn add(self, rhs: i16) -> (r: Rend) {
        let mut result = self;
        result.bonus = result.bonus + rhs;
        result
    }
}

impl AddSpecImpl<i16> for Rend {
    open spec fn obeys_add_spec() -> bool {
        true
    }

    open spec fn add_req(self, rhs: i16) -> bool {
        fits_i16(self.bonus + rhs)
    }

    open spec fn add_spec(self, rhs: i16) -> Rend {
        Rend { bonus: (self.bonus + rhs) as i16, ..self }
    }
}

impl core::ops::Sub<i16> for Rend {
    type Output = Rend;

    /// Lowers the bonus.
    fn sub(self, rhs: i16) -> (r: Rend) {
        let mut result = self;
        result.bonus = result.bonus - rhs;
        result
    }
}

impl SubSpecImpl<i16> for Rend {
    open spec fn obeys_sub_spec() -> bool {
        true
    }

    open spec fn sub_req(self, rhs: i16) -> bool {
        fits_i16(self.bonus - rhs)
    }

    open spec fn sub_spec(self, rhs: i16) -> Rend {
        Rend { bonus: (self.bonus - rhs) as i16, ..self }
    }
}

impl Default for Damage {
    fn default() -> (r: Self)
        ensures
            r == (Damage { value: 0, bonus: 0 }),
    {
        Self { value: 0, bonus: 0 }
    }
}

impl Characteristic for Damage {
    open spec fn spec_bonus(&self) -> i16 {
        self.bonus
    }

    open spec fn spec_unmodified(&self) -> u8 {
        self.value
    }

    open spec fn change(&self) -> int {
        self.bonus as int
    }

    fn bonus(&self) -> (r: i16) {
        self.bonus
    }

    fn unmodified(&self) -> (r: u8) {
        self.value
    }

    fn modified(&self) -> (r: u8) {
        modify(self.value, self.bonus as i32)
    }
}

impl From<u8> for Damage {
    fn from(value: u8) -> (r: Self) {
        Self { value, bonus: 0 }
    }
}

impl FromSpecImpl<u8> for Damage {
    open spec fn obeys_from_spec() -> bool {
        true
    }

    open spec fn from_spec(value: u8) -> Self {
        Damage { value, bonus: 0 }
    }
}

impl core::ops::Add<i16> for Damage {
    type Output = Damage;

    /// Raises the bonus.
    fn add(self, rhs: i16) -> (r: Damage) {
        let mut result = self;
        result.bonus = result.bonus + rhs;
        result
    }
}

impl AddSpecImpl<i16> for Damage {
    open spec fn obeys_add_spec() -> bool {
        true
    }

    open spec fn add_req(self, rhs: i16) -> bool {
        fits_i16(self.bonus + rhs)
    }

    open spec fn add_spec(self, rhs: i16) -> Damage {
        Damage { bonus: (self.bonus + rhs) as i16, ..self }
    }
}

impl core::ops::Sub<i16> for Damage {
    type Output = Damage;

    /// Lowers the bonus.
    fn sub(self, rhs: i16) -> (r: Damage) {
        let mut result = self;
        result.bonus = result.bonus - rhs;
        result
    }
}

impl SubSpecImpl<i16> for Damage {
    open spec fn obeys_sub_spec() -> bool {
        true
    }

    open spec fn sub_req(self, rhs: i16) -> bool {
        fits_i16(self.bonus - rhs)
    }

    open spec fn sub_spec(self, rhs: i16) -> Damage {
        Damage { bonus: (self.bonus - rhs) as i16, ..self }
    }
}

/// A weapon profile.
#[derive(Debug, Eq, PartialEq, Structural, Clone, Copy)]
pub struct Weapon {
    pub attacks: Attacks,
    pub hit: Hit,
    pub wound: Wound,
    pub rend: Rend,
    pub damage: Damage,
}

/// What the average damage of a weapon is counted in: it is its number divided by this
/// one.
pub const AVERAGE_DENOMINATOR: u64 = 7776;

impl Weapon {
    /// What the average damage needs: characteristics that stay within sixteen bits
    /// with their bonuses.
    pub open spec fn can_average(&self, target: &Target) -> bool {
        &&& fits_i16(self.attacks.value + self.attacks.bonus)
        &&& fits_i16(self.hit.value - self.hit.bonus)
        &&& fits_i16(self.wound.value - self.wound.bonus)
        &&& fits_i16(self.rend.value + self.rend.bonus)
        &&& fits_i16(self.damage.value + self.damage.bonus)
        &&& self.hit.exploding matches Some(ability) ==> ability.unmodified || fits_i16(
            ability.on - self.hit.bonus,
        )
        &&& self.wound.exploding matches Some(ability) ==> ability.unmodified || fits_i16(
            ability.on - self.wound.bonus,
        )
        &&& fits_i16(target.save.bonus - self.rend.modified_spec())
        &&& !target.ethereal ==> fits_i16(
            target.save.value + target.change_by(self.rend.modified_spec()),
        )
    }

    /// Whether the average damage against the target can be computed.
    pub fn is_ready(&self, target: &Target) -> (r: bool)
        ensures
            r == self.can_average(target),
    {
        if !can_modify(self.attacks.value, self.attacks.bonus as i32) || !can_modify(
            self.hit.value,
            -(self.hit.bonus as i32),
        ) || !can_modify(self.wound.value, -(self.wound.bonus as i32)) || !can_modify(
            self.rend.value,
            self.rend.bonus as i32,
        ) || !can_modify(self.damage.value, self.damage.bonus as i32) {
            return false;
        }
        let hit_explodes = match self.hit.exploding {
            Some(ability) => ability.unmodified || can_modify(ability.on, -(self.hit.bonus as i32)),
            None => true,
        };
        let wound_explodes = match self.wound.exploding {
            Some(ability) => ability.unmodified || can_modify(
                ability.on,
                -(self.wound.bonus as i32),
            ),
            None => true,
        };
        if !hit_explodes || !wound_explodes {
            return false;
        }
        let rend = self.rend.modified();
        let against: i32 = target.save.bonus as i32 - rend as i32;
        if against < -0x8000 || against > 0x7FFF {
            return false;
        }
        target.ethereal || can_modify(target.save.value, -against)
    }

    /// The average damage against the target, in parts of `AVERAGE_DENOMINATOR`, or
    /// nothing where a characteristic with its bonus leaves sixteen bits.
    pub fn checked_average_damage(&self, target: &Target) -> (r: Option<u64>)
        ensures
            match r {
                Some(average) => self.can_average(target) && average == self.average_value(target),
                None => !self.can_average(target),
            },
    {
        if self.is_ready(target) {
            Some(self.average_damage(target))
        } else {
            None
        }
    }

    /// The rolls of a phase out of six given ones: the given rolls, those that are
    /// rolled again, and the extra ones.
    pub open spec fn rolls_sixths(
        value: u8,
        bonus: i16,
        reroll: Option<RerollType>,
        exploding: Option<ExplodingAbility>,
    ) -> int {
        6 + reroll_sixths(reroll, value as int, modified_value(value as int, -bonus))
            + extra_sixths(exploding, bonus)
    }

    /// The average damage against a target, in parts of `AVERAGE_DENOMINATOR`: the
    /// attacks, by the rolls to hit of each with the chance to hit, by the rolls to wound
    /// of each hit with the chance to wound, by the chance that the save fails, by the
    /// damage.
    pub open spec fn average_value(&self, target: &Target) -> int {
        let hit_rolls = self.attacks.modified_spec() * Self::rolls_sixths(
            self.hit.value,
            self.hit.bonus,
            self.hit.reroll,
            self.hit.exploding,
        );
        let hits = hit_rolls * success_sixths(self.hit.modified_spec() as int);
        let wound_rolls = hits * Self::rolls_sixths(
            self.wound.value,
            self.wound.bonus,
            self.wound.reroll,
            self.wound.exploding,
        );
        let wounds = wound_rolls * success_sixths(self.wound.modified_spec() as int);
        let unsaved = wounds * (6 - target.saved_sixths(self.rend.modified_spec()));
        unsaved * self.damage.modified_spec()
    }

    /// The average damage against a target, in parts of `AVERAGE_DENOMINATOR`.
    pub fn average_damage(&self, target: &Target) -> (r: u64)
        requires
            self.can_average(target),
        ensures
            r == self.average_value(target),
    {
        let attacks = self.attacks.modified() as u64;
        let per_attack = 6 + self.hit.reroll_probability() as u64
            + self.hit.extra_probability() as u64;
        let chance_to_hit = probability(self.hit.modified()) as u64;
        let per_hit = 6 + self.wound.reroll_probability() as u64
            + self.wound.extra_probability() as u64;
        let chance_to_wound = probability(self.wound.modified()) as u64;
        let chance_unsaved = target.average_unsaved(self.rend.modified()) as u64;
        let damage = self.damage.modified() as u64;
        assert(attacks * per_attack <= 255 * 1542) by (nonlinear_arith)
            requires
                attacks <= 255,
                per_attack <= 1542,
        ;
        let hit_rolls = attacks * per_attack;
        assert(hit_rolls * chance_to_hit <= 393210 * 6) by (nonlinear_arith)
            requires
                hit_rolls <= 393210,
                chance_to_hit <= 6,
        ;
        let hits = hit_rolls * chance_to_hit;
        assert(hits * per_hit <= 2359260 * 1542) by (nonlinear_arith)
            requires
                hits <= 2359260,
                per_hit <= 1542,
        ;
        let wound_rolls = hits * per_hit;
        assert(wound_rolls * chance_to_wound <= 3637978920 * 6) by (nonlinear_arith)
            requires
                wound_rolls <= 3637978920,
                chance_to_wound <= 6,
        ;
        let wounds = wound_rolls * chance_to_wound;
        assert(wounds * chance_unsaved <= 21827873520 * 6) by (nonlinear_arith)
            requires
                wounds <= 21827873520,
                chance_unsaved <= 6,
        ;
        let unsaved = wounds * chance_unsaved;
        assert(unsaved * damage <= 130967241120 * 255) by (nonlinear_arith)
            requires
                unsaved <= 130967241120,
                damage <= 255,
        ;
        unsaved * damage
    }
}

/// Why a weapon could not be built: a field that was never given.
#[derive(Debug, Eq, PartialEq, Structural, Clone, Copy)]
pub enum WeaponBuilderError {
    UninitializedField(WeaponField),
}

/// The fields of a weapon profile.
#[derive(Debug, Eq, PartialEq, Structural, Clone, Copy)]
pub enum WeaponField {
    Attacks,
    Hit,
    Wound,
    Rend,
    Damage,
}

impl WeaponField {
    /// The name of the field.
    pub fn name(&self) -> (r: &'static str)
        ensures
            r@ == (match *self {
                WeaponField::Attacks => "attacks"@,
                WeaponField::Hit => "hit"@,
                WeaponField::Wound => "wound"@,
                WeaponField::Rend => "rend"@,
                WeaponField::Damage => "damage"@,
            }),
    {
        match self {
            WeaponField::Attacks => "attacks",
            WeaponField::Hit => "hit",
            WeaponField::Wound => "wound",
            WeaponField::Rend => "rend",
            WeaponField::Damage => "damage",
        }
    }
}

/// Collects the characteristics of a weapon. Every one of them must be given.
#[derive(Debug, Eq, PartialEq, Structural, Clone, Copy)]
pub struct WeaponBuilder {
    pub attacks: Option<Attacks>,
    pub hit: Option<Hit>,
    pub wound: Option<Wound>,
    pub rend: Option<Rend>,
    pub damage: Option<Damage>,
}

impl Default for WeaponBuilder {
    fn default() -> (r: Self)
        ensures
            r == (WeaponBuilder {
                attacks: None,
                hit: None,
                wound: None,
                rend: None,
                damage: None,
            }),
    {
        Self { attacks: None, hit: None, wound: None, rend: None, damage: None }
    }
}

impl WeaponBuilder {
    /// The first field that was not given, in the order of the fields.
    pub open spec fn first_missing(&self) -> Option<WeaponField> {
        if self.attacks is None {
            Some(WeaponField::Attacks)
        } else if self.hit is None {
            Some(WeaponField::Hit)
        } else if self.wound is None {
            Some(WeaponField::Wound)
        } else if self.rend is None {
            Some(WeaponField::Rend)
        } else if self.damage is None {
            Some(WeaponField::Damage)
        } else {
            None
        }
    }

    pub fn attacks<T: Into<Attacks>>(&mut self, value: T) -> (r: &mut Self)
        ensures
            r.attacks matches Some(given) && call_ensures(
                <T as Into<Attacks>>::into,
                (value,),
                given,
            ),
            *r == (WeaponBuilder { attacks: r.attacks, ..*old(self) }),
            T::obeys_into_spec() ==> r.attacks == Some(value.into_spec()),
            *final(self) == *final(r),
    {
        self.attacks = Some(value.into());
        self
    }

    pub fn hit<T: Into<Hit>>(&mut self, value: T) -> (r: &mut Self)
        ensures
            r.hit matches Some(given) && call_ensures(
                <T as Into<Hit>>::into,
                (value,),
                given,
            ),
            *r == (WeaponBuilder { hit: r.hit, ..*old(self) }),
            T::obeys_into_spec() ==> r.hit == Some(value.into_spec()),
            *final(self) == *final(r),
    {
        self.hit = Some(value.into());
        self
    }

    pub fn wound<T: Into<Wound>>(&mut self, value: T) -> (r: &mut Self)
        ensures
            r.wound matches Some(given) && call_ensures(
                <T as Into<Wound>>::into,
                (value,),
                given,
            ),
            *r == (WeaponBuilder { wound: r.wound, ..*old(self) }),
            T::obeys_into_spec() ==> r.wound == Some(value.into_spec()),
            *final(self) == *final(r),
    {
        self.wound = Some(value.into());
        self
    }

    pub fn rend<T: Into<Rend>>(&mut self, value: T) -> (r: &mut Self)
        ensures
            r.rend matches Some(given) && call_ensures(
                <T as Into<Rend>>::into,
                (value,),
                given,
            ),
            *r == (WeaponBuilder { rend: r.rend, ..*old(self) }),
            T::obeys_into_spec() ==> r.rend == Some(value.into_spec()),
            *final(self) == *final(r),
    {
        self.rend = Some(value.into());
        self
    }

    pub fn damage<T: Into<Damage>>(&mut self, value: T) -> (r: &mut Self)
        ensures
            r.damage matches Some(given) && call_ensures(
                <T as Into<Damage>>::into,
                (value,),
                given,
            ),
            *r == (WeaponBuilder { damage: r.damage, ..*old(self) }),
            T::obeys_into_spec() ==> r.damage == Some(value.into_spec()),
            *final(self) == *final(r),
    {
        self.damage = Some(value.into());
        self
    }

    /// Makes the weapon, or names the first field that was not given.
    pub fn build(&self) -> (r: Result<Weapon, WeaponBuilderError>)
        ensures
            r == (match self.first_missing() {
                Some(field) => Err::<Weapon, WeaponBuilderError>(
                    WeaponBuilderError::UninitializedField(field),
                ),
                None => Ok(
                    Weapon {
                        attacks: self.attacks.unwrap(),
                        hit: self.hit.unwrap(),
                        wound: self.wound.unwrap(),
                        rend: self.rend.unwrap(),
                        damage: self.damage.unwrap(),
                    },
                ),
            }),
    {
        let attacks = match self.attacks {
            Some(attacks) => attacks,
            None => {
                return Err(WeaponBuilderError::UninitializedField(WeaponField::Attacks));
            },
        };
        let hit = match self.hit {
            Some(hit) => hit,
            None => {
                return Err(WeaponBuilderError::UninitializedField(WeaponField::Hit));
            },
        };
        let wound = match self.wound {
            Some(wound) => wound,
            None => {
                return Err(WeaponBuilderError::UninitializedField(WeaponField::Wound));
            },
        };
        let rend = match self.rend {
            Some(rend) => rend,
            None => {
                return Err(WeaponBuilderError::UninitializedField(WeaponField::Rend));
            },
        };
        let damage = match self.damage {
            Some(damage) => damage,
            None => {
                return Err(WeaponBuilderError::UninitializedField(WeaponField::Damage));
            },
        };
        Ok(Weapon { attacks, hit, wound, rend, damage })
    }
}

} // verus!
