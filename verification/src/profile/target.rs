//! The target of a weapon profile: its save and what belongs to it.
use super::characteristics::{
    fits_i16, modified_value, modify, probability, Characteristic, Reroll, RerollType,
};
use crate::processors::success_sixths;
use vstd::prelude::*;
use vstd::std_specs::convert::{FromSpecImpl, IntoSpec};
use vstd::std_specs::ops::{AddSpecImpl, SubSpecImpl};

verus! {

/// The roll needed to save. A bonus lowers it.
#[derive(Debug, PartialEq, Eq, Structural, Clone, Copy)]
pub struct Save {
    pub value: u8,
    pub bonus: i16,
    pub reroll: Option<RerollType>,
}

impl Default for Save {
    fn default() -> (r: Self)
        ensures
            r == (Save { value: 0, bonus: 0, reroll: None }),
    {
        Self { value: 0, bonus: 0, reroll: None }
    }
}

impl Characteristic for Save {
    open spec fn spec_bonus(&self) -> i16 {
        self.bonus
    }

    open spec fn spec_unmodified(&self) -> u8 {
        self.value
    }

    open spec fn change(&self) -> int {
        -(self.bonus as int)
    }

    fn bonus(&self) -> (r: i16) {
        self.bonus
    }

    fn unmodified(&self) -> (r: u8) {
        self.value
    }

    fn modified(&self) -> (r: u8) {
        modify(self.value, -(self.bonus as i32))
    }
}

impl From<u8> for Save {
    fn from(value: u8) -> (r: Self) {
        Self { value, bonus: 0, reroll: None }
    }
}

impl FromSpecImpl<u8> for Save {
    open spec fn obeys_from_spec() -> bool {
        true
    }

    open spec fn from_spec(value: u8) -> Self {
        Save { value, bonus: 0, reroll: None }
    }
}

impl core::ops::Add<i16> for Save {
    type Output = Save;

    /// Raises the bonus.
    fn add(self, rhs: i16) -> (r: Save) {
        let mut result = self;
        result.bonus = result.bonus + rhs;
        result
    }
}

impl AddSpecImpl<i16> for Save {
    open spec fn obeys_add_spec() -> bool {
        true
    }

    open spec fn add_req(self, rhs: i16) -> bool {
        fits_i16(self.bonus + rhs)
    }

    open spec fn add_spec(self, rhs: i16) -> Save {
        Save { bonus: (self.bonus + rhs) as i16, ..self }
    }
}

impl core::ops::Sub<i16> for Save {
    type Output = Save;

    /// Lowers the bonus.
    fn sub(self, rhs: i16) -> (r: Save) {
        let mut result = self;
        result.bonus = result.bonus - rhs;
        result
    }
}

impl SubSpecImpl<i16> for Save {
    open spec fn obeys_sub_spec() -> bool {
        true
    }

    open spec fn sub_req(self, rhs: i16) -> bool {
        fits_i16(self.bonus - rhs)
    }

    open spec fn sub_spec(self, rhs: i16) -> Save {
        Save { bonus: (self.bonus - rhs) as i16, ..self }
    }
}

impl Reroll for Save {
    open spec fn spec_reroll_type(&self) -> Option<RerollType> {
        self.reroll
    }

    fn reroll_type(&self) -> (r: Option<RerollType>) {
        self.reroll
    }
}

/// A target: its save, and whether it ignores what would change the save.
#[derive(Debug, PartialEq, Eq, Structural, Clone, Copy)]
pub struct Target {
    pub save: Save,
    pub ethereal: bool,
}

impl Target {
    /// A target with the given save that is not ethereal.
    pub fn from<T: Into<Save>>(save: T) -> (r: Self)
        ensures
            call_ensures(<T as Into<Save>>::into, (save,), r.save),
            !r.ethereal,
            T::obeys_into_spec() ==> r == (Target { save: save.into_spec(), ethereal: false }),
    {
        Self { save: save.into(), ethereal: false }
    }

    /// What rend does to the save roll, with the bonus of the save counted in.
    pub open spec fn change_by(&self, rend: u8) -> int {
        -(self.save.bonus - rend)
    }

    /// The roll that saves a wound of a weapon with the given rend. The bonus of the save
    /// lowers it and rend raises it, unless the target is ethereal: then it is the save
    /// as it stands.
    pub fn needed_roll(&self, rend: u8) -> (r: u8)
        requires
            fits_i16(self.save.bonus - rend),
            !self.ethereal ==> fits_i16(self.save.value + self.change_by(rend)),
        ensures
            r == if self.ethereal {
                self.save.value as int
            } else {
                modified_value(self.save.value as int, self.change_by(rend))
            },
    {
        let against = self.save - rend as i16;
        if self.ethereal {
            against.unmodified()
        } else {
            against.modified()
        }
    }

    /// The chance, in sixths, that the target saves a wound of a weapon with the given
    /// rend.
    pub open spec fn saved_sixths(&self, rend: u8) -> int {
        success_sixths(
            if self.ethereal {
                self.save.value as int
            } else {
                modified_value(self.save.value as int, self.change_by(rend))
            },
        )
    }

    /// The chance, in sixths, that the target saves a wound of a weapon with the given
    /// rend.
    pub fn average_saved(&self, rend: u8) -> (r: u8)
        requires
            fits_i16(self.save.bonus - rend),
            !self.ethereal ==> fits_i16(self.save.value + self.change_by(rend)),
        ensures
            r == self.saved_sixths(rend),
            r <= 6,
    {
        probability(self.needed_roll(rend))
    }

    /// The chance, in sixths, that the target does not save a wound of a weapon with the
    /// given rend.
    pub fn average_unsaved(&self, rend: u8) -> (r: u8)
        requires
            fits_i16(self.save.bonus - rend),
            !self.ethereal ==> fits_i16(self.save.value + self.change_by(rend)),
        ensures
            r == 6 - self.saved_sixths(rend),
            r <= 6,
    {
        6 - self.average_saved(rend)
    }

    /// The target that an attack is resolved against: the given one, with the save
    /// that was named on its own in place of its save, or a target of that save alone.
    pub fn with_save(target: Option<Target>, save: Option<u8>) -> (r: Option<Target>)
        ensures
            r == (match (target, save) {
                (Some(target), Some(save)) => Some(
                    Target { save: Save { value: save, bonus: 0, reroll: None }, ..target },
                ),
                (None, Some(save)) => Some(
                    Target {
                        save: Save { value: save, bonus: 0, reroll: None },
                        ethereal: false,
                    },
                ),
                (target, None) => target,
            }),
    {
        match save {
            Some(save) => match target {
                Some(target) => Some(Target { save: Save::from(save), ethereal: target.ethereal }),
                None => Some(Target::from(save)),
            },
            None => target,
        }
    }
}

/// Why a target could not be built. No target fails to be built today: a save of zero
/// without bonus and a target that is not ethereal stand in for what was not given.
#[derive(Debug, PartialEq, Eq, Structural, Clone, Copy)]
pub struct TargetBuilderError {}

/// Collects the fields of a target.
#[derive(Debug, PartialEq, Eq, Structural, Clone, Copy)]
pub struct TargetBuilder {
    pub save: Option<Save>,
    pub ethereal: Option<bool>,
}

impl Default for TargetBuilder {
    fn default() -> (r: Self)
        ensures
            r == (TargetBuilder { save: None, ethereal: None }),
    {
        Self { save: None, ethereal: None }
    }
}

impl TargetBuilder {
    /// The save given so far, or the save of zero.
    pub open spec fn save_so_far(&self) -> Save {
        match self.save {
            Some(save) => save,
            None => Save { value: 0, bonus: 0, reroll: None },
        }
    }

    pub fn save<T: Into<Save>>(&mut self, value: T) -> (r: &mut Self)
        ensures
            r.save matches Some(given) && call_ensures(<T as Into<Save>>::into, (value,), given),
            *r == (TargetBuilder { save: r.save, ..*old(self) }),
            T::obeys_into_spec() ==> r.save == Some(value.into_spec()),
            *final(self) == *final(r),
    {
        self.save = Some(value.into());
        self
    }

    pub fn ethereal(&mut self, value: bool) -> (r: &mut Self)
        ensures
            *r == (TargetBuilder { ethereal: Some(value), ..*old(self) }),
            *final(self) == *final(r),
    {
        self.ethereal = Some(value);
        self
    }

    /// Sets the bonus of the save.
    pub fn bonus(&mut self, bonus: i16) -> (r: &mut Self)
        ensures
            *r == (TargetBuilder {
                save: Some(Save { bonus, ..old(self).save_so_far() }),
                ..*old(self)
            }),
            *final(self) == *final(r),
    {
        let save = match self.save {
            Some(save) => save,
            None => Save::default(),
        };
        self.save = Some(Save { bonus, value: save.value, reroll: save.reroll });
        self
    }

    /// Sets the rerolls of the save.
    pub fn reroll(&mut self, reroll: RerollType) -> (r: &mut Self)
        ensures
            *r == (TargetBuilder {
                save: Some(Save { reroll: Some(reroll), ..old(self).save_so_far() }),
                ..*old(self)
            }),
            *final(self) == *final(r),
    {
        let save = match self.save {
            Some(save) => save,
            None => Save::default(),
        };
        self.save = Some(Save { reroll: Some(reroll), value: save.value, bonus: save.bonus });
        self
    }

    /// Makes the target.
    pub fn build(&self) -> (r: Result<Target, TargetBuilderError>)
        ensures
            r == Ok::<Target, TargetBuilderError>(
                Target {
                    save: self.save_so_far(),
                    ethereal: match self.ethereal {
                        Some(ethereal) => ethereal,
                        None => false,
                    },
                },
            ),
    {
        let save = match self.save {
            Some(save) => save,
            None => Save::default(),
        };
        let ethereal = match self.ethereal {
            Some(ethereal) => ethereal,
            None => false,
        };
        Ok(Target { save, ethereal })
    }
}

} // verus!
