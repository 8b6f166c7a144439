//! Damage statistics for weapon profiles of a tabletop miniatures game.
//!
//! A [`Weapon`] bundles a profile (attacks, to-hit, to-wound, rend, damage) with a list of
//! abilities; an [`Opponent`] bundles the abilities of the defender. The processors in
//! [`processors`] compute the average damage of a weapon against every save, as exact
//! fractions, and the largest damage that it can deal, and they simulate single attack
//! sequences with an injected source of dice rolls. What a simulated sequence deals is
//! stated as a function of the rolls that it reads, and the same sequence can be run on
//! rolls that are written down beforehand. A [`Unit`] adds the weapons of its models up,
//! and a [`UnitComparator`] sets units side by side.
//!
//! Beside this model stands a simpler one in [`profile`]: a weapon of five
//! characteristics, each of which carries its own bonus, rerolls and exploding rolls, and
//! a target with its save. [`definitions`] tells how abilities present themselves, and
//! [`service`] holds what a service around the library answers.
//!
//! Every executable function carries a contract stated over mathematical integers and
//! sequences. A function that needs its numbers to stay within the integers of the
//! machine says so in its `requires`, and beside it stands a function that tests the
//! condition or that gives nothing where it fails.
pub mod abilities;
pub mod characteristic;
pub mod compare;
pub mod definitions;
pub mod opponent;
pub mod processors;
pub mod profile;
pub mod results;
pub mod rollable;
pub mod service;
pub mod testutils;
pub mod unit;
pub mod weapon;
pub mod weapon_builder;

pub use characteristic::{Characteristic, RollCharacteristic, ValueCharacteristic};
pub use compare::{AverageComparisonResult, SimulatedUnitResult, UnitComparator};
pub use opponent::Opponent;
pub use rollable::{Dice, DiceNotation, DiceRoller, NotationValue, Rollable, Roller};
pub use unit::{Unit, UnitSimulationResults};
pub use weapon::Weapon;
pub use weapon_builder::{WeaponBuilder, WeaponBuilderError, WeaponField};
