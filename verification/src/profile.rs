//! Profiles whose characteristics carry their own bonuses and abilities: a weapon of five
//! characteristics and a target with its save.
pub mod characteristics;
pub mod config;
pub mod dice;
pub mod target;
pub mod weapon;

pub use characteristics::{Characteristic, Exploding, ExplodingAbility, Reroll, RerollType};
pub use config::{TargetConfig, WeaponConfig};
pub use dice::Dice;
pub use target::{Save, Target, TargetBuilder};
pub use weapon::{Attacks, Damage, Hit, Rend, Weapon, WeaponBuilder, Wound};
