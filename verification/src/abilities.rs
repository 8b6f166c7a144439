//! The special rules that decorate a weapon or its opponent.
pub mod common;
pub mod opponent;
pub mod weapon;

pub use crate::characteristic::{Characteristic, RollCharacteristic, ValueCharacteristic};
pub use common::RerollType;
