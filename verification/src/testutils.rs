//! Ready-made values to try the library with.
pub mod weapons;
