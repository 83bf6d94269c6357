//! One module for each family of readings.

pub mod battery;
pub mod cpu;
pub mod disk;
pub mod ram;
