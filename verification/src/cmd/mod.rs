//! Commands that probe a microcontroller.
pub mod mcu_alive;
