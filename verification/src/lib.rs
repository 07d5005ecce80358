//! Named, daily-recurring timers: the logic behind the `poke` terminal
//! interface, with its contracts proved by Verus.

pub mod text;
pub mod timer;
pub mod action;
pub mod app;
pub mod paths;
pub mod screen;
