//! The text forms of schedule attributes: `HH:MM` times and weekday lists.
pub mod hourminutes;
pub mod weekaler;
