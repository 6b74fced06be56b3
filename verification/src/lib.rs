//! Scheduling, queueing and announcement logic of a small RTP radio station.
#![allow(unused_imports)]

pub mod text;
pub mod broadcast;
pub mod weekday;
pub mod scheduler;
pub mod services;
pub mod player;
pub mod encryption;

pub use broadcast::item::{Item, ItemState};
pub use broadcast::queue::{lemma_clean_idempotent, NextCheck, Queue};
pub use broadcast::{
    lemma_same_output_equivalence, same_device, same_output, Broadcast, OutputMode, OutputState,
    SwitchPlan,
};
