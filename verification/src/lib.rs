//! A sequence-recognition trainer: the sequence families, the session
//! configuration, the drill state machine and the score history format.

pub mod config;
pub mod sequences;
pub mod random;
pub mod text;
pub mod decimal;
pub mod clock;
pub mod history;
pub mod app;
pub mod controls;
