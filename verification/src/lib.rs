//! Control logic of a small weather station: raw sensor frames are packed
//! into samples, compensated with fixed-point integer arithmetic, and shown
//! or broadcast according to a mode chosen through a single-slot mailbox.

pub mod compensation;
pub mod display;
pub mod fixed;
pub mod mailbox;
pub mod mode;
pub mod orchestrator;
pub mod sample;
pub mod telemetry;
pub mod text;
