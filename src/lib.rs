//! Synthesis of example configurations for a rule-based agent simulation.
//!
//! Given a set of topology parameters, the library derives one agent record
//! per device and a shared prototype made of memory-cell declarations and
//! rule statements describing token-passing chains between devices.

pub mod args;
pub mod generator;
pub mod laws;
pub mod text;
