//! The planning core of a device-accelerated feed-forward neural-network
//! training engine.
//!
//! The crate decides what a compute device has to do: which buffers exist and
//! how large they are, which kernel runs with which arguments over which
//! work sizes, and in which order layers are visited. It never talks to a
//! device itself; a caller carries out the [`commands::Command`]s it is
//! handed and reports back what the device answered.

pub mod commands;
pub mod device;
pub mod gpu;
pub mod layers;
pub mod layout;
pub mod loss_functions;
pub mod model;
pub mod programs;
pub mod training;
pub mod types;
