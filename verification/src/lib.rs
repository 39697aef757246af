//! Builds the `systemd-nspawn` invocation that runs a program inside a root
//! directory, as a plain description that a process spawner can consume.

pub mod invocation;
pub mod sd_nspawn;

pub use crate::invocation::{Invocation, Stream};
pub use crate::sd_nspawn::SystemdNspawn;
