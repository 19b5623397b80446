//! A process-supervision library: the lifecycle state machine of supervised
//! OS processes, the registry and control loop decisions that drive it, and
//! the semantic side of the control protocol.
//!
//! The library owns every decision: which transition a process exit causes,
//! when a start attempt is declared successful, how bounded retry is
//! consumed, when a graceful stop escalates to a kill, and what every
//! administrative request answers. The surrounding daemon performs the OS
//! effects (spawning, signalling, socket traffic) and reports their outcomes
//! back through the typed interfaces defined here.

pub mod action;
pub mod api;
pub mod config;
pub mod monitor;
pub mod task;
pub mod text;
