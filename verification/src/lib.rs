//! Core of a road-side-unit supervisor: the plugin roster and its lifecycle
//! decisions, the traffic-light phase engine, and the decoding of the
//! configuration and control messages that drive them.
//!
//! The library performs no I/O. Whoever embeds it reads files, opens
//! libraries, runs threads and serves HTTP, and hands the library plain
//! values; the library answers with the next state and with what to do next.

pub mod config;
pub mod control;
pub mod json;
pub mod light;
pub mod periodic;
pub mod plugin;
pub mod pose;
pub mod text;
pub mod yaml;
