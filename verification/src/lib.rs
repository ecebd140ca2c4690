//! `gb`: a manifest-driven build orchestrator for GHDL, with its decisions
//! stated as contracts and proved.
//!
//! The crate decides and the caller acts: every function here maps plain
//! values to plain values. Spawning the toolchain, touching the file system
//! and printing are left to the program built around the crate.

pub mod text;
pub mod error;
pub mod command;
pub mod catalog;
pub mod paths;
pub mod relocator;
pub mod platform;
pub mod pipeline;
pub mod resolver;
pub mod manifest;
pub mod preflight;
