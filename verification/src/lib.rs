//! Ethos-zero: the ethos schema language, version zero.
//!
//! Reads ethos, emits Rust. The layers:
//!   Text → Protoform (delineation)
//!   Protoform → File (the reader), then the file checked whole
//!   File → Protoform (protosization, the exact ascent)
//!   File → Rust text (the emitter)
//!
//! Around them: the generator's command line, the Interface dialect with its
//! realization and projections, and the decisions of the Nexus runtime and
//! its edge clients.

pub mod text;
pub mod protoform;
pub mod concept;
pub mod canonical;
pub mod reading;
pub mod reader;
pub mod naming;
pub mod checking;
pub mod conception;
pub mod protosizing;
pub mod emission;
pub mod generation;
pub mod describe;
pub mod command;
pub mod fault;
pub mod artifact;
pub mod fixture;
pub mod projection;
pub mod realization;
pub mod textualization;
pub mod round_trip;
pub mod signal;
pub mod cli;
pub mod nexus;
pub mod actor;
pub mod nexus_core;
pub mod meta_client;
