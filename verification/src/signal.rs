//! The values the ordinary Nexus socket carries: requests, replies, the
//! refusals it answers before any work, and the events its subscribers hear.

use vstd::prelude::*;

verus! {

/// A file named by its source and its path relative to that source's root.
#[derive(Debug, PartialEq, Eq)]
pub struct FileLocation {
    pub source_name: String,
    pub relative_path: String,
}

/// Generate the Rust of one Ethos file.
#[derive(Debug, PartialEq, Eq)]
pub struct GenerationRequest {
    pub file: FileLocation,
}

/// Hear the generation events of one file.
#[derive(Debug, PartialEq, Eq)]
pub struct SubscriptionRequest {
    pub file: FileLocation,
}

/// A file generated and the artifact written for it.
#[derive(Debug, PartialEq, Eq)]
pub struct Generation {
    pub file: FileLocation,
    pub artifact: String,
}

/// One stored assembly, as an observation lists it.
#[derive(Debug, PartialEq, Eq)]
pub struct AssemblySummary {
    pub file: FileLocation,
    pub artifact: String,
}

/// Where in the source a syntax fault lies, and why.
#[derive(Debug, PartialEq, Eq)]
pub struct SyntaxFault {
    pub extent_start: u64,
    pub extent_end: u64,
    pub reason: String,
}

/// Why the Rust projection was refused.
#[derive(Debug, PartialEq, Eq)]
pub struct ProjectionFault {
    pub reason: String,
}

/// Why a generation was not carried out.
#[derive(Debug, PartialEq, Eq)]
pub enum GenerationRefusal {
    InvalidRelativePath(String),
    ImportUnresolved(FileLocation),
    UnknownSource(String),
    FileAbsent(FileLocation),
    InvalidEthos(SyntaxFault),
    RustProjectionRejected(ProjectionFault),
}

/// A request on the ordinary socket.
#[derive(Debug, PartialEq, Eq)]
pub enum Request {
    /// Observe the stored assemblies.
    ObserveAssemblies,
    Subscribe(SubscriptionRequest),
    Unsubscribe(SubscriptionRequest),
    Generate(GenerationRequest),
}

/// A reply on the ordinary socket.
#[derive(Debug, PartialEq, Eq)]
pub enum Reply {
    /// The stored assemblies, ordered by source name then relative path.
    Observed(Vec<AssemblySummary>),
    Generated(Generation),
    GenerationRejected(GenerationRefusal),
}

/// What the ordinary socket answers before any work is done.
#[derive(Debug, PartialEq, Eq)]
pub enum Refusal {
    InvalidRelativePath(String),
}

/// An event a generation subscriber hears.
#[derive(Debug, PartialEq, Eq)]
pub enum Stream {
    GenerationStarted(GenerationRequest),
    GenerationCompleted(Generation),
    GenerationRefused(GenerationRefusal),
}

} // verus!
