//! The in-memory Nexus core: its configuration and the assemblies it has
//! generated, and what each request on its two sockets is answered.

use vstd::prelude::*;
use crate::actor::{
    configuration_view, copy_configuration, copy_location, location, MetaReply, MetaSelection,
};
use crate::nexus::{is_empty_text, Configuration, ConfigurationRefusal};
use crate::signal::{
    AssemblySummary, Generation, GenerationRefusal, GenerationRequest, ProjectionFault, Reply,
    SyntaxFault,
};
use crate::text::copy_text;

verus! {

/// The configuration and the generated assemblies, in the order generated.
#[derive(Debug)]
pub struct NexusCore {
    pub configuration: Configuration,
    pub assemblies: Vec<AssemblySummary>,
}

/// Where a core generation's outside work stopped.
#[derive(Clone, Copy, Debug, PartialEq, Eq, Structural)]
pub enum CoreOutcome {
    /// The source file could not be read.
    FileAbsent,
    /// The source is not a readable Ethos file.
    NotEmbodied,
    /// The Rust projection refused the file.
    ProjectionRejected,
    /// The Rust projection succeeded.
    Emitted,
}

/// The artifact every core generation names.
pub open spec fn core_artifact() -> Seq<char> {
    "src/generated/signal.rs"@
}

pub open spec fn assembly_view(a: AssemblySummary) -> ((Seq<char>, Seq<char>), Seq<char>) {
    (location(a.file), a.artifact@)
}

pub open spec fn assembly_views(s: Seq<AssemblySummary>) -> Seq<((Seq<char>, Seq<char>), Seq<char>)> {
    s.map_values(|a: AssemblySummary| assembly_view(a))
}

/// A fresh copy of an assembly.
pub fn copy_assembly(a: &AssemblySummary) -> (r: AssemblySummary)
    ensures
        assembly_view(r) == assembly_view(*a),
{
    AssemblySummary { file: copy_location(&a.file), artifact: copy_text(&a.artifact) }
}

impl NexusCore {
    /// A core with a configuration and no assemblies.
    pub fn new(configuration: Configuration) -> (r: NexusCore)
        ensures
            configuration_view(r.configuration) == configuration_view(configuration),
            r.assemblies@.len() == 0,
    {
        NexusCore { configuration, assemblies: Vec::new() }
    }

    /// The assemblies observed: those generated, in the order generated.
    pub fn observe(&self) -> (r: Reply)
        ensures
            r matches Reply::Observed(v) && assembly_views(v@) == assembly_views(
                self.assemblies@,
            ),
    {
        let mut out: Vec<AssemblySummary> = Vec::new();
        let mut i: usize = 0;
        while i < self.assemblies.len()
            invariant
                i <= self.assemblies@.len(),
                assembly_views(out@) == assembly_views(self.assemblies@.take(i as int)),
            decreases self.assemblies@.len() - i,
        {
            let ghost before = out@;
            out.push(copy_assembly(&self.assemblies[i]));
            proof {
                assert(assembly_views(out@) =~= assembly_views(before).push(
                    assembly_view(self.assemblies@[i as int]),
                ));
                assert(self.assemblies@.take(i + 1) =~= self.assemblies@.take(i as int).push(
                    self.assemblies@[i as int],
                ));
                assert(assembly_views(self.assemblies@.take(i + 1)) =~= assembly_views(
                    self.assemblies@.take(i as int),
                ).push(assembly_view(self.assemblies@[i as int])));
            }
            i += 1;
        }
        proof {
            assert(self.assemblies@.take(i as int) =~= self.assemblies@);
        }
        Reply::Observed(out)
    }

    /// Answer a generation from where its outside work stopped; an emitted
    /// file is recorded as an assembly.
    pub fn generate(&mut self, request: GenerationRequest, outcome: CoreOutcome) -> (r: Reply)
        ensures
            outcome == CoreOutcome::FileAbsent ==> (r matches Reply::GenerationRejected(
                GenerationRefusal::FileAbsent(f),
            ) && location(f) == location(request.file)),
            outcome == CoreOutcome::NotEmbodied ==> (r matches Reply::GenerationRejected(
                GenerationRefusal::InvalidEthos(fault),
            ) && fault.extent_start == 0 && fault.extent_end == 0 && fault.reason@
                == "Ethos source is not embodied"@),
            outcome == CoreOutcome::ProjectionRejected ==> (r matches Reply::GenerationRejected(
                GenerationRefusal::RustProjectionRejected(fault),
            ) && fault.reason@ == "Rust projection rejected"@),
            outcome == CoreOutcome::Emitted ==> (r matches Reply::Generated(g) && location(g.file)
                == location(request.file) && g.artifact@ == core_artifact()),
            outcome == CoreOutcome::Emitted ==> assembly_views(final(self).assemblies@)
                == assembly_views(old(self).assemblies@).push(
                (location(request.file), core_artifact()),
            ),
            outcome != CoreOutcome::Emitted ==> assembly_views(final(self).assemblies@)
                == assembly_views(old(self).assemblies@),
            configuration_view(final(self).configuration) == configuration_view(
                old(self).configuration,
            ),
    {
        match outcome {
            CoreOutcome::FileAbsent => Reply::GenerationRejected(
                GenerationRefusal::FileAbsent(request.file),
            ),
            CoreOutcome::NotEmbodied => Reply::GenerationRejected(
                GenerationRefusal::InvalidEthos(
                    SyntaxFault {
                        extent_start: 0,
                        extent_end: 0,
                        reason: String::from_str("Ethos source is not embodied"),
                    },
                ),
            ),
            CoreOutcome::ProjectionRejected => Reply::GenerationRejected(
                GenerationRefusal::RustProjectionRejected(
                    ProjectionFault { reason: String::from_str("Rust projection rejected") },
                ),
            ),
            CoreOutcome::Emitted => {
                let summary = AssemblySummary {
                    file: copy_location(&request.file),
                    artifact: String::from_str("src/generated/signal.rs"),
                };
                let ghost before = self.assemblies@;
                self.assemblies.push(summary);
                proof {
                    assert(assembly_views(self.assemblies@) =~= assembly_views(before).push(
                        (location(request.file), core_artifact()),
                    ));
                }
                Reply::Generated(
                    Generation {
                        file: request.file,
                        artifact: String::from_str("src/generated/signal.rs"),
                    },
                )
            },
        }
    }

    /// Configure the core: every path must be given; the configuration is
    /// then taken as it is.
    pub fn configure(&mut self, next: Configuration) -> (r: MetaReply)
        ensures
            next.ordinary_socket_path@.len() == 0 ==> (r matches MetaReply::ConfigurationRejected(
                e,
            ) && e == ConfigurationRefusal::InvalidOrdinarySocketPath),
            next.ordinary_socket_path@.len() != 0 && next.meta_socket_path@.len() == 0 ==> (r matches MetaReply::ConfigurationRejected(
                e,
            ) && e == ConfigurationRefusal::InvalidMetaSocketPath),
            next.ordinary_socket_path@.len() != 0 && next.meta_socket_path@.len() != 0
                && next.source_manifest_path@.len() == 0 ==> (r matches MetaReply::ConfigurationRejected(
                e,
            ) && e == ConfigurationRefusal::InvalidSourceManifestPath),
            next.ordinary_socket_path@.len() != 0 && next.meta_socket_path@.len() != 0
                && next.source_manifest_path@.len() != 0 ==> (r matches MetaReply::Configured(c)
                && configuration_view(c) == configuration_view(next) && configuration_view(
                final(self).configuration,
            ) == configuration_view(next)),
            r is ConfigurationRejected ==> configuration_view(final(self).configuration)
                == configuration_view(old(self).configuration),
            assembly_views(final(self).assemblies@) == assembly_views(old(self).assemblies@),
    {
        if is_empty_text(&next.ordinary_socket_path) {
            return MetaReply::ConfigurationRejected(ConfigurationRefusal::InvalidOrdinarySocketPath);
        }
        if is_empty_text(&next.meta_socket_path) {
            return MetaReply::ConfigurationRejected(ConfigurationRefusal::InvalidMetaSocketPath);
        }
        if is_empty_text(&next.source_manifest_path) {
            return MetaReply::ConfigurationRejected(
                ConfigurationRefusal::InvalidSourceManifestPath,
            );
        }
        self.configuration = copy_configuration(&next);
        MetaReply::Configured(next)
    }

    /// Observe the core's configuration, or its sources, of which it knows
    /// none.
    pub fn observe_meta(&self, selection: MetaSelection) -> (r: MetaReply)
        ensures
            selection == MetaSelection::Configuration ==> (r matches MetaReply::ObservedConfiguration(
                c,
            ) && configuration_view(c) == configuration_view(self.configuration)),
            selection == MetaSelection::Sources ==> (r matches MetaReply::ObservedSources(v)
                && v@.len() == 0),
    {
        match selection {
            MetaSelection::Configuration => MetaReply::ObservedConfiguration(
                copy_configuration(&self.configuration),
            ),
            MetaSelection::Sources => MetaReply::ObservedSources(Vec::new()),
        }
    }
}

/// What the ordinary socket answers a frame that is not a request.
pub fn malformed_ordinary_reply() -> (r: Reply)
    ensures
        r matches Reply::GenerationRejected(GenerationRefusal::InvalidEthos(fault))
            && fault.extent_start == 0 && fault.extent_end == 0 && fault.reason@
            == "invalid ordinary signal frame"@,
{
    Reply::GenerationRejected(
        GenerationRefusal::InvalidEthos(
            SyntaxFault {
                extent_start: 0,
                extent_end: 0,
                reason: String::from_str("invalid ordinary signal frame"),
            },
        ),
    )
}

/// What the meta socket answers a frame that is not a request.
pub fn malformed_meta_reply() -> (r: MetaReply)
    ensures
        r matches MetaReply::ConfigurationRejected(e) && e
            == ConfigurationRefusal::InvalidSourceManifestPath,
{
    MetaReply::ConfigurationRejected(ConfigurationRefusal::InvalidSourceManifestPath)
}

} // verus!
