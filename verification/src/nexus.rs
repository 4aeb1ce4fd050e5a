//! The Nexus runtime's decisions: where its state and sockets live, how a
//! frame's length prefix is bounded, which relative paths stay inside their
//! root, which configurations it accepts, and which subscribers hear what.

use vstd::prelude::*;
use crate::canonical::chars_of;
use crate::text::copy_text;
use crate::generation::put;

verus! {

/// The largest frame body a socket reads: 16 MiB.
pub const MAX_FRAME_BYTES: usize = 16777216;

// ===========================================================================
// Paths
// ===========================================================================

/// Where the Nexus keeps its state and listens.
#[derive(Debug)]
pub struct Paths {
    pub state_path: String,
    pub ordinary_socket: String,
    pub meta_socket: String,
    pub source_manifest: String,
}

/// `base` joined with a relative `name`: a separator is put between them
/// unless `base` is empty or already ends in one.
pub open spec fn joined_path(base: Seq<char>, name: Seq<char>) -> Seq<char> {
    if base.len() == 0 || base[base.len() - 1] == '/' {
        base + name
    } else {
        base + seq!['/'] + name
    }
}

/// Join a relative name onto a path.
pub fn join_path(base: &String, name: &str) -> (r: String)
    ensures
        r@ == joined_path(base@, name@),
{
    let s = chars_of(base.as_str());
    let mut r = copy_text(base);
    if !(s.len() == 0 || s[s.len() - 1] == '/') {
        put(&mut r, "/");
        proof {
            reveal_strlit("/");
            assert("/"@ =~= seq!['/']);
        }
    }
    put(&mut r, name);
    r
}

/// The errors of the Nexus runtime.
#[derive(Clone, Copy, Debug, PartialEq, Eq, Structural)]
pub enum RuntimeError {
    /// `HOME` is required when `XDG_STATE_HOME` is unset.
    MissingHome,
    /// A filesystem operation failed.
    Filesystem,
    /// The storage engine failed.
    Engine,
    /// A runtime string is not representable by Datomic.
    String,
    /// The durable configuration singleton has this many rows.
    ConfigurationInvariant(usize),
    /// The actor mailbox closed.
    ActorClosed,
}

pub open spec fn state_root_of(state_home: Seq<char>) -> Seq<char> {
    joined_path(state_home, "ethos-zero-nexus"@)
}

impl Paths {
    /// The paths under a state home and a runtime root.
    pub fn from_roots(state_home: &String, runtime_root: &String) -> (r: Paths)
        ensures
            r.state_path@ == joined_path(state_root_of(state_home@), "ethos-zero-nexus.sema"@),
            r.ordinary_socket@ == joined_path(runtime_root@, "ethos-zero-nexus/ethos-zero.sock"@),
            r.meta_socket@ == joined_path(runtime_root@, "ethos-zero-nexus/meta-ethos-zero.sock"@),
            r.source_manifest@ == joined_path(state_root_of(state_home@), "sources.datom"@),
    {
        let state_root = join_path(state_home, "ethos-zero-nexus");
        Paths {
            state_path: join_path(&state_root, "ethos-zero-nexus.sema"),
            ordinary_socket: join_path(runtime_root, "ethos-zero-nexus/ethos-zero.sock"),
            meta_socket: join_path(runtime_root, "ethos-zero-nexus/meta-ethos-zero.sock"),
            source_manifest: join_path(&state_root, "sources.datom"),
        }
    }
}

impl Paths {
    /// The configuration a fresh Nexus starts with: its own socket paths and
    /// source manifest.
    pub fn configuration(&self) -> (r: Configuration)
        ensures
            r.ordinary_socket_path@ == self.ordinary_socket@,
            r.meta_socket_path@ == self.meta_socket@,
            r.source_manifest_path@ == self.source_manifest@,
    {
        Configuration {
            ordinary_socket_path: copy_text(&self.ordinary_socket),
            meta_socket_path: copy_text(&self.meta_socket),
            source_manifest_path: copy_text(&self.source_manifest),
        }
    }
}

/// The state home the environment gives: `XDG_STATE_HOME`, else
/// `HOME/.local/state`; none without either.
pub open spec fn state_home_of(xdg_state_home: Option<Seq<char>>, home: Option<Seq<char>>) -> Option<
    Seq<char>,
> {
    match xdg_state_home {
        Some(s) => Some(s),
        None => match home {
            Some(h) => Some(joined_path(h, ".local/state"@)),
            None => None,
        },
    }
}

pub open spec fn text_of(o: Option<String>) -> Option<Seq<char>> {
    match o {
        Some(s) => Some(s@),
        None => None,
    }
}

/// The Nexus paths from the environment's `XDG_STATE_HOME`, `HOME` and
/// `XDG_RUNTIME_DIR`: the runtime root falls back to the state home.
pub fn run_default(
    xdg_state_home: Option<String>,
    home: Option<String>,
    xdg_runtime_dir: Option<String>,
) -> (r: Result<Paths, RuntimeError>)
    ensures
        match state_home_of(text_of(xdg_state_home), text_of(home)) {
            None => r == Err::<Paths, RuntimeError>(RuntimeError::MissingHome),
            Some(state_home) => {
                let runtime_root = match xdg_runtime_dir {
                    Some(d) => d@,
                    None => state_home,
                };
                r matches Ok(p) && p.state_path@ == joined_path(
                    state_root_of(state_home),
                    "ethos-zero-nexus.sema"@,
                ) && p.ordinary_socket@ == joined_path(
                    runtime_root,
                    "ethos-zero-nexus/ethos-zero.sock"@,
                ) && p.meta_socket@ == joined_path(
                    runtime_root,
                    "ethos-zero-nexus/meta-ethos-zero.sock"@,
                ) && p.source_manifest@ == joined_path(state_root_of(state_home), "sources.datom"@)
            },
        },
{
    let state_home = match xdg_state_home {
        Some(s) => s,
        None => match home {
            Some(h) => join_path(&h, ".local/state"),
            None => {
                return Err(RuntimeError::MissingHome);
            },
        },
    };
    let runtime_root = match xdg_runtime_dir {
        Some(d) => d,
        None => copy_text(&state_home),
    };
    Ok(Paths::from_roots(&state_home, &runtime_root))
}

// ===========================================================================
// Frames
// ===========================================================================

/// The length a frame's four-byte little-endian prefix announces.
pub open spec fn prefix_length(prefix: [u8; 4]) -> nat {
    (prefix[0] as nat) + (prefix[1] as nat) * 256 + (prefix[2] as nat) * 65536 + (prefix[3] as nat)
        * 16777216
}

/// `std::io::Error`, the error of the socket reads.
#[verifier::external_type_specification]
#[verifier::external_body]
pub struct ExIoError(std::io::Error);

/// Calls `std::io::Error::new` with `ErrorKind::InvalidData` and the given
/// message; nothing is claimed of the error it makes.
#[verifier::external_body]
fn invalid_data(message: &str) -> std::io::Error {
    std::io::Error::new(std::io::ErrorKind::InvalidData, message.to_owned())
}

/// The announced length of a frame, refused past [`MAX_FRAME_BYTES`] before
/// anything is allocated for it.
pub fn frame_length(prefix: [u8; 4]) -> (r: Result<usize, std::io::Error>)
    ensures
        match r {
            Ok(n) => n == prefix_length(prefix) && prefix_length(prefix) <= MAX_FRAME_BYTES,
            Err(_) => prefix_length(prefix) > MAX_FRAME_BYTES,
        },
{
    let length: u64 = (prefix[0] as u64) + (prefix[1] as u64) * 256 + (prefix[2] as u64) * 65536
        + (prefix[3] as u64) * 16777216;
    if length <= MAX_FRAME_BYTES as u64 {
        Ok(length as usize)
    } else {
        Err(invalid_data("frame exceeds maximum length"))
    }
}

// ===========================================================================
// Contained relative paths
// ===========================================================================

/// Whether a `..` component begins at position `i`.
pub open spec fn parent_component_at(s: Seq<char>, i: int) -> bool {
    0 <= i && i + 1 < s.len() && s[i] == '.' && s[i + 1] == '.' && (i == 0 || s[i - 1] == '/') && (i
        + 2 == s.len() || s[i + 2] == '/')
}

/// Whether the components of a path, split at `/`, include `..`.
pub open spec fn has_parent_component(s: Seq<char>) -> bool {
    exists|i: int| #[trigger] parent_component_at(s, i)
}

/// A relative path that stays under its root: not empty, not absolute, and
/// no component leaves its parent.
pub open spec fn contained(s: Seq<char>) -> bool {
    s.len() > 0 && s[0] != '/' && !has_parent_component(s)
}

/// The path itself where it is contained (see [`contained`]); none otherwise.
pub fn contained_relative(value: &String) -> (r: Option<String>)
    ensures
        match r {
            Some(p) => contained(value@) && p@ == value@,
            None => !contained(value@),
        },
{
    let s = chars_of(value.as_str());
    if s.len() == 0 || s[0] == '/' {
        return None;
    }
    let mut i: usize = 0;
    while i < s.len() - 1
        invariant
            s@ == value@,
            s@.len() > 0,
            forall|j: int| 0 <= j < i ==> !#[trigger] parent_component_at(s@, j),
        decreases s@.len() - i,
    {
        if s[i] == '.' && s[i + 1] == '.' && (i == 0 || s[i - 1] == '/') && (i + 2 == s.len() || s[i
            + 2] == '/') {
            proof {
                assert(parent_component_at(s@, i as int));
            }
            return None;
        }
        i += 1;
    }
    proof {
        assert forall|j: int| !parent_component_at(s@, j) by {
            if parent_component_at(s@, j) {
                assert(j < i);
            }
        }
    }
    Some(copy_text(value))
}

// ===========================================================================
// Configuration
// ===========================================================================

/// The Nexus configuration: where its sockets live and its source manifest.
#[derive(Debug)]
pub struct Configuration {
    pub ordinary_socket_path: String,
    pub meta_socket_path: String,
    pub source_manifest_path: String,
}

/// Why a configuration was refused.
#[derive(Clone, Copy, Debug, PartialEq, Eq, Structural)]
pub enum ConfigurationRefusal {
    InvalidOrdinarySocketPath,
    InvalidMetaSocketPath,
    InvalidSourceManifestPath,
    UnreadableSourceManifest,
}

/// What a requested configuration is answered, against the current one: the
/// paths must be given, and the socket paths cannot change while the Nexus
/// serves them.
pub open spec fn configuration_refusal(current: Configuration, value: Configuration) -> Option<
    ConfigurationRefusal,
> {
    if value.ordinary_socket_path@.len() == 0 {
        Some(ConfigurationRefusal::InvalidOrdinarySocketPath)
    } else if value.meta_socket_path@.len() == 0 {
        Some(ConfigurationRefusal::InvalidMetaSocketPath)
    } else if value.source_manifest_path@.len() == 0 {
        Some(ConfigurationRefusal::InvalidSourceManifestPath)
    } else if value.ordinary_socket_path@ != current.ordinary_socket_path@ {
        Some(ConfigurationRefusal::InvalidOrdinarySocketPath)
    } else if value.meta_socket_path@ != current.meta_socket_path@ {
        Some(ConfigurationRefusal::InvalidMetaSocketPath)
    } else {
        None
    }
}

pub(crate) fn is_empty_text(s: &String) -> (r: bool)
    ensures
        r == (s@.len() == 0),
{
    chars_of(s.as_str()).len() == 0
}

/// Decide a requested configuration: the refusal it earns, or none when it
/// is accepted.
pub fn configure(current: &Configuration, value: &Configuration) -> (r: Option<ConfigurationRefusal>)
    ensures
        r == configuration_refusal(*current, *value),
{
    if is_empty_text(&value.ordinary_socket_path) {
        return Some(ConfigurationRefusal::InvalidOrdinarySocketPath);
    }
    if is_empty_text(&value.meta_socket_path) {
        return Some(ConfigurationRefusal::InvalidMetaSocketPath);
    }
    if is_empty_text(&value.source_manifest_path) {
        return Some(ConfigurationRefusal::InvalidSourceManifestPath);
    }
    if value.ordinary_socket_path != current.ordinary_socket_path {
        return Some(ConfigurationRefusal::InvalidOrdinarySocketPath);
    }
    if value.meta_socket_path != current.meta_socket_path {
        return Some(ConfigurationRefusal::InvalidMetaSocketPath);
    }
    None
}

/// A configuration that the Nexus accepts is accepted again once it holds:
/// configuring is idempotent.
pub proof fn lemma_configure_idempotent(current: Configuration, value: Configuration)
    requires
        configuration_refusal(current, value) is None,
    ensures
        configuration_refusal(value, value) is None,
{
}

} // verus!
