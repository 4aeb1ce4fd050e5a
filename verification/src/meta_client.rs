//! The privileged edge client's decisions: which command lines it accepts,
//! where it finds the Nexus meta socket, and how it bounds a reply frame.

use vstd::prelude::*;
use crate::canonical::chars_of;
use crate::text::copy_text;
use crate::nexus::{joined_path, join_path, prefix_length, text_of, MAX_FRAME_BYTES};

verus! {

/// Whether a command-line value reads as a flag: it starts with `-`.
pub open spec fn is_flag(value: Seq<char>) -> bool {
    value.len() > 0 && value[0] == '-'
}

/// What the client answers a command line that is not one Datomic object.
pub open spec fn argument_refusal() -> Seq<char> {
    "accepts exactly one Datomic object and no flags"@
}

/// The one Datomic object of a command line: exactly one value, not a flag.
pub fn parse_arguments(values: &[String]) -> (r: Result<String, String>)
    ensures
        values@.len() == 1 && !is_flag(values@[0]@) ==> (r matches Ok(v) && v@ == values@[0]@),
        !(values@.len() == 1 && !is_flag(values@[0]@)) ==> (r matches Err(e) && e@
            == argument_refusal()),
{
    if values.len() == 1 {
        let first = chars_of(values[0].as_str());
        if !(first.len() > 0 && first[0] == '-') {
            return Ok(copy_text(&values[0]));
        }
    }
    Err(String::from_str("accepts exactly one Datomic object and no flags"))
}

/// What the client answers a reply frame past the bound.
pub open spec fn oversized_frame() -> Seq<char> {
    "Nexus frame exceeds maximum length"@
}

/// The announced length of a reply frame, refused past [`MAX_FRAME_BYTES`]
/// before anything is allocated for it.
pub fn frame_length(prefix: [u8; 4]) -> (r: Result<usize, String>)
    ensures
        prefix_length(prefix) <= MAX_FRAME_BYTES ==> (r matches Ok(n) && n == prefix_length(prefix)),
        prefix_length(prefix) > MAX_FRAME_BYTES ==> (r matches Err(e) && e@ == oversized_frame()),
{
    let length: u64 = (prefix[0] as u64) + (prefix[1] as u64) * 256 + (prefix[2] as u64) * 65536
        + (prefix[3] as u64) * 16777216;
    if length <= MAX_FRAME_BYTES as u64 {
        Ok(length as usize)
    } else {
        Err(String::from_str("Nexus frame exceeds maximum length"))
    }
}

/// The meta socket's directory root from the environment: `XDG_RUNTIME_DIR`,
/// else `XDG_STATE_HOME`, else `HOME/.local/state`.
pub open spec fn meta_root(
    xdg_runtime_dir: Option<Seq<char>>,
    xdg_state_home: Option<Seq<char>>,
    home: Option<Seq<char>>,
) -> Option<Seq<char>> {
    match xdg_runtime_dir {
        Some(d) => Some(d),
        None => match xdg_state_home {
            Some(s) => Some(s),
            None => match home {
                Some(h) => Some(joined_path(h, ".local/state"@)),
                None => None,
            },
        },
    }
}

/// What the client answers when the environment names no root.
pub open spec fn missing_root() -> Seq<char> {
    "XDG_RUNTIME_DIR, XDG_STATE_HOME, or HOME is required"@
}

/// Where the meta socket lives, from the environment's `XDG_RUNTIME_DIR`,
/// `XDG_STATE_HOME` and `HOME`.
pub fn socket_path(
    xdg_runtime_dir: Option<String>,
    xdg_state_home: Option<String>,
    home: Option<String>,
) -> (r: Result<String, String>)
    ensures
        match meta_root(text_of(xdg_runtime_dir), text_of(xdg_state_home), text_of(home)) {
            Some(root) => r matches Ok(p) && p@ == joined_path(
                root,
                "ethos-zero-nexus/meta-ethos-zero.sock"@,
            ),
            None => r matches Err(e) && e@ == missing_root(),
        },
{
    let root = match xdg_runtime_dir {
        Some(d) => d,
        None => match xdg_state_home {
            Some(s) => s,
            None => match home {
                Some(h) => join_path(&h, ".local/state"),
                None => {
                    return Err(String::from_str("XDG_RUNTIME_DIR, XDG_STATE_HOME, or HOME is required"));
                },
            },
        },
    };
    Ok(join_path(&root, "ethos-zero-nexus/meta-ethos-zero.sock"))
}

} // verus!
