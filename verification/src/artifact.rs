//! Cargo metadata for component-owned Ethos sources, and checked generated
//! artifacts.

use vstd::prelude::*;
use crate::canonical::{chars_of, push_char};
use crate::generation::{put, put_text};
use crate::text::copy_text;

verus! {

/// A links name as Cargo writes it into an environment variable: `-`
/// becomes `_`, ASCII letters are upper-cased.
pub open spec fn normalized(c: char) -> char {
    if c == '-' {
        '_'
    } else if 'a' <= c <= 'z' {
        ((c as u32) - 32) as char
    } else {
        c
    }
}

pub open spec fn normalized_name(s: Seq<char>) -> Seq<char> {
    s.map_values(|c: char| normalized(c))
}

/// Cargo's discovery contract for component-owned Ethos source directories.
#[derive(Debug)]
pub struct CargoEthosSourceMetadata {
    pub links_name: String,
}

/// The environment variable Cargo sets for a dependency's Ethos source
/// directory.
pub open spec fn source_directory_variable(links_name: Seq<char>) -> Seq<char> {
    "DEP_"@ + normalized_name(links_name) + "_ETHOS_SOURCE_DIR"@
}

fn normalize_char(c: char) -> (r: char)
    ensures
        r == normalized(c),
{
    if c == '-' {
        '_'
    } else if 'a' <= c && c <= 'z' {
        ((c as u32 - 32) as u8) as char
    } else {
        c
    }
}

impl CargoEthosSourceMetadata {
    /// Bind dependency discovery to one Cargo `links` name.
    pub fn new(links_name: String) -> (r: CargoEthosSourceMetadata)
        ensures
            r.links_name@ == links_name@,
    {
        CargoEthosSourceMetadata { links_name }
    }

    /// The links name normalized for an environment variable.
    pub fn normalized_links_name(links_name: &String) -> (r: String)
        ensures
            r@ == normalized_name(links_name@),
    {
        let s = chars_of(links_name.as_str());
        let mut out = String::new();
        let mut i: usize = 0;
        while i < s.len()
            invariant
                i <= s@.len(),
                s@ == links_name@,
                out@ == normalized_name(s@.take(i as int)),
            decreases s@.len() - i,
        {
            push_char(&mut out, normalize_char(s[i]));
            proof {
                assert(normalized_name(s@.take(i + 1)) =~= normalized_name(s@.take(i as int)).push(
                    normalized(s@[i as int]),
                ));
            }
            i += 1;
        }
        proof {
            assert(s@.take(i as int) =~= s@);
        }
        out
    }

    /// The exact Cargo environment variable for the dependency's Ethos
    /// source directory.
    pub fn dependency_source_directory_variable(&self) -> (r: String)
        ensures
            r@ == source_directory_variable(self.links_name@),
    {
        let mut out = String::from_str("DEP_");
        put_text(&mut out, &Self::normalized_links_name(&self.links_name));
        put(&mut out, "_ETHOS_SOURCE_DIR");
        out
    }

    /// The build-script line that publishes an owned source directory.
    pub fn owned_source_directory_line(source_directory: &String) -> (r: String)
        ensures
            r@ == "cargo::metadata=ethos-source-dir="@ + source_directory@,
    {
        let mut out = String::from_str("cargo::metadata=ethos-source-dir=");
        put_text(&mut out, source_directory);
        out
    }

    /// The build-script line that reruns when Cargo reseats the
    /// dependency's published directory.
    pub fn dependency_rerun_line(&self) -> (r: String)
        ensures
            r@ == "cargo::rerun-if-env-changed="@ + source_directory_variable(self.links_name@),
    {
        let mut out = String::from_str("cargo::rerun-if-env-changed=");
        put_text(&mut out, &self.dependency_source_directory_variable());
        out
    }
}

/// One canonical projection paired with its checked-in path.
#[derive(Debug)]
pub struct GeneratedArtifact {
    pub path: String,
    pub content: String,
}

/// Failure while comparing or updating one canonical projection.
#[derive(Debug)]
pub enum BuildError {
    /// Existing generated content could not be read.
    ReadGeneratedArtifact { path: String },
    /// Canonical generated content could not be written.
    WriteGeneratedArtifact { path: String },
    /// Checked-in content differs from the canonical projection.
    StaleGeneratedArtifact { path: String },
}

impl GeneratedArtifact {
    /// Bind canonical content to the path that must carry it.
    pub fn new(path: String, content: String) -> (r: GeneratedArtifact)
        ensures
            r.path@ == path@,
            r.content@ == content@,
    {
        GeneratedArtifact { path, content }
    }

    /// The checked-in path.
    pub fn path(&self) -> (r: &String)
        ensures
            r@ == self.path@,
    {
        &self.path
    }

    /// The canonical content.
    pub fn content(&self) -> (r: &String)
        ensures
            r@ == self.content@,
    {
        &self.content
    }

    /// Whether the checked-in content, where there is a file, equals the
    /// canonical projection: a missing file does not.
    pub fn matches_existing(&self, existing: Option<&String>) -> (r: bool)
        ensures
            r == (existing matches Some(e) && e@ == self.content@),
    {
        match existing {
            Some(e) => *e == self.content,
            None => false,
        }
    }

    /// Require the checked-in content to equal the canonical projection; a
    /// missing or different file is stale.
    pub fn assert_matches_existing(&self, existing: Option<&String>) -> (r: Result<(), BuildError>)
        ensures
            (existing matches Some(e) && e@ == self.content@) ==> r is Ok,
            !(existing matches Some(e) && e@ == self.content@) ==> (r matches Err(
                BuildError::StaleGeneratedArtifact { path },
            ) && path@ == self.path@),
    {
        if self.matches_existing(existing) {
            Ok(())
        } else {
            Err(BuildError::StaleGeneratedArtifact { path: copy_text(&self.path) })
        }
    }
}

} // verus!
