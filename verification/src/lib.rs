//! Tagged filesystem indexer with a faceted search engine and a virtual
//! filesystem view.
//!
//! Directory trees are described by per-directory sidecar manifests holding
//! hierarchical tags. A traversal merges directory-scoped tags with
//! file-scoped overrides, and the resulting records feed a full-text,
//! faceted index. Queries mix free-text path terms with tag atoms, and the
//! tag hierarchy can be projected into a read-only virtual directory tree.

use vstd::prelude::*;

pub mod config;
pub mod doctags;
pub mod index;
pub mod query;
pub mod search;
pub mod store;
pub mod tags;
pub mod vfs;
pub mod walk;

verus! {

/// The error kinds surfaced by this crate.
///
/// Callers discriminate by kind: a malformed sidecar manifest, an index
/// directory without the management marker, an unparsable query (recoverable),
/// an index read or write failure (fatal), a filesystem failure, and a missed
/// per-entry lookup in the virtual filesystem.
#[derive(Clone, Copy, Debug, PartialEq, Eq, Structural)]
pub enum ErrorKind {
    InvalidManifest,
    NotAnIndex,
    BadQuery,
    IndexIO,
    FsError,
    EntryNotFound,
}

impl ErrorKind {
    /// A short description of the error kind.
    pub fn describe(&self) -> (r: &'static str)
        ensures
            r@.len() > 0,
    {
        let r = match self {
            ErrorKind::InvalidManifest => "invalid manifest",
            ErrorKind::NotAnIndex => "not a managed index directory",
            ErrorKind::BadQuery => "unparsable query",
            ErrorKind::IndexIO => "index read or write failure",
            ErrorKind::FsError => "filesystem failure",
            ErrorKind::EntryNotFound => "entry not found",
        };
        proof {
            reveal_strlit("invalid manifest");
            reveal_strlit("not a managed index directory");
            reveal_strlit("unparsable query");
            reveal_strlit("index read or write failure");
            reveal_strlit("filesystem failure");
            reveal_strlit("entry not found");
        }
        r
    }
}

} // verus!
