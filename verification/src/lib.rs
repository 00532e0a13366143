//! A backend-agnostic object storage library.
//!
//! Objects are addressed by hierarchical [`ObjectPath`](path::ObjectPath)
//! values and served by one of a fixed set of backends: the local
//! filesystem, or a networked object store reached over HTTPS. The
//! decision logic of every operation — path validation, listing filters,
//! deletion ordering, overwrite planning, the retry and pagination state
//! machines of the protocol client — lives here with machine-checked
//! contracts; the asynchronous transport that drives it is layered on
//! top by callers.

pub mod b2;
pub mod buffer;
pub mod error;
pub mod file;
pub mod fs;
pub mod limit;
pub mod merge;
pub mod object;
pub mod path;

use vstd::prelude::*;

verus! {

/// The character sequences of a list of segment strings.
pub open spec fn segs_view(parts: Seq<String>) -> Seq<Seq<char>> {
    parts.map_values(|p: String| p@)
}

/// Indexing through [`segs_view`] is indexing the underlying strings.
pub broadcast proof fn lemma_segs_view_index(parts: Seq<String>, i: int)
    requires
        0 <= i < parts.len(),
    ensures
        #[trigger] segs_view(parts)[i] == parts[i]@,
{
}

/// [`segs_view`] preserves length.
pub broadcast proof fn lemma_segs_view_len(parts: Seq<String>)
    ensures
        #[trigger] segs_view(parts).len() == parts.len(),
{
}

} // verus!
