//! Which primary-index backend a key/value table uses, and how the choice is
//! named on the command line and in result rows.
//!
//! The tables and their drivers are declared by the storage engine's macros
//! and live with the binaries; every backend has the identical method
//! surface, so callers dispatch on [`IndexBackend`] uniformly.

use vstd::prelude::*;

use crate::text::str_eq;

verus! {

/// Selects which primary-index backend a KV driver uses.
#[derive(Clone, Copy, Debug, PartialEq, Eq, Structural)]
pub enum IndexBackend {
    /// The default primary index.
    WorktablesIndex,
    Congee,
    Arctic,
}

/// The index name a backend is selected and reported by.
pub open spec fn backend_label(backend: IndexBackend) -> Seq<char> {
    match backend {
        IndexBackend::WorktablesIndex => "worktables_index"@,
        IndexBackend::Congee => "congee"@,
        IndexBackend::Arctic => "arctic"@,
    }
}

/// The engine name a benchmark running on this backend reports.
pub open spec fn backend_benchmark_label(backend: IndexBackend) -> Seq<char> {
    match backend {
        IndexBackend::WorktablesIndex => "worktable"@,
        IndexBackend::Congee => "worktable-congee"@,
        IndexBackend::Arctic => "worktable-arctic"@,
    }
}

/// The backend a spelling selects: the label of each backend, plus `wti` and
/// `default` for the default one. Case matters.
pub open spec fn backend_named(value: Seq<char>) -> Option<IndexBackend> {
    if value == "worktables_index"@ || value == "wti"@ || value == "default"@ {
        Some(IndexBackend::WorktablesIndex)
    } else if value == "congee"@ {
        Some(IndexBackend::Congee)
    } else if value == "arctic"@ {
        Some(IndexBackend::Arctic)
    } else {
        None
    }
}

impl IndexBackend {
    pub const ALL: [IndexBackend; 3] = [
        IndexBackend::WorktablesIndex,
        IndexBackend::Congee,
        IndexBackend::Arctic,
    ];

    pub fn label(self) -> (label: &'static str)
        ensures
            label@ == backend_label(self),
    {
        match self {
            IndexBackend::WorktablesIndex => "worktables_index",
            IndexBackend::Congee => "congee",
            IndexBackend::Arctic => "arctic",
        }
    }

    pub fn benchmark_label(self) -> (label: &'static str)
        ensures
            label@ == backend_benchmark_label(self),
    {
        match self {
            IndexBackend::WorktablesIndex => "worktable",
            IndexBackend::Congee => "worktable-congee",
            IndexBackend::Arctic => "worktable-arctic",
        }
    }

    /// Parses the `--index-backend` value or a bench parameter.
    pub fn parse(value: &str) -> (parsed: Option<IndexBackend>)
        ensures
            parsed == backend_named(value@),
    {
        if str_eq(value, "worktables_index") || str_eq(value, "wti") || str_eq(value, "default") {
            Some(IndexBackend::WorktablesIndex)
        } else if str_eq(value, "congee") {
            Some(IndexBackend::Congee)
        } else if str_eq(value, "arctic") {
            Some(IndexBackend::Arctic)
        } else {
            None
        }
    }
}

/// Parsing a backend's own label gives that backend back.
pub proof fn lemma_label_round_trip(backend: IndexBackend)
    ensures
        backend_named(backend_label(backend)) == Some(backend),
{
    reveal_strlit("worktables_index");
    reveal_strlit("wti");
    reveal_strlit("default");
    reveal_strlit("congee");
    reveal_strlit("arctic");
    assert("congee"@[0] != "arctic"@[0]);
    assert("congee"@ != "worktables_index"@ && "congee"@ != "wti"@ && "congee"@ != "default"@);
    assert("arctic"@ != "worktables_index"@ && "arctic"@ != "wti"@ && "arctic"@ != "default"@);
}

} // verus!
