//! How a benchmark gets its work onto a runtime: polled inline on the calling
//! thread, or submitted to the selected pool. The two modes measure different
//! things, so every result row records which one produced it.

use vstd::prelude::*;

use crate::text::str_eq;

verus! {

/// Where a benchmark's operations are polled.
#[derive(Debug, Clone, Copy, PartialEq, Eq, Structural)]
pub enum Dispatch {
    /// Polled on the calling thread. No scheduler is involved.
    Inline,
    /// Submitted to the selected flavor's pool.
    Pool,
}

/// The spelling that selects a mode, and what a results row records.
pub open spec fn dispatch_name(mode: Dispatch) -> Seq<char> {
    match mode {
        Dispatch::Inline => "inline"@,
        Dispatch::Pool => "pool"@,
    }
}

/// The mode a setting selects: inline when nothing is set, otherwise the
/// mode whose name it is, and none for any other value.
pub open spec fn dispatch_selected(setting: Option<Seq<char>>) -> Option<Dispatch> {
    match setting {
        None => Some(Dispatch::Inline),
        Some(value) => if value == "inline"@ {
            Some(Dispatch::Inline)
        } else if value == "pool"@ {
            Some(Dispatch::Pool)
        } else {
            None
        },
    }
}

impl Dispatch {
    /// The spelling that selects this mode, and what a results row records.
    pub fn name(self) -> (name: &'static str)
        ensures
            name@ == dispatch_name(self),
    {
        match self {
            Dispatch::Inline => "inline",
            Dispatch::Pool => "pool",
        }
    }

    /// The mode selected by the process's setting, if it names one; `None`
    /// for an unrecognised value, which the caller must refuse rather than
    /// silently fall back on the default.
    pub fn from_setting(setting: Option<&str>) -> (mode: Option<Dispatch>)
        ensures
            mode == dispatch_selected(
                match setting {
                    Some(value) => Some(value@),
                    None => None,
                },
            ),
    {
        match setting {
            None => Some(Dispatch::Inline),
            Some(value) => if str_eq(value, "inline") {
                Some(Dispatch::Inline)
            } else if str_eq(value, "pool") {
                Some(Dispatch::Pool)
            } else {
                None
            },
        }
    }
}

/// A mode's own name selects it.
pub proof fn lemma_name_selects_mode(mode: Dispatch)
    ensures
        dispatch_selected(Some(dispatch_name(mode))) == Some(mode),
{
    reveal_strlit("inline");
    reveal_strlit("pool");
    assert("pool"@.len() != "inline"@.len());
}

} // verus!
