//! The YCSB A-F workloads: their mixes, key distributions and operation
//! streams.

use vstd::prelude::*;

use crate::text::{lowercase, lowercase_eq, uppercase, uppercase_eq};

pub mod generator;

pub use generator::{
    generate_streams,
    make_fields,
    AcknowledgedKeyspace,
    GeneratedWorkload,
    Operation,
    OperationKind,
    FIELD_COUNT,
};

verus! {

#[derive(Clone, Copy, Debug, PartialEq, Eq, Structural)]
pub enum Workload {
    A,
    B,
    C,
    D,
    E,
    F,
}

#[derive(Clone, Copy, Debug, PartialEq, Eq, Structural)]
pub enum Distribution {
    Uniform,
    Zipfian,
    Latest,
}

/// Workload D reads what was inserted most recently; every other workload
/// reads a Zipfian hot set.
pub open spec fn default_distribution_of(workload: Workload) -> Distribution {
    match workload {
        Workload::D => Distribution::Latest,
        _ => Distribution::Zipfian,
    }
}

pub open spec fn workload_name(workload: Workload) -> Seq<char> {
    match workload {
        Workload::A => "A"@,
        Workload::B => "B"@,
        Workload::C => "C"@,
        Workload::D => "D"@,
        Workload::E => "E"@,
        Workload::F => "F"@,
    }
}

pub open spec fn distribution_name(distribution: Distribution) -> Seq<char> {
    match distribution {
        Distribution::Uniform => "uniform"@,
        Distribution::Zipfian => "zipfian"@,
        Distribution::Latest => "latest"@,
    }
}

/// The lowercased spellings that select a distribution.
pub open spec fn selects_distribution(lowered: Seq<char>, distribution: Distribution) -> bool {
    match distribution {
        Distribution::Uniform => lowered == "uniform"@,
        Distribution::Zipfian => lowered == "zipf"@ || lowered == "zipfian"@,
        Distribution::Latest => lowered == "latest"@,
    }
}

/// The workload an uppercased spelling selects, if any.
pub open spec fn workload_named(uppered: Seq<char>) -> Option<Workload> {
    if uppered == "A"@ {
        Some(Workload::A)
    } else if uppered == "B"@ {
        Some(Workload::B)
    } else if uppered == "C"@ {
        Some(Workload::C)
    } else if uppered == "D"@ {
        Some(Workload::D)
    } else if uppered == "E"@ {
        Some(Workload::E)
    } else if uppered == "F"@ {
        Some(Workload::F)
    } else {
        None
    }
}

/// The distribution a lowercased spelling selects, if any.
pub open spec fn distribution_named(lowered: Seq<char>) -> Option<Distribution> {
    if lowered == "uniform"@ {
        Some(Distribution::Uniform)
    } else if lowered == "zipf"@ || lowered == "zipfian"@ {
        Some(Distribution::Zipfian)
    } else if lowered == "latest"@ {
        Some(Distribution::Latest)
    } else {
        None
    }
}

impl Workload {
    pub fn default_distribution(self) -> (distribution: Distribution)
        ensures
            distribution == default_distribution_of(self),
    {
        match self {
            Workload::D => Distribution::Latest,
            Workload::A | Workload::B | Workload::C | Workload::E | Workload::F => {
                Distribution::Zipfian
            },
        }
    }

    pub fn as_str(self) -> (name: &'static str)
        ensures
            name@ == workload_name(self),
    {
        match self {
            Workload::A => "A",
            Workload::B => "B",
            Workload::C => "C",
            Workload::D => "D",
            Workload::E => "E",
            Workload::F => "F",
        }
    }

    pub fn to_string(&self) -> (name: String)
        ensures
            name@ == workload_name(*self),
    {
        String::from_str(self.as_str())
    }

    /// Parses a workload letter, ignoring ASCII case.
    pub fn parse(value: &str) -> (parsed: Result<Workload, String>)
        ensures
            parsed matches Ok(workload) ==> uppercase(value@) == workload_name(workload),
            parsed matches Ok(workload) ==> workload_named(uppercase(value@)) == Some(workload),
            parsed is Err <==> workload_named(uppercase(value@)) is None,
            parsed is Err <==> (forall|workload: Workload|
                uppercase(value@) != #[trigger] workload_name(workload)),
            parsed matches Err(message) ==> message@ == "unknown YCSB workload: "@ + value@,
    {
        if uppercase_eq(value, "A") {
            assert(uppercase(value@) == workload_name(Workload::A));
            Ok(Workload::A)
        } else if uppercase_eq(value, "B") {
            assert(uppercase(value@) == workload_name(Workload::B));
            Ok(Workload::B)
        } else if uppercase_eq(value, "C") {
            assert(uppercase(value@) == workload_name(Workload::C));
            Ok(Workload::C)
        } else if uppercase_eq(value, "D") {
            assert(uppercase(value@) == workload_name(Workload::D));
            Ok(Workload::D)
        } else if uppercase_eq(value, "E") {
            assert(uppercase(value@) == workload_name(Workload::E));
            Ok(Workload::E)
        } else if uppercase_eq(value, "F") {
            assert(uppercase(value@) == workload_name(Workload::F));
            Ok(Workload::F)
        } else {
            proof {
                assert forall|workload: Workload|
                    uppercase(value@) != #[trigger] workload_name(workload) by {
                    match workload {
                        Workload::A => {},
                        Workload::B => {},
                        Workload::C => {},
                        Workload::D => {},
                        Workload::E => {},
                        Workload::F => {},
                    }
                }
            }
            let mut message = String::from_str("unknown YCSB workload: ");
            message.append(value);
            Err(message)
        }
    }
}

impl core::str::FromStr for Workload {
    type Err = String;

    fn from_str(value: &str) -> (parsed: Result<Workload, String>)
        ensures
            parsed matches Ok(workload) ==> workload_named(uppercase(value@)) == Some(workload),
            parsed is Err <==> workload_named(uppercase(value@)) is None,
            parsed matches Err(message) ==> message@ == "unknown YCSB workload: "@ + value@,
    {
        Workload::parse(value)
    }
}

impl Distribution {
    pub fn as_str(self) -> (name: &'static str)
        ensures
            name@ == distribution_name(self),
    {
        match self {
            Distribution::Uniform => "uniform",
            Distribution::Zipfian => "zipfian",
            Distribution::Latest => "latest",
        }
    }

    pub fn to_string(&self) -> (name: String)
        ensures
            name@ == distribution_name(*self),
    {
        String::from_str(self.as_str())
    }

    /// Parses a distribution name or alias, ignoring ASCII case.
    pub fn parse(value: &str) -> (parsed: Result<Distribution, String>)
        ensures
            parsed matches Ok(distribution) ==> selects_distribution(
                lowercase(value@),
                distribution,
            ),
            parsed matches Ok(distribution) ==> distribution_named(lowercase(value@)) == Some(
                distribution,
            ),
            parsed is Err <==> distribution_named(lowercase(value@)) is None,
            parsed is Err <==> (forall|distribution: Distribution|
                !#[trigger] selects_distribution(lowercase(value@), distribution)),
            parsed matches Err(message) ==> message@ == "unknown distribution: "@ + value@,
    {
        if lowercase_eq(value, "uniform") {
            assert(selects_distribution(lowercase(value@), Distribution::Uniform));
            Ok(Distribution::Uniform)
        } else if lowercase_eq(value, "zipf") || lowercase_eq(value, "zipfian") {
            assert(selects_distribution(lowercase(value@), Distribution::Zipfian));
            Ok(Distribution::Zipfian)
        } else if lowercase_eq(value, "latest") {
            assert(selects_distribution(lowercase(value@), Distribution::Latest));
            Ok(Distribution::Latest)
        } else {
            proof {
                assert forall|distribution: Distribution|
                    !#[trigger] selects_distribution(lowercase(value@), distribution) by {
                    match distribution {
                        Distribution::Uniform => {},
                        Distribution::Zipfian => {},
                        Distribution::Latest => {},
                    }
                }
            }
            let mut message = String::from_str("unknown distribution: ");
            message.append(value);
            Err(message)
        }
    }
}

impl core::str::FromStr for Distribution {
    type Err = String;

    fn from_str(value: &str) -> (parsed: Result<Distribution, String>)
        ensures
            parsed matches Ok(distribution) ==> distribution_named(lowercase(value@)) == Some(
                distribution,
            ),
            parsed is Err <==> distribution_named(lowercase(value@)) is None,
            parsed matches Err(message) ==> message@ == "unknown distribution: "@ + value@,
    {
        Distribution::parse(value)
    }
}


/// Why a run of `workload` on `threads` workers is refused, if it is: every
/// mix but C interleaves reads with page mutation, which is only safe to run
/// concurrently where rows are published versioned.
pub open spec fn concurrency_refusal_text(
    workload: Workload,
    threads: usize,
    versioned_row_publication: bool,
) -> Option<Seq<char>> {
    if threads > 1 && workload != Workload::C && !versioned_row_publication {
        Some(
            "concurrent YCSB "@ + workload_name(workload)
                + " mixes reads with page mutation; rerun with --features versioned-row-publication or use --threads 1"@,
        )
    } else {
        None
    }
}

/// Refuses a concurrent mix that reads while pages mutate, unless rows are
/// published versioned; the read-only mix C may always run concurrently.
pub fn concurrency_refusal(workload: Workload, threads: usize, versioned_row_publication: bool) -> (refusal: Option<String>)
    ensures
        refusal is Some <==> (threads > 1 && workload != Workload::C && !versioned_row_publication),
        match (refusal, concurrency_refusal_text(workload, threads, versioned_row_publication)) {
            (Some(m), Some(t)) => m@ == t,
            (None, None) => true,
            _ => false,
        },
{
    if threads > 1 && workload != Workload::C && !versioned_row_publication {
        let mut message = String::from_str("concurrent YCSB ");
        message.append(workload.as_str());
        message.append(
            " mixes reads with page mutation; rerun with --features versioned-row-publication or use --threads 1",
        );
        Some(message)
    } else {
        None
    }
}

/// A workload's own letter and a distribution's own name select them: what a
/// result row records parses back to the same setting.
pub proof fn lemma_names_parse_back(workload: Workload, distribution: Distribution)
    ensures
        workload_named(uppercase(workload_name(workload))) == Some(workload),
        distribution_named(lowercase(distribution_name(distribution))) == Some(distribution),
{
    reveal_strlit("A");
    reveal_strlit("B");
    reveal_strlit("C");
    reveal_strlit("D");
    reveal_strlit("E");
    reveal_strlit("F");
    reveal_strlit("uniform");
    reveal_strlit("zipf");
    reveal_strlit("zipfian");
    reveal_strlit("latest");
    assert(uppercase("A"@) =~= "A"@);
    assert(uppercase("B"@) =~= "B"@);
    assert(uppercase("C"@) =~= "C"@);
    assert(uppercase("D"@) =~= "D"@);
    assert(uppercase("E"@) =~= "E"@);
    assert(uppercase("F"@) =~= "F"@);
    assert(lowercase("uniform"@) =~= "uniform"@);
    assert(lowercase("zipfian"@) =~= "zipfian"@);
    assert(lowercase("latest"@) =~= "latest"@);
    assert("zipfian"@[0] != "uniform"@[0]);
    assert("B"@[0] != "A"@[0]);
    assert("C"@[0] != "A"@[0] && "C"@[0] != "B"@[0]);
    assert("D"@[0] != "A"@[0] && "D"@[0] != "B"@[0] && "D"@[0] != "C"@[0]);
    assert("E"@[0] != "A"@[0] && "E"@[0] != "B"@[0] && "E"@[0] != "C"@[0] && "E"@[0] != "D"@[0]);
    assert("F"@[0] != "A"@[0] && "F"@[0] != "B"@[0] && "F"@[0] != "C"@[0] && "F"@[0] != "D"@[0]
        && "F"@[0] != "E"@[0]);
    assert("latest"@.len() != "uniform"@.len() && "latest"@.len() != "zipf"@.len()
        && "latest"@.len() != "zipfian"@.len());
}

} // verus!
