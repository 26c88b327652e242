//! Parameters of one YCSB run.

use vstd::prelude::*;

use crate::args::{invalid_value, invalid_value_message, parse_u64, parse_usize, unknown_option,
    unknown_option_message, unsigned_outcome};
use crate::text::{lowercase, uppercase};
use crate::ycsb::{distribution_named, workload_named, Distribution, Workload};

verus! {

/// A YCSB run. The Zipf exponent is not held here: it only parameterises the
/// floating-point rank table, which lives with the runner.
#[derive(Clone, Debug)]
pub struct Config {
    pub workload: Workload,
    pub records: u64,
    pub operations: u64,
    pub threads: usize,
    pub repetitions: usize,
    pub sample_every: u64,
    pub seed: u64,
    pub field_bytes: usize,
    pub scan_max: u64,
    pub distribution_override: Option<Distribution>,
}

impl Default for Config {
    fn default() -> (config: Config)
        ensures
            config.workload == Workload::A,
            config.records == 100_000,
            config.operations == 1_000_000,
            config.threads == 1,
            config.repetitions == 5,
            config.sample_every == 1_024,
            config.seed == 42,
            config.field_bytes == 100,
            config.scan_max == 100,
            config.distribution_override is None,
    {
        Config {
            workload: Workload::A,
            records: 100_000,
            operations: 1_000_000,
            threads: 1,
            repetitions: 5,
            sample_every: 1_024,
            seed: 42,
            field_bytes: 100,
            scan_max: 100,
            distribution_override: None,
        }
    }
}

/// The first count that is zero, in the order the runner checks them, named
/// by its option; or nothing when every count is positive.
pub open spec fn first_zero_option(config: Config) -> Option<Seq<char>> {
    if config.records == 0 {
        Some("--records must be greater than zero"@)
    } else if config.operations == 0 {
        Some("--operations must be greater than zero"@)
    } else if config.threads == 0 {
        Some("--threads must be greater than zero"@)
    } else if config.repetitions == 0 {
        Some("--repetitions must be greater than zero"@)
    } else if config.sample_every == 0 {
        Some("--sample-every must be greater than zero"@)
    } else if config.field_bytes == 0 {
        Some("--field-bytes must be greater than zero"@)
    } else if config.scan_max == 0 {
        Some("--scan-max must be greater than zero"@)
    } else {
        None
    }
}

/// The distribution keys are drawn from: the override, or the workload's own.
pub open spec fn effective_distribution(config: Config) -> Distribution {
    match config.distribution_override {
        Some(distribution) => distribution,
        None => crate::ycsb::default_distribution_of(config.workload),
    }
}

impl Config {
    /// Checks every count. The Zipf exponent's range is checked by the
    /// runner that holds it.
    pub fn validate(&self) -> (checked: Result<(), String>)
        ensures
            checked is Ok <==> first_zero_option(*self) is None,
            checked matches Err(message) ==> first_zero_option(*self) == Some(message@),
    {
        if self.records == 0 {
            return Err(String::from_str("--records must be greater than zero"));
        }
        if self.operations == 0 {
            return Err(String::from_str("--operations must be greater than zero"));
        }
        if self.threads == 0 {
            return Err(String::from_str("--threads must be greater than zero"));
        }
        if self.repetitions == 0 {
            return Err(String::from_str("--repetitions must be greater than zero"));
        }
        if self.sample_every == 0 {
            return Err(String::from_str("--sample-every must be greater than zero"));
        }
        if self.field_bytes == 0 {
            return Err(String::from_str("--field-bytes must be greater than zero"));
        }
        if self.scan_max == 0 {
            return Err(String::from_str("--scan-max must be greater than zero"));
        }
        Ok(())
    }

    pub fn distribution(&self) -> (distribution: Distribution)
        ensures
            distribution == effective_distribution(*self),
    {
        match self.distribution_override {
            Some(distribution) => distribution,
            None => self.workload.default_distribution(),
        }
    }
}


/// The number a flag's value names, or the refusal of it.
pub open spec fn count_arg(flag: Seq<char>, value: Seq<char>, max: nat) -> Result<nat, Seq<char>> {
    match unsigned_outcome(value, max) {
        Ok(n) => Ok(n),
        Err(error) => Err(invalid_value_message(flag, error)),
    }
}

/// The configuration after one `flag value` pair, or why the pair is
/// refused. The Zipf exponent is a floating-point flag and is read by the
/// runner that holds it.
pub open spec fn config_apply(config: Config, flag: Seq<char>, value: Seq<char>) -> Result<
    Config,
    Seq<char>,
> {
    if flag == "--workload"@ {
        match workload_named(uppercase(value)) {
            Some(workload) => Ok(Config { workload, ..config }),
            None => Err("unknown YCSB workload: "@ + value),
        }
    } else if flag == "--records"@ {
        match count_arg(flag, value, u64::MAX as nat) {
            Ok(n) => Ok(Config { records: n as u64, ..config }),
            Err(message) => Err(message),
        }
    } else if flag == "--operations"@ {
        match count_arg(flag, value, u64::MAX as nat) {
            Ok(n) => Ok(Config { operations: n as u64, ..config }),
            Err(message) => Err(message),
        }
    } else if flag == "--threads"@ {
        match count_arg(flag, value, usize::MAX as nat) {
            Ok(n) => Ok(Config { threads: n as usize, ..config }),
            Err(message) => Err(message),
        }
    } else if flag == "--repetitions"@ {
        match count_arg(flag, value, usize::MAX as nat) {
            Ok(n) => Ok(Config { repetitions: n as usize, ..config }),
            Err(message) => Err(message),
        }
    } else if flag == "--sample-every"@ {
        match count_arg(flag, value, u64::MAX as nat) {
            Ok(n) => Ok(Config { sample_every: n as u64, ..config }),
            Err(message) => Err(message),
        }
    } else if flag == "--seed"@ {
        match count_arg(flag, value, u64::MAX as nat) {
            Ok(n) => Ok(Config { seed: n as u64, ..config }),
            Err(message) => Err(message),
        }
    } else if flag == "--field-bytes"@ {
        match count_arg(flag, value, usize::MAX as nat) {
            Ok(n) => Ok(Config { field_bytes: n as usize, ..config }),
            Err(message) => Err(message),
        }
    } else if flag == "--scan-max"@ {
        match count_arg(flag, value, u64::MAX as nat) {
            Ok(n) => Ok(Config { scan_max: n as u64, ..config }),
            Err(message) => Err(message),
        }
    } else if flag == "--distribution"@ {
        match distribution_named(lowercase(value)) {
            Some(distribution) => Ok(Config { distribution_override: Some(distribution), ..config }),
            None => Err("unknown distribution: "@ + value),
        }
    } else {
        Err(unknown_option_message(flag))
    }
}

impl Config {
    /// Applies one `flag value` pair from the command line. A refused pair
    /// leaves the configuration as it was.
    pub fn apply(&mut self, flag: &str, value: &str) -> (applied: Result<(), String>)
        ensures
            match config_apply(*old(self), flag@, value@) {
                Ok(next) => applied is Ok && *final(self) == next,
                Err(message) => applied matches Err(m) && m@ == message && *final(self) == *old(self),
            },
    {
        if crate::text::str_eq(flag, "--workload") {
            match Workload::parse(value) {
                Ok(workload) => self.workload = workload,
                Err(message) => return Err(message),
            }
        } else if crate::text::str_eq(flag, "--records") {
            match parse_u64(value) {
                Ok(n) => self.records = n,
                Err(error) => return Err(invalid_value(flag, error)),
            }
        } else if crate::text::str_eq(flag, "--operations") {
            match parse_u64(value) {
                Ok(n) => self.operations = n,
                Err(error) => return Err(invalid_value(flag, error)),
            }
        } else if crate::text::str_eq(flag, "--threads") {
            match parse_usize(value) {
                Ok(n) => self.threads = n,
                Err(error) => return Err(invalid_value(flag, error)),
            }
        } else if crate::text::str_eq(flag, "--repetitions") {
            match parse_usize(value) {
                Ok(n) => self.repetitions = n,
                Err(error) => return Err(invalid_value(flag, error)),
            }
        } else if crate::text::str_eq(flag, "--sample-every") {
            match parse_u64(value) {
                Ok(n) => self.sample_every = n,
                Err(error) => return Err(invalid_value(flag, error)),
            }
        } else if crate::text::str_eq(flag, "--seed") {
            match parse_u64(value) {
                Ok(n) => self.seed = n,
                Err(error) => return Err(invalid_value(flag, error)),
            }
        } else if crate::text::str_eq(flag, "--field-bytes") {
            match parse_usize(value) {
                Ok(n) => self.field_bytes = n,
                Err(error) => return Err(invalid_value(flag, error)),
            }
        } else if crate::text::str_eq(flag, "--scan-max") {
            match parse_u64(value) {
                Ok(n) => self.scan_max = n,
                Err(error) => return Err(invalid_value(flag, error)),
            }
        } else if crate::text::str_eq(flag, "--distribution") {
            match Distribution::parse(value) {
                Ok(distribution) => self.distribution_override = Some(distribution),
                Err(message) => return Err(message),
            }
        } else {
            return Err(unknown_option(flag));
        }
        Ok(())
    }
}

} // verus!
