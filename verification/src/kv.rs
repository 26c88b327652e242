//! The shared embedded key/value workload: its configuration, the keys it
//! probes, and the values every engine stores, so that all engines produce
//! matching checksums for the same phases.

use vstd::prelude::*;
use vstd::bytes::{
    lemma_auto_spec_u64_to_from_le_bytes,
    spec_u64_from_le_bytes,
    spec_u64_to_le_bytes,
    u64_from_le_bytes,
    u64_to_le_bytes,
};
use vstd::slice::slice_subrange;
use vstd::string::{is_ascii_spec_bytes, StringSliceAdditionalSpecFns};
use vstd::utf8::is_ascii_chars;

use crate::rng::{below_draws, raw_draws, seed_state, state_after, below_state_after, Rng};
use crate::args::{
    args_text, invalid_value, invalid_value_message, is_help, is_help_flag, missing_value,
    missing_value_message, parse_u64, parse_usize, unknown_option, unknown_option_message,
    unsigned_outcome,
};
use crate::text::lowercase_eq;
use crate::text::lowercase;

verus! {

/// How durable each engine is asked to make a write.
#[derive(Clone, Copy, Debug, PartialEq, Eq, Structural)]
pub enum DurabilityMode {
    Memory,
    Relaxed,
    Durable,
}

/// The spelling a durability mode is selected and reported by.
pub open spec fn durability_name(mode: DurabilityMode) -> Seq<char> {
    match mode {
        DurabilityMode::Memory => "memory"@,
        DurabilityMode::Relaxed => "relaxed"@,
        DurabilityMode::Durable => "durable"@,
    }
}

/// The mode a lowercased spelling selects, if any.
pub open spec fn durability_named(lowered: Seq<char>) -> Option<DurabilityMode> {
    if lowered == "memory"@ {
        Some(DurabilityMode::Memory)
    } else if lowered == "relaxed"@ {
        Some(DurabilityMode::Relaxed)
    } else if lowered == "durable"@ {
        Some(DurabilityMode::Durable)
    } else {
        None
    }
}

/// The comparison layer a durability mode reports under.
pub open spec fn durability_layer(mode: DurabilityMode) -> Seq<char> {
    match mode {
        DurabilityMode::Memory => "L2"@,
        DurabilityMode::Relaxed => "L3"@,
        DurabilityMode::Durable => "L4"@,
    }
}

impl DurabilityMode {
    pub fn as_str(self) -> (name: &'static str)
        ensures
            name@ == durability_name(self),
    {
        match self {
            DurabilityMode::Memory => "memory",
            DurabilityMode::Relaxed => "relaxed",
            DurabilityMode::Durable => "durable",
        }
    }

    pub fn to_string(&self) -> (name: String)
        ensures
            name@ == durability_name(*self),
    {
        String::from_str(self.as_str())
    }

    /// The layer a result row files this mode under.
    pub fn layer(self) -> (layer: &'static str)
        ensures
            layer@ == durability_layer(self),
    {
        match self {
            DurabilityMode::Memory => "L2",
            DurabilityMode::Relaxed => "L3",
            DurabilityMode::Durable => "L4",
        }
    }

    /// Parses a mode name, ignoring ASCII case.
    pub fn parse(value: &str) -> (parsed: Result<DurabilityMode, String>)
        ensures
            parsed matches Ok(mode) ==> lowercase(value@) == durability_name(mode),
            parsed matches Ok(mode) ==> durability_named(lowercase(value@)) == Some(mode),
            parsed is Err <==> durability_named(lowercase(value@)) is None,
            parsed is Err <==> (forall|mode: DurabilityMode|
                lowercase(value@) != #[trigger] durability_name(mode)),
            parsed matches Err(message) ==> message@ == "unknown durability mode: "@ + value@,
    {
        if lowercase_eq(value, "memory") {
            assert(lowercase(value@) == durability_name(DurabilityMode::Memory));
            Ok(DurabilityMode::Memory)
        } else if lowercase_eq(value, "relaxed") {
            assert(lowercase(value@) == durability_name(DurabilityMode::Relaxed));
            Ok(DurabilityMode::Relaxed)
        } else if lowercase_eq(value, "durable") {
            assert(lowercase(value@) == durability_name(DurabilityMode::Durable));
            Ok(DurabilityMode::Durable)
        } else {
            proof {
                assert forall|mode: DurabilityMode|
                    lowercase(value@) != #[trigger] durability_name(mode) by {
                    match mode {
                        DurabilityMode::Memory => {},
                        DurabilityMode::Relaxed => {},
                        DurabilityMode::Durable => {},
                    }
                }
            }
            let mut message = String::from_str("unknown durability mode: ");
            message.append(value);
            Err(message)
        }
    }
}

impl core::str::FromStr for DurabilityMode {
    type Err = String;

    fn from_str(value: &str) -> (parsed: Result<DurabilityMode, String>)
        ensures
            parsed matches Ok(mode) ==> durability_named(lowercase(value@)) == Some(mode),
            parsed is Err <==> durability_named(lowercase(value@)) is None,
            parsed matches Err(message) ==> message@ == "unknown durability mode: "@ + value@,
    {
        DurabilityMode::parse(value)
    }
}

/// Whether each operation gets its own transaction or a batch shares one.
#[derive(Clone, Copy, Debug, PartialEq, Eq, Structural)]
pub enum TransactionScope {
    PerOperation,
    Batch,
}

pub open spec fn scope_name(scope: TransactionScope) -> Seq<char> {
    match scope {
        TransactionScope::PerOperation => "per-operation"@,
        TransactionScope::Batch => "batch"@,
    }
}

/// The lowercased spellings that select a scope.
pub open spec fn selects_scope(lowered: Seq<char>, scope: TransactionScope) -> bool {
    match scope {
        TransactionScope::PerOperation => lowered == "per-operation"@ || lowered == "operation"@,
        TransactionScope::Batch => lowered == "batch"@ || lowered == "reused"@,
    }
}

/// The scope a lowercased spelling selects, if any.
pub open spec fn scope_named(lowered: Seq<char>) -> Option<TransactionScope> {
    if lowered == "per-operation"@ || lowered == "operation"@ {
        Some(TransactionScope::PerOperation)
    } else if lowered == "batch"@ || lowered == "reused"@ {
        Some(TransactionScope::Batch)
    } else {
        None
    }
}

impl TransactionScope {
    pub fn as_str(self) -> (name: &'static str)
        ensures
            name@ == scope_name(self),
    {
        match self {
            TransactionScope::PerOperation => "per-operation",
            TransactionScope::Batch => "batch",
        }
    }

    pub fn to_string(&self) -> (name: String)
        ensures
            name@ == scope_name(*self),
    {
        String::from_str(self.as_str())
    }

    /// Parses a scope name or one of its aliases, ignoring ASCII case.
    pub fn parse(value: &str) -> (parsed: Result<TransactionScope, String>)
        ensures
            parsed matches Ok(scope) ==> selects_scope(lowercase(value@), scope),
            parsed matches Ok(scope) ==> scope_named(lowercase(value@)) == Some(scope),
            parsed is Err <==> scope_named(lowercase(value@)) is None,
            parsed is Err <==> (forall|scope: TransactionScope|
                !#[trigger] selects_scope(lowercase(value@), scope)),
            parsed matches Err(message) ==> message@ == "unknown transaction scope: "@ + value@,
    {
        if lowercase_eq(value, "per-operation") || lowercase_eq(value, "operation") {
            assert(selects_scope(lowercase(value@), TransactionScope::PerOperation));
            Ok(TransactionScope::PerOperation)
        } else if lowercase_eq(value, "batch") || lowercase_eq(value, "reused") {
            assert(selects_scope(lowercase(value@), TransactionScope::Batch));
            Ok(TransactionScope::Batch)
        } else {
            proof {
                assert forall|scope: TransactionScope|
                    !#[trigger] selects_scope(lowercase(value@), scope) by {
                    match scope {
                        TransactionScope::PerOperation => {},
                        TransactionScope::Batch => {},
                    }
                }
            }
            let mut message = String::from_str("unknown transaction scope: ");
            message.append(value);
            Err(message)
        }
    }
}

impl core::str::FromStr for TransactionScope {
    type Err = String;

    fn from_str(value: &str) -> (parsed: Result<TransactionScope, String>)
        ensures
            parsed matches Ok(scope) ==> scope_named(lowercase(value@)) == Some(scope),
            parsed is Err <==> scope_named(lowercase(value@)) is None,
            parsed matches Err(message) ==> message@ == "unknown transaction scope: "@ + value@,
    {
        TransactionScope::parse(value)
    }
}

/// Parameters of one embedded key/value run.
#[derive(Clone, Debug)]
pub struct KvConfig {
    pub rows: u64,
    pub operations: u64,
    pub scan_operations: u64,
    pub scan_length: u64,
    pub repetitions: usize,
    pub payload_bytes: usize,
    pub seed: u64,
    pub durability: DurabilityMode,
    pub transaction_scope: TransactionScope,
}

impl Default for KvConfig {
    fn default() -> (config: KvConfig)
        ensures
            config.rows == 100_000,
            config.operations == 100_000,
            config.scan_operations == 1_000,
            config.scan_length == 100,
            config.repetitions == 5,
            config.payload_bytes == 64,
            config.seed == 42,
            config.durability == DurabilityMode::Relaxed,
            config.transaction_scope == TransactionScope::PerOperation,
    {
        KvConfig {
            rows: 100_000,
            operations: 100_000,
            scan_operations: 1_000,
            scan_length: 100,
            repetitions: 5,
            payload_bytes: 64,
            seed: 42,
            durability: DurabilityMode::Relaxed,
            transaction_scope: TransactionScope::PerOperation,
        }
    }
}

/// Whether a configuration is one the adapters accept.
pub open spec fn kv_config_valid(config: KvConfig) -> bool {
    &&& config.rows != 0
    &&& config.operations != 0
    &&& config.scan_operations != 0
    &&& config.scan_length != 0
    &&& config.repetitions != 0
    &&& config.payload_bytes != 0
    &&& config.scan_length <= config.rows
}

/// The largest scan start that keeps a window of `scan_length` rows inside
/// `rows`, plus one.
pub open spec fn scan_start_bound(config: KvConfig) -> u64 {
    (config.rows - config.scan_length + 1) as u64
}

impl KvConfig {
    /// The defaults for `engine`: the in-memory engines default to memory
    /// durability, the embedded stores to relaxed.
    pub fn for_engine(engine: &str) -> (config: KvConfig)
        ensures
            config.durability == (if engine@ == "worktable"@ || engine@ == "sqlite"@ {
                DurabilityMode::Memory
            } else {
                DurabilityMode::Relaxed
            }),
            config.rows == 100_000,
            config.operations == 100_000,
            config.scan_operations == 1_000,
            config.scan_length == 100,
            config.repetitions == 5,
            config.payload_bytes == 64,
            config.seed == 42,
            config.transaction_scope == TransactionScope::PerOperation,
    {
        let mut config = KvConfig::default();
        if crate::text::str_eq(engine, "worktable") || crate::text::str_eq(engine, "sqlite") {
            config.durability = DurabilityMode::Memory;
        }
        config
    }

    pub fn validate(&self) -> (checked: Result<(), String>)
        ensures
            checked is Ok <==> kv_config_valid(*self),
            checked matches Err(message) ==> message@ == (if self.rows == 0 || self.operations
                == 0 || self.scan_operations == 0 || self.scan_length == 0 || self.repetitions
                == 0 || self.payload_bytes == 0 {
                "counts, repetitions, and payload size must be non-zero"@
            } else {
                "--scan-length cannot exceed --rows"@
            }),
    {
        if self.rows == 0 || self.operations == 0 || self.scan_operations == 0
            || self.scan_length == 0 || self.repetitions == 0 || self.payload_bytes == 0 {
            return Err(String::from_str("counts, repetitions, and payload size must be non-zero"));
        }
        if self.scan_length > self.rows {
            return Err(String::from_str("--scan-length cannot exceed --rows"));
        }
        Ok(())
    }

    /// The keys the point-read and overwrite phases touch.
    pub fn point_keys(&self) -> (keys: Vec<u64>)
        ensures
            keys@ == below_draws(seed_state(self.seed), self.rows, self.operations as nat),
            forall|i: int| 0 <= i < keys@.len() ==> #[trigger] keys@[i] < self.rows || self.rows
                == 0,
    {
        keys(self.operations, self.rows, self.seed)
    }

    /// The first key of each range scan. Every window of `scan_length` rows
    /// that starts here lies inside the loaded rows.
    pub fn scan_starts(&self) -> (starts: Vec<u64>)
        requires
            self.scan_length <= self.rows,
            self.scan_length > 0 || self.rows < u64::MAX,
        ensures
            starts@ == below_draws(
                seed_state(self.seed ^ 0xa5a5_a5a5),
                scan_start_bound(*self),
                self.scan_operations as nat,
            ),
            forall|i: int|
                0 <= i < starts@.len() ==> #[trigger] starts@[i] + self.scan_length <= self.rows,
    {
        keys(self.scan_operations, self.rows - self.scan_length + 1, self.seed ^ 0xa5a5_a5a5)
    }
}


/// The defaults a runner for `engine` starts from: the in-memory engines
/// default to memory durability, the embedded stores to relaxed.
pub open spec fn engine_defaults(engine: Seq<char>) -> KvConfig {
    KvConfig {
        rows: 100_000,
        operations: 100_000,
        scan_operations: 1_000,
        scan_length: 100,
        repetitions: 5,
        payload_bytes: 64,
        seed: 42,
        durability: if engine == "worktable"@ || engine == "sqlite"@ {
            DurabilityMode::Memory
        } else {
            DurabilityMode::Relaxed
        },
        transaction_scope: TransactionScope::PerOperation,
    }
}

/// The number a flag's value names, or the refusal of it.
pub open spec fn number_arg(flag: Seq<char>, value: Seq<char>, max: nat) -> Result<nat, Seq<char>> {
    match unsigned_outcome(value, max) {
        Ok(number) => Ok(number),
        Err(error) => Err(invalid_value_message(flag, error)),
    }
}

/// The configuration after one `flag value` pair, or why the pair is refused.
pub open spec fn kv_apply(config: KvConfig, flag: Seq<char>, value: Seq<char>) -> Result<
    KvConfig,
    Seq<char>,
> {
    if flag == "--rows"@ {
        match number_arg(flag, value, u64::MAX as nat) {
            Ok(n) => Ok(KvConfig { rows: n as u64, ..config }),
            Err(message) => Err(message),
        }
    } else if flag == "--operations"@ {
        match number_arg(flag, value, u64::MAX as nat) {
            Ok(n) => Ok(KvConfig { operations: n as u64, ..config }),
            Err(message) => Err(message),
        }
    } else if flag == "--scan-operations"@ {
        match number_arg(flag, value, u64::MAX as nat) {
            Ok(n) => Ok(KvConfig { scan_operations: n as u64, ..config }),
            Err(message) => Err(message),
        }
    } else if flag == "--scan-length"@ {
        match number_arg(flag, value, u64::MAX as nat) {
            Ok(n) => Ok(KvConfig { scan_length: n as u64, ..config }),
            Err(message) => Err(message),
        }
    } else if flag == "--repetitions"@ {
        match number_arg(flag, value, usize::MAX as nat) {
            Ok(n) => Ok(KvConfig { repetitions: n as usize, ..config }),
            Err(message) => Err(message),
        }
    } else if flag == "--payload-bytes"@ {
        match number_arg(flag, value, usize::MAX as nat) {
            Ok(n) => Ok(KvConfig { payload_bytes: n as usize, ..config }),
            Err(message) => Err(message),
        }
    } else if flag == "--seed"@ {
        match number_arg(flag, value, u64::MAX as nat) {
            Ok(n) => Ok(KvConfig { seed: n as u64, ..config }),
            Err(message) => Err(message),
        }
    } else if flag == "--durability"@ {
        match durability_named(lowercase(value)) {
            Some(mode) => Ok(KvConfig { durability: mode, ..config }),
            None => Err("unknown durability mode: "@ + value),
        }
    } else if flag == "--transaction-scope"@ {
        match scope_named(lowercase(value)) {
            Some(scope) => Ok(KvConfig { transaction_scope: scope, ..config }),
            None => Err("unknown transaction scope: "@ + value),
        }
    } else {
        Err(unknown_option_message(flag))
    }
}

/// Why a configuration is refused, for one that is.
pub open spec fn kv_invalid_message(config: KvConfig) -> Seq<char> {
    if config.rows == 0 || config.operations == 0 || config.scan_operations == 0
        || config.scan_length == 0 || config.repetitions == 0 || config.payload_bytes == 0 {
        "counts, repetitions, and payload size must be non-zero"@
    } else {
        "--scan-length cannot exceed --rows"@
    }
}

/// What the arguments `args`, read as `flag value` pairs from `config`, come
/// to: a help flag asks for the usage text (`None`); a flag with no value
/// after it, a value that does not parse, an unknown flag, or a configuration
/// that fails validation is refused; anything else is the configuration.
pub open spec fn kv_args(args: Seq<Seq<char>>, config: KvConfig) -> Result<
    Option<KvConfig>,
    Seq<char>,
>
    decreases args.len(),
{
    if args.len() == 0 {
        if kv_config_valid(config) {
            Ok(Some(config))
        } else {
            Err(kv_invalid_message(config))
        }
    } else if is_help_flag(args[0]) {
        Ok(None)
    } else if args.len() == 1 {
        Err(missing_value_message(args[0]))
    } else {
        match kv_apply(config, args[0], args[1]) {
            Ok(next) => kv_args(args.skip(2), next),
            Err(message) => Err(message),
        }
    }
}

/// Applies one `flag value` pair.
fn kv_apply_exec(config: KvConfig, flag: &str, value: &str) -> (applied: Result<KvConfig, String>)
    ensures
        match (applied, kv_apply(config, flag@, value@)) {
            (Ok(a), Ok(b)) => a == b,
            (Err(m), Err(e)) => m@ == e,
            _ => false,
        },
{
    let mut config = config;
    if crate::text::str_eq(flag, "--rows") {
        match parse_u64(value) {
            Ok(n) => config.rows = n,
            Err(error) => return Err(invalid_value(flag, error)),
        }
    } else if crate::text::str_eq(flag, "--operations") {
        match parse_u64(value) {
            Ok(n) => config.operations = n,
            Err(error) => return Err(invalid_value(flag, error)),
        }
    } else if crate::text::str_eq(flag, "--scan-operations") {
        match parse_u64(value) {
            Ok(n) => config.scan_operations = n,
            Err(error) => return Err(invalid_value(flag, error)),
        }
    } else if crate::text::str_eq(flag, "--scan-length") {
        match parse_u64(value) {
            Ok(n) => config.scan_length = n,
            Err(error) => return Err(invalid_value(flag, error)),
        }
    } else if crate::text::str_eq(flag, "--repetitions") {
        match parse_usize(value) {
            Ok(n) => config.repetitions = n,
            Err(error) => return Err(invalid_value(flag, error)),
        }
    } else if crate::text::str_eq(flag, "--payload-bytes") {
        match parse_usize(value) {
            Ok(n) => config.payload_bytes = n,
            Err(error) => return Err(invalid_value(flag, error)),
        }
    } else if crate::text::str_eq(flag, "--seed") {
        match parse_u64(value) {
            Ok(n) => config.seed = n,
            Err(error) => return Err(invalid_value(flag, error)),
        }
    } else if crate::text::str_eq(flag, "--durability") {
        match DurabilityMode::parse(value) {
            Ok(mode) => config.durability = mode,
            Err(message) => return Err(message),
        }
    } else if crate::text::str_eq(flag, "--transaction-scope") {
        match TransactionScope::parse(value) {
            Ok(scope) => config.transaction_scope = scope,
            Err(message) => return Err(message),
        }
    } else {
        return Err(unknown_option(flag));
    }
    Ok(config)
}

impl KvConfig {
    /// Reads the runner's arguments, after the program name, for `engine`.
    /// `Ok(None)` asks for the usage text.
    pub fn from_args(engine: &str, args: &[String]) -> (parsed: Result<Option<KvConfig>, String>)
        ensures
            match (parsed, kv_args(args_text(args@), engine_defaults(engine@))) {
                (Ok(a), Ok(b)) => a == b,
                (Err(m), Err(e)) => m@ == e,
                _ => false,
            },
    {
        let mut config = KvConfig::for_engine(engine);
        let ghost text = args_text(args@);
        let n = args.len();
        let mut i: usize = 0;
        assert(text.skip(0) =~= text);
        assert(config == engine_defaults(engine@));
        while i < n
            invariant
                n == args@.len(),
                text == args_text(args@),
                i <= n,
                kv_args(text, engine_defaults(engine@)) == kv_args(text.skip(i as int), config),
            decreases n - i,
        {
            let flag = args[i].as_str();
            assert(text.skip(i as int)[0] == flag@);
            if is_help(flag) {
                return Ok(None);
            }
            if i + 1 >= n {
                return Err(missing_value(flag));
            }
            let value = args[i + 1].as_str();
            assert(text.skip(i as int)[1] == value@);
            match kv_apply_exec(config, flag, value) {
                Ok(next) => config = next,
                Err(message) => return Err(message),
            }
            assert(text.skip(i as int).skip(2) =~= text.skip(i + 2));
            i = i + 2;
        }
        match config.validate() {
            Ok(()) => Ok(Some(config)),
            Err(message) => Err(message),
        }
    }
}

/// `count` keys below `upper`, drawn from a generator seeded with `seed`.
fn keys(count: u64, upper: u64, seed: u64) -> (drawn: Vec<u64>)
    ensures
        drawn@ == below_draws(seed_state(seed), upper, count as nat),
        upper > 0 ==> forall|i: int| 0 <= i < drawn@.len() ==> #[trigger] drawn@[i] < upper,
{
    crate::speedtest::random_keys(count, upper, seed)
}

/// The seed a value's payload generator starts from.
pub open spec fn value_seed(key: u64) -> u64 {
    key ^ 0x517c_c1b7_2722_0a95
}

/// The payload bytes of a binary value: the low byte of each raw draw.
pub open spec fn payload_bytes_of(state: u64, n: nat) -> Seq<u8> {
    Seq::new(n, |i: int| raw_draws(state, n)[i] as u8)
}

/// The binary value stored under `key`: the key, little endian, then
/// `payload_bytes` generated bytes.
pub open spec fn binary_value(key: u64, payload_bytes: nat) -> Seq<u8> {
    spec_u64_to_le_bytes(key) + payload_bytes_of(seed_state(value_seed(key)), payload_bytes)
}

pub fn value(key: u64, payload_bytes: usize) -> (encoded: Vec<u8>)
    ensures
        encoded@ == binary_value(key, payload_bytes as nat),
        encoded@.len() == 8 + payload_bytes,
{
    let mut rng = Rng::new(key ^ 0x517c_c1b7_2722_0a95);
    let mut encoded = u64_to_le_bytes(key);
    let ghost state = seed_state(value_seed(key));
    let mut i: usize = 0;
    while i < payload_bytes
        invariant
            i <= payload_bytes,
            rng@ == state_after(state, i as nat),
            encoded@ == spec_u64_to_le_bytes(key) + payload_bytes_of(state, i as nat),
            spec_u64_to_le_bytes(key).len() == 8,
        decreases payload_bytes - i,
    {
        let draw = rng.next_u64();
        encoded.push(draw as u8);
        proof {
            assert(payload_bytes_of(state, (i + 1) as nat) =~= payload_bytes_of(
                state,
                i as nat,
            ).push(draw as u8));
        }
        i += 1;
    }
    proof {
        lemma_auto_spec_u64_to_from_le_bytes();
    }
    encoded
}

/// The checksum of a stored binary value: its key prefix plus its length,
/// wrapping.
pub open spec fn binary_checksum(encoded: Seq<u8>) -> u64 {
    spec_u64_from_le_bytes(encoded.take(8)).wrapping_add(encoded.len() as u64)
}

pub fn value_checksum(value: &[u8]) -> (checksum: u64)
    requires
        value@.len() >= 8,
    ensures
        checksum == binary_checksum(value@),
{
    let prefix = slice_subrange(value, 0, 8);
    proof {
        assert(prefix@ =~= value@.take(8));
    }
    u64_from_le_bytes(prefix).wrapping_add(value.len() as u64)
}

/// Law: every engine that stores `value(key, n)` and checksums what it reads
/// back gets the key plus the stored length.
pub proof fn lemma_value_checksum_round_trip(key: u64, payload_bytes: nat)
    requires
        payload_bytes + 8 <= u64::MAX,
    ensures
        binary_checksum(binary_value(key, payload_bytes)) == key.wrapping_add(
            (8 + payload_bytes) as u64,
        ),
{
    lemma_auto_spec_u64_to_from_le_bytes();
    let encoded = binary_value(key, payload_bytes);
    assert(encoded.take(8) =~= spec_u64_to_le_bytes(key));
}

/// A printable payload: each character is `'!'` plus a draw below 94, so it
/// lies in `'!'..='~'`.
pub open spec fn printable_payload(state: u64, n: nat) -> Seq<char> {
    Seq::new(n, |i: int| ((33 + below_draws(state, 94, n)[i]) as u32) as char)
}

/// Builds a printable ASCII payload of `length` characters from a generator
/// seeded with `seed`.
pub(crate) fn printable(seed: u64, length: usize) -> (payload: String)
    ensures
        payload@ == printable_payload(seed_state(seed), length as nat),
        is_ascii_chars(payload@),
        payload@.len() == length,
{
    let mut rng = Rng::new(seed);
    let mut payload = String::new();
    let ghost state = seed_state(seed);
    let mut i: usize = 0;
    while i < length
        invariant
            i <= length,
            rng@ == below_state_after(state, 94, i as nat),
            payload@ == printable_payload(state, i as nat),
        decreases length - i,
    {
        let offset = rng.below(94);
        let c = (33 + offset as u8) as char;
        crate::text::push_char(&mut payload, c);
        proof {
            assert(payload@ =~= printable_payload(state, (i + 1) as nat));
        }
        i += 1;
    }
    proof {
        assert forall|j: int| 0 <= j < payload@.len() implies '\0' <= #[trigger] payload@[j]
            <= '\u{7f}' by {
            assert(below_draws(state, 94, length as nat)[j] < 94) by {
                crate::rng::lemma_below_draws_bounded(state, 94, length as nat, j);
            }
        }
    }
    payload
}

pub fn text_value(key: u64, payload_bytes: usize) -> (payload: String)
    ensures
        payload@ == printable_payload(seed_state(value_seed(key)), payload_bytes as nat),
        is_ascii_chars(payload@),
        payload@.len() == payload_bytes,
{
    printable(key ^ 0x517c_c1b7_2722_0a95, payload_bytes)
}

pub fn text_checksum(key: u64, value: &str) -> (checksum: u64)
    ensures
        checksum == key.wrapping_add(value.len() as u64),
{
    key.wrapping_add(value.len() as u64)
}

/// Law: an ASCII text value checksums to its key plus its character count,
/// so every engine that stores `text_value(key, n)` reports the same sum.
pub proof fn lemma_text_checksum_of_ascii(key: u64, value: &str)
    requires
        is_ascii_chars(value@),
        value@.len() <= usize::MAX,
    ensures
        key.wrapping_add(value.len() as u64) == key.wrapping_add(value@.len() as u64),
{
    is_ascii_spec_bytes(value);
    assert(value.spec_bytes().len() == value@.len());
}


/// A mode's own spelling selects it, and a scope's own spelling selects it:
/// what a result row records parses back to the same setting.
pub proof fn lemma_names_parse_back(mode: DurabilityMode, scope: TransactionScope)
    ensures
        durability_named(lowercase(durability_name(mode))) == Some(mode),
        scope_named(lowercase(scope_name(scope))) == Some(scope),
{
    reveal_strlit("memory");
    reveal_strlit("relaxed");
    reveal_strlit("durable");
    reveal_strlit("per-operation");
    reveal_strlit("operation");
    reveal_strlit("batch");
    reveal_strlit("reused");
    assert(lowercase("memory"@) =~= "memory"@);
    assert(lowercase("relaxed"@) =~= "relaxed"@);
    assert(lowercase("durable"@) =~= "durable"@);
    assert(lowercase("per-operation"@) =~= "per-operation"@);
    assert(lowercase("batch"@) =~= "batch"@);
    assert("relaxed"@ != "memory"@);
    assert("durable"@[0] != "memory"@[0]);
    assert("batch"@.len() != "per-operation"@.len() && "batch"@.len() != "operation"@.len());
}

} // verus!
