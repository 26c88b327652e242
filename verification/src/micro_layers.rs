//! The layered micro-benchmark: the same rows, point reads, field updates
//! and range scans against a plain vector, locked rows, std maps, a
//! concurrent map and the table engine, so that each layer's cost over the
//! one beneath it shows. What stands here is the configuration, the rows and
//! keys every layer is given, and the plain-vector layer the others are
//! measured against, whose checksums every layer reproduces.

use vstd::prelude::*;

use crate::args::{
    args_text, invalid_value, invalid_value_message, is_help, is_help_flag, missing_value,
    missing_value_message, parse_u64, parse_usize, unknown_option, unknown_option_message,
    unsigned_outcome,
};
use crate::kv::{printable, printable_payload};
use crate::rng::{below_draws, seed_state};
use crate::speedtest::random_keys;
use vstd::utf8::encode_utf8;

verus! {

/// The sizes and seed of a run.
#[derive(Clone, Debug)]
pub struct Config {
    pub rows: u64,
    pub operations: u64,
    pub scan_operations: u64,
    pub scan_length: u64,
    pub repetitions: usize,
    pub payload_bytes: usize,
    pub seed: u64,
}

pub open spec fn default_config() -> Config {
    Config {
        rows: 1_000_000,
        operations: 1_000_000,
        scan_operations: 10_000,
        scan_length: 100,
        repetitions: 5,
        payload_bytes: 64,
        seed: 42,
    }
}

impl Default for Config {
    fn default() -> (config: Config)
        ensures
            config == default_config(),
    {
        Config {
            rows: 1_000_000,
            operations: 1_000_000,
            scan_operations: 10_000,
            scan_length: 100,
            repetitions: 5,
            payload_bytes: 64,
            seed: 42,
        }
    }
}

/// Why a configuration is refused once every flag is read, if it is.
pub open spec fn config_refusal(config: Config) -> Option<Seq<char>> {
    if config.rows == 0 || config.operations == 0 || config.scan_operations == 0
        || config.scan_length == 0 || config.repetitions == 0 || config.payload_bytes == 0 {
        Some("counts, repetitions, and payload size must be non-zero"@)
    } else if config.scan_length > config.rows {
        Some("--scan-length cannot exceed --rows"@)
    } else {
        None
    }
}

/// The number a flag's value names, or the refusal of it.
pub open spec fn count_value(flag: Seq<char>, value: Seq<char>, max: nat) -> Result<nat, Seq<char>> {
    match unsigned_outcome(value, max) {
        Ok(n) => Ok(n),
        Err(error) => Err(invalid_value_message(flag, error)),
    }
}

/// The configuration after one `flag value` pair, or why it is refused.
pub open spec fn config_apply(config: Config, flag: Seq<char>, value: Seq<char>) -> Result<
    Config,
    Seq<char>,
> {
    let wide = u64::MAX as nat;
    let size = usize::MAX as nat;
    if flag == "--rows"@ {
        match count_value(flag, value, wide) {
            Ok(n) => Ok(Config { rows: n as u64, ..config }),
            Err(message) => Err(message),
        }
    } else if flag == "--operations"@ {
        match count_value(flag, value, wide) {
            Ok(n) => Ok(Config { operations: n as u64, ..config }),
            Err(message) => Err(message),
        }
    } else if flag == "--scan-operations"@ {
        match count_value(flag, value, wide) {
            Ok(n) => Ok(Config { scan_operations: n as u64, ..config }),
            Err(message) => Err(message),
        }
    } else if flag == "--scan-length"@ {
        match count_value(flag, value, wide) {
            Ok(n) => Ok(Config { scan_length: n as u64, ..config }),
            Err(message) => Err(message),
        }
    } else if flag == "--repetitions"@ {
        match count_value(flag, value, size) {
            Ok(n) => Ok(Config { repetitions: n as usize, ..config }),
            Err(message) => Err(message),
        }
    } else if flag == "--payload-bytes"@ {
        match count_value(flag, value, size) {
            Ok(n) => Ok(Config { payload_bytes: n as usize, ..config }),
            Err(message) => Err(message),
        }
    } else if flag == "--seed"@ {
        match count_value(flag, value, wide) {
            Ok(n) => Ok(Config { seed: n as u64, ..config }),
            Err(message) => Err(message),
        }
    } else {
        Err(unknown_option_message(flag))
    }
}

/// What the arguments come to: a help flag asks for the usage text (`None`);
/// a flag with no value, a bad value, an unknown flag, a zero count or a
/// scan longer than the table is refused; anything else is the
/// configuration.
pub open spec fn micro_args(args: Seq<Seq<char>>, config: Config) -> Result<
    Option<Config>,
    Seq<char>,
>
    decreases args.len(),
{
    if args.len() == 0 {
        match config_refusal(config) {
            Some(message) => Err(message),
            None => Ok(Some(config)),
        }
    } else if is_help_flag(args[0]) {
        Ok(None)
    } else if args.len() == 1 {
        Err(missing_value_message(args[0]))
    } else {
        match config_apply(config, args[0], args[1]) {
            Ok(next) => micro_args(args.skip(2), next),
            Err(message) => Err(message),
        }
    }
}

fn config_apply_exec(config: Config, flag: &str, value: &str) -> (applied: Result<Config, String>)
    ensures
        match (applied, config_apply(config, flag@, value@)) {
            (Ok(a), Ok(b)) => a == b,
            (Err(m), Err(e)) => m@ == e,
            _ => false,
        },
{
    let mut config = config;
    if crate::text::str_eq(flag, "--rows") {
        match parse_u64(value) {
            Ok(n) => config.rows = n,
            Err(error) => return Err(invalid_value(flag, error)),
        }
    } else if crate::text::str_eq(flag, "--operations") {
        match parse_u64(value) {
            Ok(n) => config.operations = n,
            Err(error) => return Err(invalid_value(flag, error)),
        }
    } else if crate::text::str_eq(flag, "--scan-operations") {
        match parse_u64(value) {
            Ok(n) => config.scan_operations = n,
            Err(error) => return Err(invalid_value(flag, error)),
        }
    } else if crate::text::str_eq(flag, "--scan-length") {
        match parse_u64(value) {
            Ok(n) => config.scan_length = n,
            Err(error) => return Err(invalid_value(flag, error)),
        }
    } else if crate::text::str_eq(flag, "--repetitions") {
        match parse_usize(value) {
            Ok(n) => config.repetitions = n,
            Err(error) => return Err(invalid_value(flag, error)),
        }
    } else if crate::text::str_eq(flag, "--payload-bytes") {
        match parse_usize(value) {
            Ok(n) => config.payload_bytes = n,
            Err(error) => return Err(invalid_value(flag, error)),
        }
    } else if crate::text::str_eq(flag, "--seed") {
        match parse_u64(value) {
            Ok(n) => config.seed = n,
            Err(error) => return Err(invalid_value(flag, error)),
        }
    } else {
        return Err(unknown_option(flag));
    }
    Ok(config)
}

impl Config {
    /// Reads the runner's arguments, after the program name. `Ok(None)` asks
    /// for the usage text.
    pub fn from_args(args: &[String]) -> (parsed: Result<Option<Config>, String>)
        ensures
            match (parsed, micro_args(args_text(args@), default_config())) {
                (Ok(a), Ok(b)) => a == b,
                (Err(m), Err(e)) => m@ == e,
                _ => false,
            },
    {
        let mut config = Config::default();
        let ghost text = args_text(args@);
        let n = args.len();
        let mut i: usize = 0;
        assert(text.skip(0) =~= text);
        while i < n
            invariant
                n == args@.len(),
                text == args_text(args@),
                i <= n,
                micro_args(text, default_config()) == micro_args(text.skip(i as int), config),
            decreases n - i,
        {
            let flag = args[i].as_str();
            assert(text.skip(i as int)[0] == flag@);
            if is_help(flag) {
                return Ok(None);
            }
            if i + 1 >= n {
                return Err(missing_value(flag));
            }
            let value = args[i + 1].as_str();
            assert(text.skip(i as int)[1] == value@);
            match config_apply_exec(config, flag, value) {
                Ok(next) => config = next,
                Err(message) => return Err(message),
            }
            assert(text.skip(i as int).skip(2) =~= text.skip(i + 2));
            i = i + 2;
        }
        if config.rows == 0 || config.operations == 0 || config.scan_operations == 0
            || config.scan_length == 0 || config.repetitions == 0 || config.payload_bytes == 0 {
            return Err(String::from_str("counts, repetitions, and payload size must be non-zero"));
        }
        if config.scan_length > config.rows {
            return Err(String::from_str("--scan-length cannot exceed --rows"));
        }
        Ok(Some(config))
    }

    /// The keys the point-read and update phases touch, below the row count.
    pub fn point_keys(&self) -> (keys: Vec<u64>)
        ensures
            keys@ == below_draws(seed_state(self.seed), self.rows, self.operations as nat),
            self.rows > 0 ==> forall|i: int| 0 <= i < keys@.len() ==> #[trigger] keys@[i] < self.rows,
    {
        random_keys(self.operations, self.rows, self.seed)
    }

    /// The first row of each range scan: every window of `scan_length` rows
    /// from one lies inside the table.
    pub fn scan_starts(&self) -> (starts: Vec<u64>)
        requires
            0 < self.scan_length <= self.rows,
        ensures
            starts@ == below_draws(
                seed_state(self.seed ^ 0xa5a5_a5a5),
                (self.rows - self.scan_length + 1) as u64,
                self.scan_operations as nat,
            ),
            forall|i: int|
                0 <= i < starts@.len() ==> #[trigger] starts@[i] + self.scan_length <= self.rows,
    {
        random_keys(self.scan_operations, self.rows - self.scan_length + 1, self.seed ^ 0xa5a5_a5a5)
    }
}

/// One row, as every layer stores it.
#[derive(Clone, Debug)]
pub struct Row {
    pub id: u64,
    pub value: u64,
    pub payload: String,
}

/// The printable payload of row `id`.
pub open spec fn row_payload(config: Config, id: u64) -> Seq<char> {
    printable_payload(seed_state(id ^ config.seed), config.payload_bytes as nat)
}

/// The rows every layer loads, in id order: row `id` holds `id` as its value
/// and its own payload.
pub fn rows(config: &Config) -> (rows: Vec<Row>)
    ensures
        rows@.len() == config.rows,
        forall|i: int|
            #![trigger rows@[i]]
            0 <= i < config.rows ==> rows@[i].id == i && rows@[i].value == i && rows@[i].payload@
                == row_payload(*config, i as u64) && byte_len(rows@[i].payload@)
                == config.payload_bytes,
{
    let mut rows: Vec<Row> = Vec::new();
    let mut id: u64 = 0;
    while id < config.rows
        invariant
            id <= config.rows,
            rows@.len() == id,
            forall|i: int|
                #![trigger rows@[i]]
                0 <= i < id ==> rows@[i].id == i && rows@[i].value == i && rows@[i].payload@
                    == row_payload(*config, i as u64) && byte_len(rows@[i].payload@)
                    == config.payload_bytes,
        decreases config.rows - id,
    {
        let payload = printable(id ^ config.seed, config.payload_bytes);
        proof {
            vstd::utf8::is_ascii_chars_encode_utf8(payload@);
        }
        rows.push(Row { id, value: id, payload });
        id = id + 1;
    }
    rows
}

/// The bytes a payload occupies.
pub open spec fn byte_len(text: Seq<char>) -> nat {
    encode_utf8(text).len()
}

/// What the point reads of `keys` add up to: each read row's value and its
/// payload's byte length.
pub open spec fn read_total(table: Seq<Row>, keys: Seq<u64>) -> int
    decreases keys.len(),
{
    if keys.len() == 0 {
        0
    } else {
        let row = table[keys.last() as int];
        read_total(table, keys.drop_last()) + row.value + byte_len(row.payload@)
    }
}

/// The point-read checksum over a table held in id order: what the reads of
/// `keys` add up to, wrapped to 64 bits.
pub fn point_checksum(table: &[Row], keys: &[u64]) -> (checksum: u64)
    requires
        forall|i: int| 0 <= i < keys@.len() ==> #[trigger] keys@[i] < table@.len(),
        forall|j: int| 0 <= j < table@.len() ==> byte_len(#[trigger] table@[j].payload@) <= usize::MAX,
    ensures
        checksum == read_total(table@, keys@) % 0x1_0000_0000_0000_0000,
{
    let mut sum: u64 = 0;
    let mut i: usize = 0;
    while i < keys.len()
        invariant
            i <= keys@.len(),
            forall|j: int| 0 <= j < keys@.len() ==> #[trigger] keys@[j] < table@.len(),
            forall|j: int| 0 <= j < table@.len() ==> byte_len(#[trigger] table@[j].payload@) <= usize::MAX,
            sum == read_total(table@, keys@.take(i as int)) % 0x1_0000_0000_0000_0000,
        decreases keys.len() - i,
    {
        let row = &table[keys[i] as usize];
        assert(*row == table@[keys@[i as int] as int]);
        let bytes = row.payload.as_str().len() as u64;
        assert(bytes == byte_len(row.payload@));
        let ghost before = read_total(table@, keys@.take(i as int));
        proof {
            assert(keys@.take(i + 1).drop_last() =~= keys@.take(i as int));
            assert(keys@.take(i + 1).last() == keys@[i as int]);
            lemma_wrap_add(sum, row.value, before);
        }
        let partial = sum.wrapping_add(row.value);
        proof {
            lemma_wrap_add(partial, bytes, before + row.value);
            assert(read_total(table@, keys@.take(i + 1)) == before + row.value + byte_len(
                row.payload@,
            ));
        }
        sum = partial.wrapping_add(bytes);
        i = i + 1;
    }
    proof {
        assert(keys@.take(keys@.len() as int) =~= keys@);
    }
    sum
}

/// Adding to a wrapped running total wraps the true total.
proof fn lemma_wrap_add(sum: u64, value: u64, total: int)
    requires
        sum == total % 0x1_0000_0000_0000_0000,
    ensures
        sum.wrapping_add(value) == (total + value) % 0x1_0000_0000_0000_0000,
{
    vstd::arithmetic::div_mod::lemma_add_mod_noop(total, value as int, 0x1_0000_0000_0000_0000);
    vstd::arithmetic::div_mod::lemma_small_mod(value as nat, 0x1_0000_0000_0000_0000);
    vstd::arithmetic::div_mod::lemma_small_mod(sum as nat, 0x1_0000_0000_0000_0000);
    vstd::arithmetic::div_mod::lemma_mod_bound(total, 0x1_0000_0000_0000_0000);
}

/// The value the update phase writes under `key`.
pub open spec fn updated_value(key: u64) -> u64 {
    key.wrapping_mul(17)
}

/// The update phase on a table held in id order: the row at each key's
/// position gets that key's updated value, in place; every other field and
/// row is untouched. Since the value depends on the key alone, the order of the
/// keys and their repeats change nothing.
pub fn update_values(table: &mut Vec<Row>, keys: &[u64])
    requires
        forall|i: int| 0 <= i < keys@.len() ==> #[trigger] keys@[i] < old(table)@.len(),
    ensures
        final(table)@.len() == old(table)@.len(),
        forall|j: int|
            #![trigger final(table)@[j]]
            0 <= j < old(table)@.len() ==> {
                &&& final(table)@[j].id == old(table)@[j].id
                &&& final(table)@[j].payload == old(table)@[j].payload
                &&& final(table)@[j].value == if keys@.contains(j as u64) {
                    updated_value(j as u64)
                } else {
                    old(table)@[j].value
                }
            },
{
    let ghost initial = table@;
    let n = table.len();
    let mut i: usize = 0;
    while i < keys.len()
        invariant
            i <= keys@.len(),
            n == initial.len(),
            table@.len() == initial.len(),
            forall|k: int| 0 <= k < keys@.len() ==> #[trigger] keys@[k] < initial.len(),
            forall|j: int|
                #![trigger table@[j]]
                0 <= j < initial.len() ==> {
                    &&& table@[j].id == initial[j].id
                    &&& table@[j].payload == initial[j].payload
                    &&& table@[j].value == if keys@.take(i as int).contains(j as u64) {
                        updated_value(j as u64)
                    } else {
                        initial[j].value
                    }
                },
        decreases keys.len() - i,
    {
        let key = keys[i];
        set_value(table, key as usize, key.wrapping_mul(17));
        proof {
            assert(keys@.take(i + 1) =~= keys@.take(i as int).push(key));
            assert forall|j: int| 0 <= j < initial.len() implies #[trigger] keys@.take(
                i + 1,
            ).contains(j as u64) == (keys@.take(i as int).contains(j as u64) || j == key) by {
                vstd::seq_lib::lemma_seq_contains_after_push(keys@.take(i as int), key, j as u64);
                assert(j < n);
                assert((j as u64 == key) == (j == key));
            }
        }
        i = i + 1;
    }
    proof {
        assert(keys@.take(keys@.len() as int) =~= keys@);
    }
}

fn set_value(table: &mut Vec<Row>, k: usize, value: u64)
    requires
        k < old(table)@.len(),
    ensures
        final(table)@.len() == old(table)@.len(),
        final(table)@[k as int].value == value,
        final(table)@[k as int].id == old(table)@[k as int].id,
        final(table)@[k as int].payload == old(table)@[k as int].payload,
        forall|j: int| 0 <= j < old(table)@.len() && j != k ==> final(table)@[j] == old(table)@[j],
{
    table[k].value = value;
}

/// The exclusive-or of the values of the first `n` rows.
pub open spec fn head_xor(table: Seq<Row>, n: nat) -> u64
    decreases n,
{
    if n == 0 {
        0
    } else {
        head_xor(table, (n - 1) as nat) ^ table[n - 1].value
    }
}

/// The number of rows the post-update checksum folds: sixteen, or all of a
/// shorter table.
pub open spec fn head_rows(len: nat) -> nat {
    if len < 16 {
        len
    } else {
        16
    }
}

/// The checksum the update phase reports: the exclusive-or of the first
/// sixteen values.
pub fn head_checksum(table: &[Row]) -> (checksum: u64)
    ensures
        checksum == head_xor(table@, head_rows(table@.len())),
{
    let n: usize = if table.len() < 16 {
        table.len()
    } else {
        16
    };
    let mut acc: u64 = 0;
    let mut i: usize = 0;
    while i < n
        invariant
            i <= n,
            n == head_rows(table@.len()),
            n <= table@.len(),
            acc == head_xor(table@, i as nat),
        decreases n - i,
    {
        acc = acc ^ table[i].value;
        i = i + 1;
    }
    acc
}

/// The values of the `length` rows from `start` added up.
pub open spec fn window_total(table: Seq<Row>, start: int, length: nat) -> int
    decreases length,
{
    if length == 0 {
        0
    } else {
        window_total(table, start, (length - 1) as nat) + table[start + length - 1].value
    }
}

/// What the range scans from `starts` add up to.
pub open spec fn scan_total(table: Seq<Row>, starts: Seq<u64>, length: nat) -> int
    decreases starts.len(),
{
    if starts.len() == 0 {
        0
    } else {
        scan_total(table, starts.drop_last(), length) + window_total(
            table,
            starts.last() as int,
            length,
        )
    }
}

/// The range-scan checksum over a table held in id order: the values of
/// every window of `length` rows from each start added up, wrapped to 64
/// bits.
pub fn range_checksum(table: &[Row], starts: &[u64], length: u64) -> (checksum: u64)
    requires
        forall|i: int| 0 <= i < starts@.len() ==> #[trigger] starts@[i] + length <= table@.len(),
    ensures
        checksum == scan_total(table@, starts@, length as nat) % 0x1_0000_0000_0000_0000,
{
    let mut sum: u64 = 0;
    let n = table.len();
    let mut i: usize = 0;
    while i < starts.len()
        invariant
            n == table@.len(),
            i <= starts@.len(),
            forall|k: int| 0 <= k < starts@.len() ==> #[trigger] starts@[k] + length <= table@.len(),
            sum == scan_total(table@, starts@.take(i as int), length as nat)
                % 0x1_0000_0000_0000_0000,
        decreases starts.len() - i,
    {
        let start = starts[i];
        let ghost before = scan_total(table@, starts@.take(i as int), length as nat);
        proof {
            assert(starts@.take(i + 1).drop_last() =~= starts@.take(i as int));
            assert(starts@.take(i + 1).last() == start);
            assert(start + length <= table@.len());
        }
        let mut k: u64 = 0;
        while k < length
            invariant
                n == table@.len(),
                k <= length,
                start + length <= table@.len(),
                sum == (before + window_total(table@, start as int, k as nat))
                    % 0x1_0000_0000_0000_0000,
            decreases length - k,
        {
            assert(start + k < table@.len());
            let value = table[(start + k) as usize].value;
            proof {
                lemma_wrap_add(sum, value, before + window_total(table@, start as int, k as nat));
            }
            sum = sum.wrapping_add(value);
            k = k + 1;
        }
        i = i + 1;
    }
    proof {
        assert(starts@.take(starts@.len() as int) =~= starts@);
    }
    sum
}

/// Whether `table` holds the rows a run loads, in id order: row `i` has id
/// and value `i` and a payload of the configured byte length.
pub open spec fn loaded(table: Seq<Row>, config: Config) -> bool {
    &&& table.len() == config.rows
    &&& forall|i: int|
        #![trigger table[i]]
        0 <= i < table.len() ==> table[i].id == i && table[i].value == i && byte_len(
            table[i].payload@,
        ) == config.payload_bytes
}

/// The keys added up, each with the payload length.
pub open spec fn key_total(keys: Seq<u64>, payload_bytes: nat) -> int
    decreases keys.len(),
{
    if keys.len() == 0 {
        0
    } else {
        key_total(keys.drop_last(), payload_bytes) + keys.last() + payload_bytes
    }
}

/// On the loaded rows a point read of key `k` sees value `k` and the
/// configured payload, so the read checksum is fixed by the keys alone: any
/// layer that loads the same rows and reads the same keys reports it.
pub proof fn lemma_loaded_reads(table: Seq<Row>, config: Config, keys: Seq<u64>)
    requires
        loaded(table, config),
        forall|i: int| 0 <= i < keys.len() ==> #[trigger] keys[i] < config.rows,
    ensures
        read_total(table, keys) == key_total(keys, config.payload_bytes as nat),
    decreases keys.len(),
{
    if keys.len() > 0 {
        let rest = keys.drop_last();
        assert forall|i: int| 0 <= i < rest.len() implies #[trigger] rest[i] < config.rows by {
            assert(rest[i] == keys[i]);
        }
        lemma_loaded_reads(table, config, rest);
        assert(keys.last() == keys[keys.len() - 1]);
        let row = table[keys.last() as int];
        assert(row.value == keys.last());
    }
}

/// On the loaded rows a scan of `length` rows from `start` adds up the
/// consecutive ids from `start`: `length * start` plus the first `length`
/// naturals.
pub proof fn lemma_loaded_window(table: Seq<Row>, config: Config, start: nat, length: nat)
    requires
        loaded(table, config),
        start + length <= config.rows,
    ensures
        window_total(table, start as int, length) == length * start + length * (length - 1) / 2,
    decreases length,
{
    if length == 0 {
        assert(length * start + length * (length - 1) / 2 == 0) by (nonlinear_arith)
            requires
                length == 0,
        ;
    } else {
        let m = (length - 1) as nat;
        lemma_loaded_window(table, config, start, m);
        assert(table[(start + m) as int].value == start + m);
        assert(window_total(table, start as int, length) == window_total(table, start as int, m)
            + table[(start + m) as int].value);
        assert(length * start + length * (length - 1) / 2 == m * start + m * (m - 1) / 2 + start
            + m) by (nonlinear_arith)
            requires
                length == m + 1,
        ;
    }
}

} // verus!
