use wt_benchmarks::micro_layers::{
    head_checksum, point_checksum, range_checksum, rows, update_values, Config, Row,
};
use wt_benchmarks::rng::Rng;

fn strings(args: &[&str]) -> Vec<String> {
    args.iter().map(|a| a.to_string()).collect()
}

fn small() -> Config {
    Config {
        rows: 1_000,
        operations: 500,
        scan_operations: 40,
        scan_length: 17,
        payload_bytes: 32,
        ..Config::default()
    }
}

fn payload(seed: u64, length: usize) -> String {
    let mut rng = Rng::new(seed);
    let bytes: Vec<_> = (0..length).map(|_| b'!' + rng.below((b'~' - b'!') as u64 + 1) as u8).collect();
    String::from_utf8(bytes).unwrap()
}

#[test]
fn micro_arguments() {
    let config = Config::from_args(&strings(&["--rows", "100", "--scan-length", "10"]))
        .unwrap()
        .unwrap();
    assert_eq!(config.rows, 100);
    assert_eq!(config.scan_length, 10);
    assert_eq!(config.operations, 1_000_000);
    assert_eq!(config.seed, 42);
    assert!(Config::from_args(&strings(&["-h"])).unwrap().is_none());
    assert_eq!(
        Config::from_args(&strings(&["--rows", "10", "--scan-length", "11"])).unwrap_err(),
        "--scan-length cannot exceed --rows"
    );
    assert_eq!(
        Config::from_args(&strings(&["--seed", "0", "--payload-bytes", "0"])).unwrap_err(),
        "counts, repetitions, and payload size must be non-zero"
    );
    assert_eq!(Config::from_args(&strings(&["--rows"])).unwrap_err(), "missing value for --rows");
    assert_eq!(Config::from_args(&strings(&["--pages", "3"])).unwrap_err(), "unknown option: --pages");
    assert_eq!(
        Config::from_args(&strings(&["--rows", "-3"])).unwrap_err(),
        "invalid value for --rows: invalid digit found in string"
    );
}

#[test]
fn every_layer_is_given_the_same_rows_and_keys() {
    let config = small();
    let table = rows(&config);
    assert_eq!(table.len(), 1_000);
    for (i, row) in table.iter().enumerate() {
        assert_eq!(row.id, i as u64);
        assert_eq!(row.value, i as u64);
        assert_eq!(row.payload, payload(i as u64 ^ 42, 32));
    }
    let mut rng = Rng::new(42);
    let expected: Vec<u64> = (0..500).map(|_| rng.below(1_000)).collect();
    assert_eq!(config.point_keys(), expected);
    let mut rng = Rng::new(42 ^ 0xa5a5_a5a5);
    let expected: Vec<u64> = (0..40).map(|_| rng.below(1_000 - 17 + 1)).collect();
    assert_eq!(config.scan_starts(), expected);
}

#[test]
fn vector_layer_checksums_match_the_folds() {
    let config = small();
    let mut table = rows(&config);
    let keys = config.point_keys();
    let starts = config.scan_starts();

    let expected = keys.iter().fold(0_u64, |sum, key| {
        let row = &table[*key as usize];
        sum.wrapping_add(row.value).wrapping_add(row.payload.len() as u64)
    });
    assert_eq!(point_checksum(&table, &keys), expected);
    // On the loaded rows the reads add up to the keys plus the payloads.
    assert_eq!(expected, keys.iter().map(|k| k + 32).sum::<u64>());

    let expected = starts.iter().fold(0_u64, |sum, start| {
        table[*start as usize..(*start + 17) as usize]
            .iter()
            .fold(sum, |inner, row| inner.wrapping_add(row.value))
    });
    assert_eq!(range_checksum(&table, &starts, 17), expected);
    assert_eq!(expected, starts.iter().map(|s| 17 * s + 17 * 16 / 2).sum::<u64>());

    let mut reference: Vec<Row> = table.clone();
    for key in &keys {
        reference[*key as usize].value = key.wrapping_mul(17);
    }
    update_values(&mut table, &keys);
    for (i, (a, b)) in table.iter().zip(reference.iter()).enumerate() {
        assert_eq!(a.id, b.id);
        assert_eq!(a.value, b.value, "row {i}");
        assert_eq!(a.payload, b.payload);
    }
    let expected = reference.iter().take(16).fold(0, |sum, row| sum ^ row.value);
    assert_eq!(head_checksum(&table), expected);
}

#[test]
fn wrapping_checksums_and_short_tables() {
    let big = vec![
        Row { id: 0, value: u64::MAX, payload: "é".to_string() },
        Row { id: 1, value: 5, payload: String::new() },
    ];
    // Byte length, not characters: the accented letter is two bytes.
    assert_eq!(point_checksum(&big, &[0]), u64::MAX.wrapping_add(2));
    assert_eq!(point_checksum(&big, &[0, 1, 1]), u64::MAX.wrapping_add(2).wrapping_add(10));
    assert_eq!(range_checksum(&big, &[0], 2), 4);
    assert_eq!(head_checksum(&big), u64::MAX ^ 5);
    assert_eq!(head_checksum(&[]), 0);
    let mut table = big.clone();
    update_values(&mut table, &[1, 1]);
    assert_eq!(table[1].value, 17);
    assert_eq!(table[0].value, u64::MAX);
}
