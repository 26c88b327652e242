use wt_benchmarks::kv::{
    text_checksum, text_value, value, value_checksum, DurabilityMode, KvConfig, TransactionScope,
};

#[test]
fn value_shape_and_checksum() {
    let encoded = value(42, 64);
    assert_eq!(encoded.len(), 72);
    assert_eq!(value_checksum(&encoded), 114);
}

#[test]
fn text_value_is_ascii_and_sized() {
    let encoded = text_value(42, 64);
    assert_eq!(encoded.len(), 64);
    assert!(encoded.is_ascii());
    assert_eq!(text_checksum(42, &encoded), 106);
}

#[test]
fn value_checksum_reads_back_the_key() {
    for key in [0u64, 1, 7, 42, 1 << 40, u64::MAX] {
        let encoded = value(key, 16);
        assert_eq!(&encoded[..8], &key.to_le_bytes());
        assert_eq!(value_checksum(&encoded), key.wrapping_add(24));
    }
}

#[test]
fn text_checksum_adds_the_key_to_the_length() {
    let encoded = text_value(9, 10);
    assert_eq!(text_checksum(9, &encoded), 19);
    assert_eq!(text_checksum(u64::MAX, "ab"), 1);
}

#[test]
fn durability_modes_parse_in_any_case() {
    assert_eq!(DurabilityMode::parse("memory"), Ok(DurabilityMode::Memory));
    assert_eq!(DurabilityMode::parse("Relaxed"), Ok(DurabilityMode::Relaxed));
    assert_eq!(DurabilityMode::parse("DURABLE"), Ok(DurabilityMode::Durable));
    assert_eq!(
        DurabilityMode::parse("fsync"),
        Err("unknown durability mode: fsync".to_string())
    );
    assert_eq!(DurabilityMode::Durable.as_str(), "durable");
    assert_eq!(DurabilityMode::Memory.layer(), "L2");
    assert_eq!(DurabilityMode::Relaxed.layer(), "L3");
    assert_eq!(DurabilityMode::Durable.layer(), "L4");
    assert_eq!("relaxed".parse::<DurabilityMode>(), Ok(DurabilityMode::Relaxed));
}

#[test]
fn transaction_scopes_parse() {
    assert_eq!(
        TransactionScope::parse("per-operation"),
        Ok(TransactionScope::PerOperation)
    );
    assert_eq!(TransactionScope::parse("BATCH"), Ok(TransactionScope::Batch));
    assert!(TransactionScope::parse("nested").is_err());
    assert_eq!(TransactionScope::Batch.as_str(), "batch");
}

#[test]
fn config_defaults_per_engine() {
    assert_eq!(KvConfig::for_engine("worktable").durability, DurabilityMode::Memory);
    assert_eq!(KvConfig::for_engine("sqlite").durability, DurabilityMode::Memory);
    assert_eq!(KvConfig::for_engine("redb").durability, DurabilityMode::Relaxed);
    let config = KvConfig::default();
    assert_eq!(config.rows, 100_000);
    assert_eq!(config.scan_length, 100);
}

#[test]
fn config_validation_names_the_problem() {
    let mut config = KvConfig::default();
    assert_eq!(config.validate(), Ok(()));
    config.payload_bytes = 0;
    assert_eq!(
        config.validate(),
        Err("counts, repetitions, and payload size must be non-zero".to_string())
    );
    let mut config = KvConfig::default();
    config.rows = 10;
    config.scan_length = 11;
    assert_eq!(
        config.validate(),
        Err("--scan-length cannot exceed --rows".to_string())
    );
}

#[test]
fn point_keys_and_scan_windows_stay_inside_the_table() {
    let mut config = KvConfig::default();
    config.rows = 1_000;
    config.operations = 500;
    config.scan_operations = 200;
    config.scan_length = 100;
    let keys = config.point_keys();
    assert_eq!(keys.len(), 500);
    assert!(keys.iter().all(|key| *key < 1_000));
    assert_eq!(keys, config.point_keys());
    let starts = config.scan_starts();
    assert_eq!(starts.len(), 200);
    assert!(starts.iter().all(|start| start + 100 <= 1_000));
}
