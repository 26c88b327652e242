use wt_benchmarks::rng::Rng;
use wt_benchmarks::tatp::{
    alpha_string, call_forwarding_key, concurrency_refusal, facility_key, generate_streams,
    kind_for_choice, next_step, numeric_string, random_subset, subscriber_number,
    subscriber_rows, Config, Kind, Operation, Outcome, Step, TableReply, TableRequest,
};

#[test]
fn canonical_mix_weights_sum_to_one_hundred() {
    let mut counts = [0_u64; 7];
    for choice in 0..100 {
        counts[kind_for_choice(choice) as usize] += 1;
    }
    assert_eq!(counts, [2, 35, 10, 35, 2, 14, 2]);
}

#[test]
fn subscriber_numbers_have_spec_width() {
    assert_eq!(subscriber_number(1), "000000000000001");
    assert_eq!(subscriber_number(123_456), "000000000123456");
}

#[test]
fn subscriber_numbers_never_truncate() {
    assert_eq!(subscriber_number(0), "000000000000000");
    assert_eq!(subscriber_number(999_999_999_999_999), "999999999999999");
    assert_eq!(subscriber_number(1_000_000_000_000_000), "1000000000000000");
    assert_eq!(subscriber_number(u64::MAX), u64::MAX.to_string());
}

#[test]
fn facility_and_forwarding_keys_nest() {
    assert_eq!(facility_key(1, 2), (1u128 << 8) | 2);
    assert_eq!(call_forwarding_key(1, 2, 16), (((1u128 << 8) | 2) << 8) | 16);
    assert_ne!(facility_key(1, 0), facility_key(0, 1));
    assert_eq!(facility_key(u64::MAX, u8::MAX), (u128::from(u64::MAX) << 8) | 255);
    assert_eq!(Kind::UpdateLocation.as_str(), "update_location");
    assert_eq!(Kind::ALL.len(), 7);
}

#[test]
fn generated_text_has_its_alphabet() {
    let mut rng = Rng::new(5);
    let letters = alpha_string(&mut rng, 40);
    assert_eq!(letters.len(), 40);
    assert!(letters.bytes().all(|b| b.is_ascii_uppercase()));
    let digits = numeric_string(&mut rng, 15);
    assert_eq!(digits.len(), 15);
    assert!(digits.bytes().all(|b| b.is_ascii_digit()));
    let mut replay = Rng::new(5);
    let expected: String = (0..40).map(|_| (b'A' + replay.below(26) as u8) as char).collect();
    assert_eq!(letters, expected);
}

#[test]
fn random_subsets_are_distinct_members() {
    let mut rng = Rng::new(11);
    for _ in 0..200 {
        let subset = random_subset(&mut rng, &[1, 2, 3, 4], 1, 4);
        assert!((1..=4).contains(&subset.len()));
        let mut sorted = subset.clone();
        sorted.sort_unstable();
        sorted.dedup();
        assert_eq!(sorted.len(), subset.len());
        assert!(subset.iter().all(|value| (1..=4).contains(value)));
        let times = random_subset(&mut rng, &[0, 8, 16], 0, 3);
        assert!(times.len() <= 3);
    }
    let mut rng = Rng::new(3);
    let mut replay = Rng::new(3);
    let subset = random_subset(&mut rng, &[7, 8, 9], 3, 3);
    let mut values = vec![7u8, 8, 9];
    let length = 3 + replay.below(1) as usize;
    for index in 0..length {
        let swap = index + replay.below((values.len() - index) as u64) as usize;
        values.swap(index, swap);
    }
    assert_eq!(subset, values);
}

#[test]
fn streams_carry_the_canonical_mix() {
    let config = Config { subscribers: 100, operations: 10_000, threads: 3, ..Config::default() };
    let streams = generate_streams(&config);
    assert_eq!(streams.len(), 3);
    assert_eq!(streams.iter().map(Vec::len).sum::<usize>(), 10_000);
    assert_eq!(streams[0].len(), 3_334);
    let mut counts = [0u64; 7];
    for operation in streams.iter().flatten() {
        counts[operation.kind() as usize] += 1;
        match operation {
            Operation::GetSubscriberData { s_id }
            | Operation::GetAccessData { s_id, .. }
            | Operation::GetNewDestination { s_id, .. }
            | Operation::UpdateSubscriberData { s_id, .. } => assert!((1..=100).contains(s_id)),
            Operation::DeleteCallForwarding { sub_nbr, .. }
            | Operation::UpdateLocation { sub_nbr, .. }
            | Operation::InsertCallForwarding { sub_nbr, .. } => {
                let id: u64 = sub_nbr.parse().unwrap();
                assert!((1..=100).contains(&id));
                assert_eq!(sub_nbr.len(), 15);
            }
        }
    }
    assert!((3_200..=3_800).contains(&counts[Kind::GetAccessData as usize]));
    assert!((1_200..=1_600).contains(&counts[Kind::UpdateLocation as usize]));
}

#[test]
fn tatp_arguments() {
    let strings = |args: &[&str]| -> Vec<String> { args.iter().map(|a| a.to_string()).collect() };
    let config = Config::from_args(&strings(&["--subscribers", "10", "--threads", "2"]))
        .unwrap()
        .unwrap();
    assert_eq!(config.subscribers, 10);
    assert_eq!(config.threads, 2);
    assert_eq!(config.operations, 1_000_000);
    assert!(Config::from_args(&strings(&["-h"])).unwrap().is_none());
    assert_eq!(
        Config::from_args(&strings(&["--threads", "0"])).unwrap_err(),
        "counts, threads, repetitions, and sampling interval must be non-zero"
    );
    assert_eq!(
        Config::from_args(&strings(&["--subscribers", "1000000000000000"])).unwrap_err(),
        "--subscribers must fit TATP's 15-digit subscriber number"
    );
    assert_eq!(Config::from_args(&strings(&["--seed"])).unwrap_err(), "missing value for --seed");
    assert_eq!(Config::from_args(&strings(&["--warehouses", "1"])).unwrap_err(), "unknown option: --warehouses");
}

fn finish(operation: &Operation, replies: &[TableReply]) -> Outcome {
    match next_step(operation, replies) {
        Step::Finish(outcome) => outcome,
        Step::Request(request) => panic!("expected an outcome, got {request:?}"),
    }
}

fn request(operation: &Operation, replies: &[TableReply]) -> TableRequest {
    match next_step(operation, replies) {
        Step::Request(request) => request,
        Step::Finish(outcome) => panic!("expected a request, got {outcome:?}"),
    }
}

#[test]
fn missing_subscribers_are_unexpected_errors() {
    let get = Operation::GetSubscriberData { s_id: 7 };
    assert!(matches!(request(&get, &[]), TableRequest::SelectSubscriber { s_id: 7 }));
    assert_eq!(finish(&get, &[TableReply::Found]), Outcome::Completed);
    assert_eq!(finish(&get, &[TableReply::Missing]), Outcome::UnexpectedError);
    let update = Operation::UpdateLocation { sub_nbr: subscriber_number(7), vlr_location: 9 };
    match request(&update, &[]) {
        TableRequest::FindSubscriber { sub_nbr } => assert_eq!(sub_nbr, "000000000000007"),
        other => panic!("{other:?}"),
    }
    assert_eq!(finish(&update, &[TableReply::Missing]), Outcome::UnexpectedError);
    assert!(matches!(
        request(&update, &[TableReply::Subscriber { s_id: 7 }]),
        TableRequest::UpdateLocation { s_id: 7, vlr_location: 9 }
    ));
    assert_eq!(finish(&update, &[TableReply::Subscriber { s_id: 7 }, TableReply::Done]), Outcome::Completed);
    assert_eq!(
        finish(&update, &[TableReply::Subscriber { s_id: 7 }, TableReply::Failed]),
        Outcome::UnexpectedError
    );
}

#[test]
fn expected_aborts_are_the_three_named_misses() {
    let update = Operation::UpdateSubscriberData { s_id: 3, bit_1: 1, data_a: 5, sf_type: 2 };
    assert!(matches!(request(&update, &[]), TableRequest::SelectFacility { id } if id == facility_key(3, 2)));
    assert_eq!(finish(&update, &[TableReply::Missing]), Outcome::ExpectedAbort);
    let facility = TableReply::Facility { is_active: true };
    assert!(matches!(request(&update, &[facility]), TableRequest::UpdateBit1 { s_id: 3, bit_1: 1 }));
    assert!(matches!(
        request(&update, &[facility, TableReply::Done]),
        TableRequest::UpdateFacilityData { data_a: 5, .. }
    ));
    assert_eq!(finish(&update, &[facility, TableReply::Done, TableReply::Done]), Outcome::Completed);
    assert_eq!(finish(&update, &[facility, TableReply::Failed]), Outcome::UnexpectedError);

    let insert = Operation::InsertCallForwarding {
        sub_nbr: subscriber_number(3),
        sf_type: 2,
        start_time: 8,
        end_time: 12,
        numberx: "123".to_string(),
    };
    let found = TableReply::Subscriber { s_id: 3 };
    assert_eq!(finish(&insert, &[TableReply::Missing]), Outcome::UnexpectedError);
    assert_eq!(finish(&insert, &[found, TableReply::Missing]), Outcome::ExpectedAbort);
    match request(&insert, &[found, facility]) {
        TableRequest::InsertCallForwarding { row } => {
            assert_eq!(row.id, call_forwarding_key(3, 2, 8));
            assert_eq!(row.facility, facility_key(3, 2));
            assert_eq!((row.s_id, row.sf_type, row.start_time, row.end_time), (3, 2, 8, 12));
            assert_eq!(row.numberx, "123");
        }
        other => panic!("{other:?}"),
    }
    assert_eq!(finish(&insert, &[found, facility, TableReply::Done]), Outcome::Completed);
    assert_eq!(finish(&insert, &[found, facility, TableReply::AlreadyExists]), Outcome::ExpectedAbort);
    assert_eq!(finish(&insert, &[found, facility, TableReply::Failed]), Outcome::UnexpectedError);

    let delete = Operation::DeleteCallForwarding { sub_nbr: subscriber_number(3), sf_type: 2, start_time: 8 };
    assert!(matches!(
        request(&delete, &[found]),
        TableRequest::DeleteCallForwarding { id } if id == call_forwarding_key(3, 2, 8)
    ));
    assert_eq!(finish(&delete, &[found, TableReply::Done]), Outcome::Completed);
    assert_eq!(finish(&delete, &[found, TableReply::NotFound]), Outcome::ExpectedAbort);
    assert_eq!(finish(&delete, &[TableReply::Missing]), Outcome::UnexpectedError);

    let destination = Operation::GetNewDestination { s_id: 3, sf_type: 2, start_time: 8, end_time: 9 };
    assert_eq!(finish(&destination, &[TableReply::Missing]), Outcome::Completed);
    assert_eq!(finish(&destination, &[TableReply::Facility { is_active: false }]), Outcome::Completed);
    assert!(matches!(request(&destination, &[facility]), TableRequest::ListCallForwarding { start_time: 8, end_time: 9, .. }));
    assert_eq!(finish(&destination, &[facility, TableReply::Failed]), Outcome::UnexpectedError);
    let access = Operation::GetAccessData { s_id: 3, ai_type: 1 };
    assert_eq!(finish(&access, &[TableReply::Missing]), Outcome::Completed);
}

#[test]
fn load_draws_rows_in_order() {
    // The load's own sequence of draws, written out against the generator.
    let mut rng = Rng::new(42 ^ 0x7461_7470);
    let mut reference = rng.clone();
    let rows = subscriber_rows(&mut rng, 5);
    let s = &rows.subscriber;
    assert_eq!(s.s_id, 5);
    assert_eq!(s.sub_nbr, "000000000000005");
    assert_eq!(s.bit_1, reference.below(2) as u8);
    for b in &s.bit_rest { assert_eq!(*b, reference.below(2) as u8); }
    assert_eq!(s.bit_rest.len(), 9);
    for h in &s.hex_values { assert_eq!(*h, reference.below(16) as u8); }
    assert_eq!(s.hex_values.len(), 10);
    for v in &s.byte2_values { assert_eq!(*v, reference.below(256) as u16); }
    assert_eq!(s.byte2_values.len(), 10);
    assert_eq!(s.msc_location, reference.next_u64() as u32);
    assert_eq!(s.vlr_location, reference.next_u64() as u32);
    let access = random_subset(&mut reference, &[1, 2, 3, 4], 1, 4);
    assert_eq!(rows.access_info.len(), access.len());
    for (row, ai_type) in rows.access_info.iter().zip(&access) {
        assert_eq!(row.id, facility_key(5, *ai_type));
        assert_eq!(row.data1, reference.below(256) as u16);
        assert_eq!(row.data2, reference.below(256) as u16);
        assert_eq!(row.data3, alpha_string(&mut reference, 3));
        assert_eq!(row.data4, alpha_string(&mut reference, 5));
    }
    let facilities = random_subset(&mut reference, &[1, 2, 3, 4], 1, 4);
    assert_eq!(rows.facilities.len(), facilities.len());
    for (group, sf_type) in rows.facilities.iter().zip(&facilities) {
        let f = &group.facility;
        assert_eq!(f.id, facility_key(5, *sf_type));
        assert_eq!(f.is_active, u8::from(reference.below(100) < 85));
        assert_eq!(f.error_control, reference.below(256) as u16);
        assert_eq!(f.data_a, reference.below(256) as u16);
        assert_eq!(f.data_b, alpha_string(&mut reference, 5));
        let starts = random_subset(&mut reference, &[0, 8, 16], 0, 3);
        assert_eq!(group.call_forwarding.len(), starts.len());
        for (row, start) in group.call_forwarding.iter().zip(&starts) {
            assert_eq!(row.id, call_forwarding_key(5, *sf_type, *start));
            assert_eq!(row.end_time, start + 1 + reference.below(8) as u8);
            assert_eq!(row.numberx, numeric_string(&mut reference, 15));
        }
    }
    assert_eq!(rng.next_u64(), reference.next_u64());
}

#[test]
fn concurrent_tatp_needs_versioned_rows() {
    assert_eq!(concurrency_refusal(1, false), None);
    assert_eq!(concurrency_refusal(4, true), None);
    assert_eq!(
        concurrency_refusal(4, false).unwrap(),
        "concurrent TATP mixes reads with page mutation; rerun with --features versioned-row-publication or use --threads 1"
    );
}
