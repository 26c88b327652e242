//! The TATP telecom profile: the canonical transaction mix, the keys the four
//! tables are addressed by, the text columns' formats, the rows the load
//! writes for each subscriber, the transaction streams every worker replays,
//! and each transaction's steps: which table request comes next given the
//! replies so far, and how it ends.

use vstd::prelude::*;

use crate::rng::{
    below_draws, below_state, below_state_after, below_value, lemma_swap_keeps_multiset, swap_seq,
    Rng,
};
use crate::rng::{seed_state, xorshift};
use crate::args::{
    args_text, invalid_value, invalid_value_message, is_help, is_help_flag, missing_value,
    missing_value_message, parse_u64, parse_usize, unknown_option, unknown_option_message,
    unsigned_outcome,
};
use crate::text::{push_char, push_zero_padded, zero_padded};
use crate::ycsb::generator::{lemma_earlier_slot, lemma_round_robin, stream_len};

verus! {

/// The seven TATP transactions.
#[derive(Clone, Copy, Debug, PartialEq, Eq, Structural)]
pub enum Kind {
    DeleteCallForwarding,
    GetAccessData,
    GetNewDestination,
    GetSubscriberData,
    InsertCallForwarding,
    UpdateLocation,
    UpdateSubscriberData,
}

pub open spec fn kind_name(kind: Kind) -> Seq<char> {
    match kind {
        Kind::DeleteCallForwarding => "delete_call_forwarding"@,
        Kind::GetAccessData => "get_access_data"@,
        Kind::GetNewDestination => "get_new_destination"@,
        Kind::GetSubscriberData => "get_subscriber_data"@,
        Kind::InsertCallForwarding => "insert_call_forwarding"@,
        Kind::UpdateLocation => "update_location"@,
        Kind::UpdateSubscriberData => "update_subscriber_data"@,
    }
}

impl Kind {
    pub const ALL: [Kind; 7] = [
        Kind::DeleteCallForwarding,
        Kind::GetAccessData,
        Kind::GetNewDestination,
        Kind::GetSubscriberData,
        Kind::InsertCallForwarding,
        Kind::UpdateLocation,
        Kind::UpdateSubscriberData,
    ];

    pub fn as_str(self) -> (name: &'static str)
        ensures
            name@ == kind_name(self),
    {
        match self {
            Kind::DeleteCallForwarding => "delete_call_forwarding",
            Kind::GetAccessData => "get_access_data",
            Kind::GetNewDestination => "get_new_destination",
            Kind::GetSubscriberData => "get_subscriber_data",
            Kind::InsertCallForwarding => "insert_call_forwarding",
            Kind::UpdateLocation => "update_location",
            Kind::UpdateSubscriberData => "update_subscriber_data",
        }
    }
}

/// The transaction a percentile draw `choice` selects: 2% delete call
/// forwarding, 35% get access data, 10% get new destination, 35% get
/// subscriber data, 2% insert call forwarding, 14% update location and 2%
/// update subscriber data.
pub open spec fn kind_of_choice(choice: u64) -> Kind {
    if choice <= 1 {
        Kind::DeleteCallForwarding
    } else if choice <= 36 {
        Kind::GetAccessData
    } else if choice <= 46 {
        Kind::GetNewDestination
    } else if choice <= 81 {
        Kind::GetSubscriberData
    } else if choice <= 83 {
        Kind::InsertCallForwarding
    } else if choice <= 97 {
        Kind::UpdateLocation
    } else {
        Kind::UpdateSubscriberData
    }
}

pub fn kind_for_choice(choice: u64) -> (kind: Kind)
    ensures
        kind == kind_of_choice(choice),
{
    if choice <= 1 {
        Kind::DeleteCallForwarding
    } else if choice <= 36 {
        Kind::GetAccessData
    } else if choice <= 46 {
        Kind::GetNewDestination
    } else if choice <= 81 {
        Kind::GetSubscriberData
    } else if choice <= 83 {
        Kind::InsertCallForwarding
    } else if choice <= 97 {
        Kind::UpdateLocation
    } else {
        Kind::UpdateSubscriberData
    }
}

/// How many of the draws `0..upper` select `kind`.
pub open spec fn choices_selecting(kind: Kind, upper: nat) -> nat
    decreases upper,
{
    if upper == 0 {
        0
    } else {
        choices_selecting(kind, (upper - 1) as nat) + if kind_of_choice((upper - 1) as u64) == kind {
            1nat
        } else {
            0nat
        }
    }
}

/// The canonical mix: over the hundred percentile draws, the transactions
/// take 2, 35, 10, 35, 2, 14 and 2 of them.
pub proof fn lemma_canonical_mix()
    ensures
        choices_selecting(Kind::DeleteCallForwarding, 100) == 2,
        choices_selecting(Kind::GetAccessData, 100) == 35,
        choices_selecting(Kind::GetNewDestination, 100) == 10,
        choices_selecting(Kind::GetSubscriberData, 100) == 35,
        choices_selecting(Kind::InsertCallForwarding, 100) == 2,
        choices_selecting(Kind::UpdateLocation, 100) == 14,
        choices_selecting(Kind::UpdateSubscriberData, 100) == 2,
{
    lemma_choices_by_band(100);
}

/// The count of each kind below `upper` is the overlap of `0..upper` with
/// that kind's band of draws.
proof fn lemma_choices_by_band(upper: nat)
    requires
        upper <= 100,
    ensures
        choices_selecting(Kind::DeleteCallForwarding, upper) == band(upper, 0, 2),
        choices_selecting(Kind::GetAccessData, upper) == band(upper, 2, 37),
        choices_selecting(Kind::GetNewDestination, upper) == band(upper, 37, 47),
        choices_selecting(Kind::GetSubscriberData, upper) == band(upper, 47, 82),
        choices_selecting(Kind::InsertCallForwarding, upper) == band(upper, 82, 84),
        choices_selecting(Kind::UpdateLocation, upper) == band(upper, 84, 98),
        choices_selecting(Kind::UpdateSubscriberData, upper) == band(upper, 98, 100),
    decreases upper,
{
    if upper > 0 {
        lemma_choices_by_band((upper - 1) as nat);
    }
}

/// How many of `0..upper` lie in `low..high`.
pub open spec fn band(upper: nat, low: nat, high: nat) -> nat {
    if upper <= low {
        0
    } else if upper >= high {
        (high - low) as nat
    } else {
        (upper - low) as nat
    }
}

/// The key of subscriber `s_id`'s facility of type `sf_type`.
pub open spec fn facility_key_spec(s_id: u64, sf_type: u8) -> u128 {
    ((s_id as u128) * 256 + sf_type as u128) as u128
}

pub fn facility_key(s_id: u64, sf_type: u8) -> (key: u128)
    ensures
        key == facility_key_spec(s_id, sf_type),
{
    let key = ((s_id as u128) << 8u128) | (sf_type as u128);
    assert(key == (s_id as u128) * 256 + sf_type as u128) by (bit_vector)
        requires
            key == ((s_id as u128) << 8u128) | (sf_type as u128),
    ;
    key
}

/// The key of a call-forwarding row: its facility, then its start time.
pub open spec fn call_forwarding_key_spec(s_id: u64, sf_type: u8, start_time: u8) -> u128 {
    (facility_key_spec(s_id, sf_type) * 256 + start_time as u128) as u128
}

pub fn call_forwarding_key(s_id: u64, sf_type: u8, start_time: u8) -> (key: u128)
    ensures
        key == call_forwarding_key_spec(s_id, sf_type, start_time),
{
    let facility = facility_key(s_id, sf_type);
    let key = (facility << 8u128) | (start_time as u128);
    assert(key == facility * 256 + start_time as u128) by (bit_vector)
        requires
            key == (facility << 8u128) | (start_time as u128),
            facility < 0x1_0000_0000_0000_0000_0000_00u128,
    ;
    key
}

/// Different facilities, and different call-forwarding rows, never share a
/// key.
pub proof fn lemma_keys_distinct(s1: u64, t1: u8, c1: u8, s2: u64, t2: u8, c2: u8)
    ensures
        (s1 != s2 || t1 != t2) ==> facility_key_spec(s1, t1) != facility_key_spec(s2, t2),
        (s1 != s2 || t1 != t2 || c1 != c2) ==> call_forwarding_key_spec(s1, t1, c1)
            != call_forwarding_key_spec(s2, t2, c2),
{
}

/// A subscriber's number: the id as fifteen digits, zero padded.
pub fn subscriber_number(s_id: u64) -> (number: String)
    ensures
        number@ == zero_padded(s_id as nat, 15),
{
    let mut number = String::new();
    push_zero_padded(&mut number, s_id, 15);
    number
}

/// `length` capital letters drawn from generator state `state`.
pub open spec fn alpha_chars(state: u64, length: nat) -> Seq<char> {
    Seq::new(length, |i: int| ((65 + below_draws(state, 26, length)[i]) as u32) as char)
}

/// `length` decimal digits drawn from generator state `state`.
pub open spec fn numeric_chars(state: u64, length: nat) -> Seq<char> {
    Seq::new(length, |i: int| ((48 + below_draws(state, 10, length)[i]) as u32) as char)
}

/// A string of `length` capital letters, one draw each.
pub fn alpha_string(rng: &mut Rng, length: usize) -> (text: String)
    ensures
        text@ == alpha_chars(old(rng)@, length as nat),
        final(rng)@ == below_state_after(old(rng)@, 26, length as nat),
{
    let ghost start = rng@;
    let mut text = String::new();
    let mut i: usize = 0;
    while i < length
        invariant
            i <= length,
            rng@ == below_state_after(start, 26, i as nat),
            text@ == alpha_chars(start, i as nat),
        decreases length - i,
    {
        let offset = rng.below(26);
        push_char(&mut text, (65 + offset as u8) as char);
        assert(text@ =~= alpha_chars(start, (i + 1) as nat));
        i = i + 1;
    }
    text
}

/// A string of `length` decimal digits, one draw each.
pub fn numeric_string(rng: &mut Rng, length: usize) -> (text: String)
    ensures
        text@ == numeric_chars(old(rng)@, length as nat),
        final(rng)@ == below_state_after(old(rng)@, 10, length as nat),
{
    let ghost start = rng@;
    let mut text = String::new();
    let mut i: usize = 0;
    while i < length
        invariant
            i <= length,
            rng@ == below_state_after(start, 10, i as nat),
            text@ == numeric_chars(start, i as nat),
        decreases length - i,
    {
        let offset = rng.below(10);
        push_char(&mut text, (48 + offset as u8) as char);
        assert(text@ =~= numeric_chars(start, (i + 1) as nat));
        i = i + 1;
    }
    text
}

/// The first `length` positions of a forward Fisher-Yates over `values`
/// from position `index`, drawing each partner below the count remaining;
/// with the generator state after.
pub open spec fn partial_shuffle(values: Seq<u8>, state: u64, index: nat, length: nat) -> (
    Seq<u8>,
    u64,
)
    decreases length - index,
{
    if index >= length || index >= values.len() {
        (values, state)
    } else {
        let remaining = (values.len() - index) as u64;
        let partner = index + below_value(state, remaining);
        partial_shuffle(
            swap_seq(values, index as int, partner),
            below_state(state, remaining),
            index + 1,
            length,
        )
    }
}

/// A random subset of `source` of between `minimum` and `maximum` elements,
/// in random order, and the generator state after.
pub open spec fn random_subset_spec(source: Seq<u8>, state: u64, minimum: nat, maximum: nat) -> (
    Seq<u8>,
    u64,
) {
    let length = (minimum + below_value(state, (maximum - minimum + 1) as u64)) as nat;
    let (shuffled, after) = partial_shuffle(
        source,
        below_state(state, (maximum - minimum + 1) as u64),
        0,
        length,
    );
    (shuffled.take(length as int), after)
}


/// A random subset of `source` of between `minimum` and `maximum` elements,
/// in random order. Every element comes from `source`, and a source without
/// repeats gives a subset without repeats.
pub fn random_subset(rng: &mut Rng, source: &[u8], minimum: usize, maximum: usize) -> (subset: Vec<u8>)
    requires
        minimum <= maximum <= source@.len(),
        maximum - minimum < usize::MAX,
    ensures
        (subset@, final(rng)@) == random_subset_spec(
            source@,
            old(rng)@,
            minimum as nat,
            maximum as nat,
        ),
        minimum <= subset@.len() <= maximum,
        forall|i: int| 0 <= i < subset@.len() ==> source@.contains(#[trigger] subset@[i]),
        source@.no_duplicates() ==> subset@.no_duplicates(),
{
    let mut values: Vec<u8> = Vec::new();
    let mut k: usize = 0;
    while k < source.len()
        invariant
            k <= source@.len(),
            values@ == source@.take(k as int),
        decreases source@.len() - k,
    {
        values.push(source[k]);
        k = k + 1;
        assert(values@ =~= source@.take(k as int));
    }
    assert(values@ =~= source@);
    let ghost start = rng@;
    let span = maximum - minimum + 1;
    let length = minimum + rng.below(span as u64) as usize;
    let ghost after_length = rng@;
    let mut index: usize = 0;
    while index < length
        invariant
            length <= maximum <= source@.len(),
            index <= length,
            values@.len() == source@.len(),
            values@.to_multiset() == source@.to_multiset(),
            partial_shuffle(values@, rng@, index as nat, length as nat) == partial_shuffle(
                source@,
                after_length,
                0,
                length as nat,
            ),
        decreases length - index,
    {
        let remaining = values.len() - index;
        let offset = rng.below(remaining as u64);
        let partner = index + offset as usize;
        let ghost before = values@;
        values.as_mut_slice().swap(index, partner);
        proof {
            lemma_swap_keeps_multiset(before, index as int, partner as int);
        }
        index = index + 1;
    }
    let ghost shuffled = values@;
    values.truncate(length);
    proof {
        assert(values@ =~= shuffled.take(length as int));
        assert forall|i: int| 0 <= i < values@.len() implies source@.contains(#[trigger] values@[i]) by {
            assert(shuffled.contains(shuffled[i]));
            vstd::seq_lib::to_multiset_contains(shuffled, shuffled[i]);
            vstd::seq_lib::to_multiset_contains(source@, shuffled[i]);
        }
        if source@.no_duplicates() {
            source@.lemma_multiset_has_no_duplicates();
            assert forall|x: u8| shuffled.to_multiset().contains(x) implies shuffled.to_multiset().count(x) == 1 by {}
            shuffled.lemma_multiset_has_no_duplicates_conv();
        }
    }
    values
}


/// One TATP transaction with its arguments.
#[derive(Debug)]
pub enum Operation {
    DeleteCallForwarding { sub_nbr: String, sf_type: u8, start_time: u8 },
    GetAccessData { s_id: u64, ai_type: u8 },
    GetNewDestination { s_id: u64, sf_type: u8, start_time: u8, end_time: u8 },
    GetSubscriberData { s_id: u64 },
    InsertCallForwarding {
        sub_nbr: String,
        sf_type: u8,
        start_time: u8,
        end_time: u8,
        numberx: String,
    },
    UpdateLocation { sub_nbr: String, vlr_location: u32 },
    UpdateSubscriberData { s_id: u64, bit_1: u8, data_a: u16, sf_type: u8 },
}

/// A transaction with its text taken by value.
pub enum OperationView {
    DeleteCallForwarding { sub_nbr: Seq<char>, sf_type: u8, start_time: u8 },
    GetAccessData { s_id: u64, ai_type: u8 },
    GetNewDestination { s_id: u64, sf_type: u8, start_time: u8, end_time: u8 },
    GetSubscriberData { s_id: u64 },
    InsertCallForwarding {
        sub_nbr: Seq<char>,
        sf_type: u8,
        start_time: u8,
        end_time: u8,
        numberx: Seq<char>,
    },
    UpdateLocation { sub_nbr: Seq<char>, vlr_location: u32 },
    UpdateSubscriberData { s_id: u64, bit_1: u8, data_a: u16, sf_type: u8 },
}

impl View for Operation {
    type V = OperationView;

    open spec fn view(&self) -> OperationView {
        match self {
            Operation::DeleteCallForwarding { sub_nbr, sf_type, start_time } => {
                OperationView::DeleteCallForwarding {
                    sub_nbr: sub_nbr@,
                    sf_type: *sf_type,
                    start_time: *start_time,
                }
            },
            Operation::GetAccessData { s_id, ai_type } => {
                OperationView::GetAccessData { s_id: *s_id, ai_type: *ai_type }
            },
            Operation::GetNewDestination { s_id, sf_type, start_time, end_time } => {
                OperationView::GetNewDestination {
                    s_id: *s_id,
                    sf_type: *sf_type,
                    start_time: *start_time,
                    end_time: *end_time,
                }
            },
            Operation::GetSubscriberData { s_id } => OperationView::GetSubscriberData {
                s_id: *s_id,
            },
            Operation::InsertCallForwarding { sub_nbr, sf_type, start_time, end_time, numberx } => {
                OperationView::InsertCallForwarding {
                    sub_nbr: sub_nbr@,
                    sf_type: *sf_type,
                    start_time: *start_time,
                    end_time: *end_time,
                    numberx: numberx@,
                }
            },
            Operation::UpdateLocation { sub_nbr, vlr_location } => {
                OperationView::UpdateLocation { sub_nbr: sub_nbr@, vlr_location: *vlr_location }
            },
            Operation::UpdateSubscriberData { s_id, bit_1, data_a, sf_type } => {
                OperationView::UpdateSubscriberData {
                    s_id: *s_id,
                    bit_1: *bit_1,
                    data_a: *data_a,
                    sf_type: *sf_type,
                }
            },
        }
    }
}

pub open spec fn view_kind(operation: OperationView) -> Kind {
    match operation {
        OperationView::DeleteCallForwarding { .. } => Kind::DeleteCallForwarding,
        OperationView::GetAccessData { .. } => Kind::GetAccessData,
        OperationView::GetNewDestination { .. } => Kind::GetNewDestination,
        OperationView::GetSubscriberData { .. } => Kind::GetSubscriberData,
        OperationView::InsertCallForwarding { .. } => Kind::InsertCallForwarding,
        OperationView::UpdateLocation { .. } => Kind::UpdateLocation,
        OperationView::UpdateSubscriberData { .. } => Kind::UpdateSubscriberData,
    }
}

impl Operation {
    pub fn kind(&self) -> (kind: Kind)
        ensures
            kind == view_kind(self@),
    {
        match self {
            Operation::DeleteCallForwarding { .. } => Kind::DeleteCallForwarding,
            Operation::GetAccessData { .. } => Kind::GetAccessData,
            Operation::GetNewDestination { .. } => Kind::GetNewDestination,
            Operation::GetSubscriberData { .. } => Kind::GetSubscriberData,
            Operation::InsertCallForwarding { .. } => Kind::InsertCallForwarding,
            Operation::UpdateLocation { .. } => Kind::UpdateLocation,
            Operation::UpdateSubscriberData { .. } => Kind::UpdateSubscriberData,
        }
    }
}

/// The transaction drawn from generator state `state` over `subscribers`
/// subscribers, and the state after it. Every transaction draws its kind, a
/// subscriber, a facility type and a start time; some then draw more.
pub open spec fn operation_from(state: u64, subscribers: u64) -> (OperationView, u64) {
    let kind = kind_of_choice(below_value(state, 100));
    let s1 = below_state(state, 100);
    let s_id = (1 + below_value(s1, subscribers)) as u64;
    let s2 = below_state(s1, subscribers);
    let sf_type = (1 + below_value(s2, 4)) as u8;
    let s3 = below_state(s2, 4);
    let start_time = (8 * below_value(s3, 3)) as u8;
    let s4 = below_state(s3, 3);
    let number = zero_padded(s_id as nat, 15);
    match kind {
        Kind::DeleteCallForwarding => (
            OperationView::DeleteCallForwarding { sub_nbr: number, sf_type, start_time },
            s4,
        ),
        Kind::GetAccessData => (
            OperationView::GetAccessData { s_id, ai_type: (1 + below_value(s4, 4)) as u8 },
            below_state(s4, 4),
        ),
        Kind::GetNewDestination => (
            OperationView::GetNewDestination {
                s_id,
                sf_type,
                start_time,
                end_time: (1 + below_value(s4, 24)) as u8,
            },
            below_state(s4, 24),
        ),
        Kind::GetSubscriberData => (OperationView::GetSubscriberData { s_id }, s4),
        Kind::InsertCallForwarding => (
            OperationView::InsertCallForwarding {
                sub_nbr: number,
                sf_type,
                start_time,
                end_time: (1 + below_value(s4, 24)) as u8,
                numberx: number,
            },
            below_state(s4, 24),
        ),
        Kind::UpdateLocation => (
            OperationView::UpdateLocation { sub_nbr: number, vlr_location: xorshift(s4) as u32 },
            xorshift(s4),
        ),
        Kind::UpdateSubscriberData => (
            OperationView::UpdateSubscriberData {
                s_id,
                bit_1: below_value(s4, 2) as u8,
                data_a: below_value(below_state(s4, 2), 256) as u16,
                sf_type,
            },
            below_state(below_state(s4, 2), 256),
        ),
    }
}

/// The generator state before transaction `i` of a run seeded with `seed`.
pub open spec fn state_before(seed: u64, subscribers: u64, i: nat) -> u64
    decreases i,
{
    if i == 0 {
        seed_state(seed ^ 0x6d69_7873)
    } else {
        operation_from(state_before(seed, subscribers, (i - 1) as nat), subscribers).1
    }
}

/// Draws one transaction.
fn next_operation(rng: &mut Rng, subscribers: u64) -> (operation: Operation)
    ensures
        (operation@, final(rng)@) == operation_from(old(rng)@, subscribers),
{
    let choice = rng.below(100);
    let kind = kind_for_choice(choice);
    let s_id = 1 + rng.below(subscribers);
    let sf_type = (1 + rng.below(4)) as u8;
    let start_time = (8 * rng.below(3)) as u8;
    match kind {
        Kind::DeleteCallForwarding => Operation::DeleteCallForwarding {
            sub_nbr: subscriber_number(s_id),
            sf_type,
            start_time,
        },
        Kind::GetAccessData => Operation::GetAccessData { s_id, ai_type: (1 + rng.below(4)) as u8 },
        Kind::GetNewDestination => Operation::GetNewDestination {
            s_id,
            sf_type,
            start_time,
            end_time: (1 + rng.below(24)) as u8,
        },
        Kind::GetSubscriberData => Operation::GetSubscriberData { s_id },
        Kind::InsertCallForwarding => Operation::InsertCallForwarding {
            sub_nbr: subscriber_number(s_id),
            sf_type,
            start_time,
            end_time: (1 + rng.below(24)) as u8,
            numberx: subscriber_number(s_id),
        },
        Kind::UpdateLocation => Operation::UpdateLocation {
            sub_nbr: subscriber_number(s_id),
            vlr_location: rng.next_u64() as u32,
        },
        Kind::UpdateSubscriberData => {
            let bit_1 = rng.below(2) as u8;
            let data_a = rng.below(256) as u16;
            Operation::UpdateSubscriberData { s_id, bit_1, data_a, sf_type }
        },
    }
}

/// `operations` transactions dealt round-robin to `threads` streams:
/// transaction `i` is the `i / threads`-th of stream `i % threads`.
pub fn generate_streams(config: &Config) -> (streams: Vec<Vec<Operation>>)
    requires
        config.threads > 0,
    ensures
        streams@.len() == config.threads,
        forall|t: int|
            0 <= t < config.threads ==> (#[trigger] streams@[t])@.len() == stream_len(
                config.operations as nat,
                config.threads as nat,
                t as nat,
            ),
        forall|i: int|
            0 <= i < config.operations ==> (#[trigger] streams@[i % (config.threads as int)]@[i / (
            config.threads as int)])@ == operation_from(state_before(config.seed, config.subscribers, i as nat), config.subscribers).0,
{
    let subscribers = config.subscribers;
    let operations = config.operations;
    let threads = config.threads;
    let seed = config.seed;
    let mut rng = Rng::new(seed ^ 0x6d69_7873);
    let mut streams: Vec<Vec<Operation>> = Vec::new();
    let mut t: usize = 0;
    while t < threads
        invariant
            t <= threads,
            streams@.len() == t,
            forall|u: int| 0 <= u < t ==> (#[trigger] streams@[u])@.len() == 0,
        decreases threads - t,
    {
        streams.push(Vec::new());
        t += 1;
    }
    let mut index: u64 = 0;
    while index < operations
        invariant
            threads > 0,
            index <= operations,
            rng@ == state_before(seed, subscribers, index as nat),
            streams@.len() == threads,
            forall|u: int|
                0 <= u < threads ==> (#[trigger] streams@[u])@.len() == stream_len(
                    index as nat,
                    threads as nat,
                    u as nat,
                ),
            forall|i: int|
                0 <= i < index ==> (#[trigger] streams@[i % (threads as int)]@[i / (
                threads as int)])@ == operation_from(
                    state_before(seed, subscribers, i as nat),
                    subscribers,
                ).0,
        decreases operations - index,
    {
        let operation = next_operation(&mut rng, subscribers);
        let ghost made = operation@;
        let slot = (index % (threads as u64)) as usize;
        let ghost old_streams = streams@;
        streams[slot].push(operation);
        proof {
            lemma_round_robin(index as nat, threads as nat);
            assert forall|u: int|
                0 <= u < threads implies (#[trigger] streams@[u])@.len() == stream_len(
                (index + 1) as nat,
                threads as nat,
                u as nat,
            ) by {
                if u != slot {
                    assert(streams@[u] == old_streams[u]);
                }
            }
            assert forall|i: int| 0 <= i < index + 1 implies (#[trigger] streams@[i % (
            threads as int)]@[i / (threads as int)])@ == operation_from(
                state_before(seed, subscribers, i as nat),
                subscribers,
            ).0 by {
                if i == index {
                    assert(i % (threads as int) == slot);
                    assert(i / (threads as int) == old_streams[slot as int]@.len());
                } else {
                    lemma_earlier_slot(i as nat, index as nat, threads as nat);
                    assert(streams@[i % (threads as int)]@[i / (threads as int)] == old_streams[i
                        % (threads as int)]@[i / (threads as int)]);
                }
            }
        }
        index += 1;
    }
    streams
}


/// The sizes and seed of a TATP run.
#[derive(Clone, Debug)]
pub struct Config {
    pub subscribers: u64,
    pub operations: u64,
    pub threads: usize,
    pub repetitions: usize,
    pub sample_every: u64,
    pub seed: u64,
}

pub open spec fn default_config() -> Config {
    Config {
        subscribers: 100_000,
        operations: 1_000_000,
        threads: 1,
        repetitions: 5,
        sample_every: 1_000,
        seed: 42,
    }
}

impl Default for Config {
    fn default() -> (config: Config)
        ensures
            config == default_config(),
    {
        Config {
            subscribers: 100_000,
            operations: 1_000_000,
            threads: 1,
            repetitions: 5,
            sample_every: 1_000,
            seed: 42,
        }
    }
}

/// The largest subscriber count whose numbers fit TATP's fifteen digits.
pub const MAX_SUBSCRIBERS: u64 = 999_999_999_999_999;

/// Why a configuration is refused, if it is.
pub open spec fn config_refusal(config: Config) -> Option<Seq<char>> {
    if config.subscribers == 0 || config.operations == 0 || config.threads == 0
        || config.repetitions == 0 || config.sample_every == 0 {
        Some("counts, threads, repetitions, and sampling interval must be non-zero"@)
    } else if config.subscribers > MAX_SUBSCRIBERS {
        Some("--subscribers must fit TATP's 15-digit subscriber number"@)
    } else {
        None
    }
}

/// The number a flag's value names, or the refusal of it.
pub open spec fn count_value(flag: Seq<char>, value: Seq<char>, max: nat) -> Result<nat, Seq<char>> {
    match unsigned_outcome(value, max) {
        Ok(n) => Ok(n),
        Err(error) => Err(invalid_value_message(flag, error)),
    }
}

/// The configuration after one `flag value` pair, or why it is refused.
pub open spec fn config_apply(config: Config, flag: Seq<char>, value: Seq<char>) -> Result<
    Config,
    Seq<char>,
> {
    if flag == "--subscribers"@ {
        match count_value(flag, value, u64::MAX as nat) {
            Ok(n) => Ok(Config { subscribers: n as u64, ..config }),
            Err(message) => Err(message),
        }
    } else if flag == "--operations"@ {
        match count_value(flag, value, u64::MAX as nat) {
            Ok(n) => Ok(Config { operations: n as u64, ..config }),
            Err(message) => Err(message),
        }
    } else if flag == "--threads"@ {
        match count_value(flag, value, usize::MAX as nat) {
            Ok(n) => Ok(Config { threads: n as usize, ..config }),
            Err(message) => Err(message),
        }
    } else if flag == "--repetitions"@ {
        match count_value(flag, value, usize::MAX as nat) {
            Ok(n) => Ok(Config { repetitions: n as usize, ..config }),
            Err(message) => Err(message),
        }
    } else if flag == "--sample-every"@ {
        match count_value(flag, value, u64::MAX as nat) {
            Ok(n) => Ok(Config { sample_every: n as u64, ..config }),
            Err(message) => Err(message),
        }
    } else if flag == "--seed"@ {
        match count_value(flag, value, u64::MAX as nat) {
            Ok(n) => Ok(Config { seed: n as u64, ..config }),
            Err(message) => Err(message),
        }
    } else {
        Err(unknown_option_message(flag))
    }
}

/// What the arguments come to: a help flag asks for the usage text (`None`);
/// a flag with no value, a bad value, an unknown flag or a refused
/// configuration is refused; anything else is the configuration.
pub open spec fn tatp_args(args: Seq<Seq<char>>, config: Config) -> Result<Option<Config>, Seq<char>>
    decreases args.len(),
{
    if args.len() == 0 {
        match config_refusal(config) {
            Some(message) => Err(message),
            None => Ok(Some(config)),
        }
    } else if is_help_flag(args[0]) {
        Ok(None)
    } else if args.len() == 1 {
        Err(missing_value_message(args[0]))
    } else {
        match config_apply(config, args[0], args[1]) {
            Ok(next) => tatp_args(args.skip(2), next),
            Err(message) => Err(message),
        }
    }
}

fn config_apply_exec(config: Config, flag: &str, value: &str) -> (applied: Result<Config, String>)
    ensures
        match (applied, config_apply(config, flag@, value@)) {
            (Ok(a), Ok(b)) => a == b,
            (Err(m), Err(e)) => m@ == e,
            _ => false,
        },
{
    let mut config = config;
    if crate::text::str_eq(flag, "--subscribers") {
        match parse_u64(value) {
            Ok(n) => config.subscribers = n,
            Err(error) => return Err(invalid_value(flag, error)),
        }
    } else if crate::text::str_eq(flag, "--operations") {
        match parse_u64(value) {
            Ok(n) => config.operations = n,
            Err(error) => return Err(invalid_value(flag, error)),
        }
    } else if crate::text::str_eq(flag, "--threads") {
        match parse_usize(value) {
            Ok(n) => config.threads = n,
            Err(error) => return Err(invalid_value(flag, error)),
        }
    } else if crate::text::str_eq(flag, "--repetitions") {
        match parse_usize(value) {
            Ok(n) => config.repetitions = n,
            Err(error) => return Err(invalid_value(flag, error)),
        }
    } else if crate::text::str_eq(flag, "--sample-every") {
        match parse_u64(value) {
            Ok(n) => config.sample_every = n,
            Err(error) => return Err(invalid_value(flag, error)),
        }
    } else if crate::text::str_eq(flag, "--seed") {
        match parse_u64(value) {
            Ok(n) => config.seed = n,
            Err(error) => return Err(invalid_value(flag, error)),
        }
    } else {
        return Err(unknown_option(flag));
    }
    Ok(config)
}

impl Config {
    /// Reads the runner's arguments, after the program name. `Ok(None)` asks
    /// for the usage text.
    pub fn from_args(args: &[String]) -> (parsed: Result<Option<Config>, String>)
        ensures
            match (parsed, tatp_args(args_text(args@), default_config())) {
                (Ok(a), Ok(b)) => a == b,
                (Err(m), Err(e)) => m@ == e,
                _ => false,
            },
    {
        let mut config = Config::default();
        let ghost text = args_text(args@);
        let n = args.len();
        let mut i: usize = 0;
        assert(text.skip(0) =~= text);
        while i < n
            invariant
                n == args@.len(),
                text == args_text(args@),
                i <= n,
                tatp_args(text, default_config()) == tatp_args(text.skip(i as int), config),
            decreases n - i,
        {
            let flag = args[i].as_str();
            assert(text.skip(i as int)[0] == flag@);
            if is_help(flag) {
                return Ok(None);
            }
            if i + 1 >= n {
                return Err(missing_value(flag));
            }
            let value = args[i + 1].as_str();
            assert(text.skip(i as int)[1] == value@);
            match config_apply_exec(config, flag, value) {
                Ok(next) => config = next,
                Err(message) => return Err(message),
            }
            assert(text.skip(i as int).skip(2) =~= text.skip(i + 2));
            i = i + 2;
        }
        if config.subscribers == 0 || config.operations == 0 || config.threads == 0
            || config.repetitions == 0 || config.sample_every == 0 {
            return Err(
                String::from_str(
                    "counts, threads, repetitions, and sampling interval must be non-zero",
                ),
            );
        }
        if config.subscribers > MAX_SUBSCRIBERS {
            return Err(String::from_str("--subscribers must fit TATP's 15-digit subscriber number"));
        }
        Ok(Some(config))
    }
}


/// Whether a transaction addresses a subscriber the load created: one with
/// an id in `1..=subscribers`, named by id or by that id's number.
pub open spec fn addresses_loaded_subscriber(operation: OperationView, subscribers: u64) -> bool {
    match operation {
        OperationView::DeleteCallForwarding { sub_nbr, .. } => exists|s_id: u64|
            1 <= s_id <= subscribers && sub_nbr == #[trigger] zero_padded(s_id as nat, 15),
        OperationView::GetAccessData { s_id, .. } => 1 <= s_id <= subscribers,
        OperationView::GetNewDestination { s_id, .. } => 1 <= s_id <= subscribers,
        OperationView::GetSubscriberData { s_id } => 1 <= s_id <= subscribers,
        OperationView::InsertCallForwarding { sub_nbr, .. } => exists|s_id: u64|
            1 <= s_id <= subscribers && sub_nbr == #[trigger] zero_padded(s_id as nat, 15),
        OperationView::UpdateLocation { sub_nbr, .. } => exists|s_id: u64|
            1 <= s_id <= subscribers && sub_nbr == #[trigger] zero_padded(s_id as nat, 15),
        OperationView::UpdateSubscriberData { s_id, .. } => 1 <= s_id <= subscribers,
    }
}

/// Every generated transaction addresses a subscriber the load created.
pub proof fn lemma_transactions_address_loaded_subscribers(state: u64, subscribers: u64)
    requires
        subscribers > 0,
    ensures
        addresses_loaded_subscriber(operation_from(state, subscribers).0, subscribers),
{
    let s1 = below_state(state, 100);
    crate::rng::lemma_scale_below_bound(xorshift(s1), subscribers);
    let s_id = (1 + below_value(s1, subscribers)) as u64;
    assert(zero_padded(s_id as nat, 15) == zero_padded(s_id as nat, 15));
}

/// Refuses a concurrent TATP run unless rows are published versioned: every
/// worker's mix reads while others mutate pages.
pub fn concurrency_refusal(threads: usize, versioned_row_publication: bool) -> (refusal: Option<String>)
    ensures
        refusal is Some <==> (threads > 1 && !versioned_row_publication),
        refusal matches Some(m) ==> m@
            == "concurrent TATP mixes reads with page mutation; rerun with --features versioned-row-publication or use --threads 1"@,
{
    if threads > 1 && !versioned_row_publication {
        Some(
            String::from_str(
                "concurrent TATP mixes reads with page mutation; rerun with --features versioned-row-publication or use --threads 1",
            ),
        )
    } else {
        None
    }
}

/// How a transaction ended.
#[derive(Clone, Copy, Debug, PartialEq, Eq, Structural)]
pub enum Outcome {
    Completed,
    /// A duplicate insert, a missing facility or a missing delete: part of
    /// the workload, not a failure.
    ExpectedAbort,
    UnexpectedError,
}

/// A call-forwarding row as the table stores it.
#[derive(Debug)]
pub struct CallForwardingRow {
    pub id: u128,
    pub s_id: u64,
    pub sf_type: u8,
    pub start_time: u8,
    pub facility: u128,
    pub end_time: u8,
    pub numberx: String,
}

/// A call-forwarding row with its number taken by value.
pub struct CallForwardingView {
    pub id: u128,
    pub s_id: u64,
    pub sf_type: u8,
    pub start_time: u8,
    pub facility: u128,
    pub end_time: u8,
    pub numberx: Seq<char>,
}

impl View for CallForwardingRow {
    type V = CallForwardingView;

    open spec fn view(&self) -> CallForwardingView {
        CallForwardingView {
            id: self.id,
            s_id: self.s_id,
            sf_type: self.sf_type,
            start_time: self.start_time,
            facility: self.facility,
            end_time: self.end_time,
            numberx: self.numberx@,
        }
    }
}

/// One request a transaction makes of the tables.
#[derive(Debug)]
pub enum TableRequest {
    /// Look a subscriber up by id: `Found` or `Missing`.
    SelectSubscriber { s_id: u64 },
    /// Look access info up by key: any reply completes.
    SelectAccessInfo { id: u128 },
    /// Look a special facility up by key: `Facility` or `Missing`.
    SelectFacility { id: u128 },
    /// List a facility's call-forwarding rows that cover the window: `Done`
    /// or `Failed`.
    ListCallForwarding { facility: u128, start_time: u8, end_time: u8 },
    /// Look a subscriber up by number: `Subscriber` or `Missing`.
    FindSubscriber { sub_nbr: String },
    /// Set a subscriber's location: `Done` or `Failed`.
    UpdateLocation { s_id: u64, vlr_location: u32 },
    /// Set a subscriber's first bit: `Done` or `Failed`.
    UpdateBit1 { s_id: u64, bit_1: u8 },
    /// Write back the facility just read with `data_a` changed: `Done` or
    /// `Failed`.
    UpdateFacilityData { id: u128, data_a: u16 },
    /// Insert a call-forwarding row: `Done`, `AlreadyExists` or `Failed`.
    InsertCallForwarding { row: CallForwardingRow },
    /// Delete a call-forwarding row: `Done`, `NotFound` or `Failed`.
    DeleteCallForwarding { id: u128 },
}

/// A request with its text taken by value.
pub enum TableRequestView {
    SelectSubscriber { s_id: u64 },
    SelectAccessInfo { id: u128 },
    SelectFacility { id: u128 },
    ListCallForwarding { facility: u128, start_time: u8, end_time: u8 },
    FindSubscriber { sub_nbr: Seq<char> },
    UpdateLocation { s_id: u64, vlr_location: u32 },
    UpdateBit1 { s_id: u64, bit_1: u8 },
    UpdateFacilityData { id: u128, data_a: u16 },
    InsertCallForwarding { row: CallForwardingView },
    DeleteCallForwarding { id: u128 },
}

impl View for TableRequest {
    type V = TableRequestView;

    open spec fn view(&self) -> TableRequestView {
        match self {
            TableRequest::SelectSubscriber { s_id } => TableRequestView::SelectSubscriber {
                s_id: *s_id,
            },
            TableRequest::SelectAccessInfo { id } => TableRequestView::SelectAccessInfo {
                id: *id,
            },
            TableRequest::SelectFacility { id } => TableRequestView::SelectFacility { id: *id },
            TableRequest::ListCallForwarding { facility, start_time, end_time } => {
                TableRequestView::ListCallForwarding {
                    facility: *facility,
                    start_time: *start_time,
                    end_time: *end_time,
                }
            },
            TableRequest::FindSubscriber { sub_nbr } => TableRequestView::FindSubscriber {
                sub_nbr: sub_nbr@,
            },
            TableRequest::UpdateLocation { s_id, vlr_location } => {
                TableRequestView::UpdateLocation { s_id: *s_id, vlr_location: *vlr_location }
            },
            TableRequest::UpdateBit1 { s_id, bit_1 } => TableRequestView::UpdateBit1 {
                s_id: *s_id,
                bit_1: *bit_1,
            },
            TableRequest::UpdateFacilityData { id, data_a } => {
                TableRequestView::UpdateFacilityData { id: *id, data_a: *data_a }
            },
            TableRequest::InsertCallForwarding { row } => TableRequestView::InsertCallForwarding {
                row: row@,
            },
            TableRequest::DeleteCallForwarding { id } => TableRequestView::DeleteCallForwarding {
                id: *id,
            },
        }
    }
}

/// What the tables answered to the last request.
#[derive(Clone, Copy, Debug, PartialEq, Eq, Structural)]
pub enum TableReply {
    /// The row looked up exists.
    Found,
    /// The row looked up, or the subscriber or facility, does not exist.
    Missing,
    /// The facility looked up exists, active or not.
    Facility { is_active: bool },
    /// The subscriber looked up by number exists, with this id.
    Subscriber { s_id: u64 },
    /// The write or the listing succeeded.
    Done,
    /// The insert found its key present.
    AlreadyExists,
    /// The delete found no row.
    NotFound,
    /// The tables reported any other error.
    Failed,
}

/// What a transaction does next: ask the tables, or end.
#[derive(Debug)]
pub enum Step {
    Request(TableRequest),
    Finish(Outcome),
}

pub enum StepView {
    Request(TableRequestView),
    Finish(Outcome),
}

impl View for Step {
    type V = StepView;

    open spec fn view(&self) -> StepView {
        match self {
            Step::Request(request) => StepView::Request(request@),
            Step::Finish(outcome) => StepView::Finish(*outcome),
        }
    }
}

pub open spec fn finish(outcome: Outcome) -> StepView {
    StepView::Finish(outcome)
}

pub open spec fn ask(request: TableRequestView) -> StepView {
    StepView::Request(request)
}

/// The next step of `operation` once the tables have given `replies` to its
/// requests so far, in order. A missing subscriber is an unexpected error; a
/// missing facility before an update or insert, an insert that finds its key
/// present and a delete that finds no row are expected aborts; any other
/// table error is unexpected; everything else completes.
pub open spec fn transaction_step(operation: OperationView, replies: Seq<TableReply>) -> StepView {
    let n = replies.len();
    match operation {
        OperationView::GetSubscriberData { s_id } => if n == 0 {
            ask(TableRequestView::SelectSubscriber { s_id })
        } else if replies[0] == TableReply::Found {
            finish(Outcome::Completed)
        } else {
            finish(Outcome::UnexpectedError)
        },
        OperationView::GetAccessData { s_id, ai_type } => if n == 0 {
            ask(TableRequestView::SelectAccessInfo { id: facility_key_spec(s_id, ai_type) })
        } else {
            finish(Outcome::Completed)
        },
        OperationView::GetNewDestination { s_id, sf_type, start_time, end_time } => if n == 0 {
            ask(TableRequestView::SelectFacility { id: facility_key_spec(s_id, sf_type) })
        } else {
            match replies[0] {
                TableReply::Missing => finish(Outcome::Completed),
                TableReply::Facility { is_active } => if !is_active {
                    finish(Outcome::Completed)
                } else if n == 1 {
                    ask(
                        TableRequestView::ListCallForwarding {
                            facility: facility_key_spec(s_id, sf_type),
                            start_time,
                            end_time,
                        },
                    )
                } else if replies[1] == TableReply::Done {
                    finish(Outcome::Completed)
                } else {
                    finish(Outcome::UnexpectedError)
                },
                _ => finish(Outcome::UnexpectedError),
            }
        },
        OperationView::UpdateLocation { sub_nbr, vlr_location } => if n == 0 {
            ask(TableRequestView::FindSubscriber { sub_nbr })
        } else {
            match replies[0] {
                TableReply::Subscriber { s_id } => if n == 1 {
                    ask(TableRequestView::UpdateLocation { s_id, vlr_location })
                } else if replies[1] == TableReply::Done {
                    finish(Outcome::Completed)
                } else {
                    finish(Outcome::UnexpectedError)
                },
                _ => finish(Outcome::UnexpectedError),
            }
        },
        OperationView::UpdateSubscriberData { s_id, bit_1, data_a, sf_type } => if n == 0 {
            ask(TableRequestView::SelectFacility { id: facility_key_spec(s_id, sf_type) })
        } else {
            match replies[0] {
                TableReply::Missing => finish(Outcome::ExpectedAbort),
                TableReply::Facility { .. } => if n == 1 {
                    ask(TableRequestView::UpdateBit1 { s_id, bit_1 })
                } else if replies[1] != TableReply::Done {
                    finish(Outcome::UnexpectedError)
                } else if n == 2 {
                    ask(
                        TableRequestView::UpdateFacilityData {
                            id: facility_key_spec(s_id, sf_type),
                            data_a,
                        },
                    )
                } else if replies[2] == TableReply::Done {
                    finish(Outcome::Completed)
                } else {
                    finish(Outcome::UnexpectedError)
                },
                _ => finish(Outcome::UnexpectedError),
            }
        },
        OperationView::InsertCallForwarding { sub_nbr, sf_type, start_time, end_time, numberx } => {
            if n == 0 {
                ask(TableRequestView::FindSubscriber { sub_nbr })
            } else {
                match replies[0] {
                    TableReply::Subscriber { s_id } => if n == 1 {
                        ask(TableRequestView::SelectFacility { id: facility_key_spec(s_id, sf_type) })
                    } else {
                        match replies[1] {
                            TableReply::Missing => finish(Outcome::ExpectedAbort),
                            TableReply::Facility { .. } => if n == 2 {
                                ask(
                                    TableRequestView::InsertCallForwarding {
                                        row: CallForwardingView {
                                            id: call_forwarding_key_spec(s_id, sf_type, start_time),
                                            s_id,
                                            sf_type,
                                            start_time,
                                            facility: facility_key_spec(s_id, sf_type),
                                            end_time,
                                            numberx,
                                        },
                                    },
                                )
                            } else {
                                match replies[2] {
                                    TableReply::Done => finish(Outcome::Completed),
                                    TableReply::AlreadyExists => finish(Outcome::ExpectedAbort),
                                    _ => finish(Outcome::UnexpectedError),
                                }
                            },
                            _ => finish(Outcome::UnexpectedError),
                        }
                    },
                    _ => finish(Outcome::UnexpectedError),
                }
            }
        },
        OperationView::DeleteCallForwarding { sub_nbr, sf_type, start_time } => if n == 0 {
            ask(TableRequestView::FindSubscriber { sub_nbr })
        } else {
            match replies[0] {
                TableReply::Subscriber { s_id } => if n == 1 {
                    ask(
                        TableRequestView::DeleteCallForwarding {
                            id: call_forwarding_key_spec(s_id, sf_type, start_time),
                        },
                    )
                } else {
                    match replies[1] {
                        TableReply::Done => finish(Outcome::Completed),
                        TableReply::NotFound => finish(Outcome::ExpectedAbort),
                        _ => finish(Outcome::UnexpectedError),
                    }
                },
                _ => finish(Outcome::UnexpectedError),
            }
        },
    }
}

/// The next step of `operation` given the tables' replies so far.
pub fn next_step(operation: &Operation, replies: &[TableReply]) -> (step: Step)
    ensures
        step@ == transaction_step(operation@, replies@),
{
    let n = replies.len();
    match operation {
        Operation::GetSubscriberData { s_id } => if n == 0 {
            Step::Request(TableRequest::SelectSubscriber { s_id: *s_id })
        } else if replies[0] == TableReply::Found {
            Step::Finish(Outcome::Completed)
        } else {
            Step::Finish(Outcome::UnexpectedError)
        },
        Operation::GetAccessData { s_id, ai_type } => if n == 0 {
            Step::Request(TableRequest::SelectAccessInfo { id: facility_key(*s_id, *ai_type) })
        } else {
            Step::Finish(Outcome::Completed)
        },
        Operation::GetNewDestination { s_id, sf_type, start_time, end_time } => if n == 0 {
            Step::Request(TableRequest::SelectFacility { id: facility_key(*s_id, *sf_type) })
        } else {
            match replies[0] {
                TableReply::Missing => Step::Finish(Outcome::Completed),
                TableReply::Facility { is_active } => if !is_active {
                    Step::Finish(Outcome::Completed)
                } else if n == 1 {
                    Step::Request(
                        TableRequest::ListCallForwarding {
                            facility: facility_key(*s_id, *sf_type),
                            start_time: *start_time,
                            end_time: *end_time,
                        },
                    )
                } else if replies[1] == TableReply::Done {
                    Step::Finish(Outcome::Completed)
                } else {
                    Step::Finish(Outcome::UnexpectedError)
                },
                _ => Step::Finish(Outcome::UnexpectedError),
            }
        },
        Operation::UpdateLocation { sub_nbr, vlr_location } => if n == 0 {
            Step::Request(TableRequest::FindSubscriber { sub_nbr: sub_nbr.clone() })
        } else {
            match replies[0] {
                TableReply::Subscriber { s_id } => if n == 1 {
                    Step::Request(
                        TableRequest::UpdateLocation { s_id, vlr_location: *vlr_location },
                    )
                } else if replies[1] == TableReply::Done {
                    Step::Finish(Outcome::Completed)
                } else {
                    Step::Finish(Outcome::UnexpectedError)
                },
                _ => Step::Finish(Outcome::UnexpectedError),
            }
        },
        Operation::UpdateSubscriberData { s_id, bit_1, data_a, sf_type } => if n == 0 {
            Step::Request(TableRequest::SelectFacility { id: facility_key(*s_id, *sf_type) })
        } else {
            match replies[0] {
                TableReply::Missing => Step::Finish(Outcome::ExpectedAbort),
                TableReply::Facility { .. } => if n == 1 {
                    Step::Request(TableRequest::UpdateBit1 { s_id: *s_id, bit_1: *bit_1 })
                } else if replies[1] != TableReply::Done {
                    Step::Finish(Outcome::UnexpectedError)
                } else if n == 2 {
                    Step::Request(
                        TableRequest::UpdateFacilityData {
                            id: facility_key(*s_id, *sf_type),
                            data_a: *data_a,
                        },
                    )
                } else if replies[2] == TableReply::Done {
                    Step::Finish(Outcome::Completed)
                } else {
                    Step::Finish(Outcome::UnexpectedError)
                },
                _ => Step::Finish(Outcome::UnexpectedError),
            }
        },
        Operation::InsertCallForwarding { sub_nbr, sf_type, start_time, end_time, numberx } => {
            if n == 0 {
                Step::Request(TableRequest::FindSubscriber { sub_nbr: sub_nbr.clone() })
            } else {
                match replies[0] {
                    TableReply::Subscriber { s_id } => if n == 1 {
                        Step::Request(TableRequest::SelectFacility { id: facility_key(s_id, *sf_type) })
                    } else {
                        match replies[1] {
                            TableReply::Missing => Step::Finish(Outcome::ExpectedAbort),
                            TableReply::Facility { .. } => if n == 2 {
                                Step::Request(
                                    TableRequest::InsertCallForwarding {
                                        row: CallForwardingRow {
                                            id: call_forwarding_key(s_id, *sf_type, *start_time),
                                            s_id,
                                            sf_type: *sf_type,
                                            start_time: *start_time,
                                            facility: facility_key(s_id, *sf_type),
                                            end_time: *end_time,
                                            numberx: numberx.clone(),
                                        },
                                    },
                                )
                            } else {
                                match replies[2] {
                                    TableReply::Done => Step::Finish(Outcome::Completed),
                                    TableReply::AlreadyExists => Step::Finish(Outcome::ExpectedAbort),
                                    _ => Step::Finish(Outcome::UnexpectedError),
                                }
                            },
                            _ => Step::Finish(Outcome::UnexpectedError),
                        }
                    },
                    _ => Step::Finish(Outcome::UnexpectedError),
                }
            }
        },
        Operation::DeleteCallForwarding { sub_nbr, sf_type, start_time } => if n == 0 {
            Step::Request(TableRequest::FindSubscriber { sub_nbr: sub_nbr.clone() })
        } else {
            match replies[0] {
                TableReply::Subscriber { s_id } => if n == 1 {
                    Step::Request(
                        TableRequest::DeleteCallForwarding {
                            id: call_forwarding_key(s_id, *sf_type, *start_time),
                        },
                    )
                } else {
                    match replies[1] {
                        TableReply::Done => Step::Finish(Outcome::Completed),
                        TableReply::NotFound => Step::Finish(Outcome::ExpectedAbort),
                        _ => Step::Finish(Outcome::UnexpectedError),
                    }
                },
                _ => Step::Finish(Outcome::UnexpectedError),
            }
        },
    }
}

/// Every transaction ends after at most three replies, so a runner that
/// feeds back each reply always reaches an outcome.
pub proof fn lemma_transactions_finish(operation: OperationView, replies: Seq<TableReply>)
    requires
        replies.len() >= 3,
    ensures
        transaction_step(operation, replies) is Finish,
{
}

/// An expected abort arises only from a missing facility before an update or
/// an insert, an insert whose key is present, or a delete that finds no row.
pub proof fn lemma_expected_aborts(operation: OperationView, replies: Seq<TableReply>)
    requires
        transaction_step(operation, replies) == finish(Outcome::ExpectedAbort),
    ensures
        match operation {
            OperationView::UpdateSubscriberData { .. } => replies[0] == TableReply::Missing,
            OperationView::InsertCallForwarding { .. } => replies[1] == TableReply::Missing
                || replies[2] == TableReply::AlreadyExists,
            OperationView::DeleteCallForwarding { .. } => replies[1] == TableReply::NotFound,
            _ => false,
        },
{
}

/// Each raw value cut to a byte.
pub open spec fn narrow8(values: Seq<u64>) -> Seq<u8> {
    values.map_values(|x: u64| x as u8)
}

/// Each raw value cut to sixteen bits.
pub open spec fn narrow16(values: Seq<u64>) -> Seq<u16> {
    values.map_values(|x: u64| x as u16)
}

/// `count` draws below `upper`, each cut to a byte.
fn byte_draws(rng: &mut Rng, upper: u64, count: usize) -> (values: Vec<u8>)
    ensures
        values@ == narrow8(below_draws(old(rng)@, upper, count as nat)),
        final(rng)@ == below_state_after(old(rng)@, upper, count as nat),
{
    let ghost start = rng@;
    let mut values: Vec<u8> = Vec::new();
    let mut i: usize = 0;
    while i < count
        invariant
            i <= count,
            rng@ == below_state_after(start, upper, i as nat),
            values@ == narrow8(below_draws(start, upper, i as nat)),
        decreases count - i,
    {
        let value = rng.below(upper);
        values.push(value as u8);
        i = i + 1;
        assert(values@ =~= narrow8(below_draws(start, upper, i as nat)));
    }
    values
}

/// `count` draws below `upper`, each cut to sixteen bits.
fn wide_draws(rng: &mut Rng, upper: u64, count: usize) -> (values: Vec<u16>)
    ensures
        values@ == narrow16(below_draws(old(rng)@, upper, count as nat)),
        final(rng)@ == below_state_after(old(rng)@, upper, count as nat),
{
    let ghost start = rng@;
    let mut values: Vec<u16> = Vec::new();
    let mut i: usize = 0;
    while i < count
        invariant
            i <= count,
            rng@ == below_state_after(start, upper, i as nat),
            values@ == narrow16(below_draws(start, upper, i as nat)),
        decreases count - i,
    {
        let value = rng.below(upper);
        values.push(value as u16);
        i = i + 1;
        assert(values@ =~= narrow16(below_draws(start, upper, i as nat)));
    }
    values
}

/// A subscriber row as the table stores it.
#[derive(Debug)]
pub struct SubscriberRow {
    pub s_id: u64,
    pub sub_nbr: String,
    pub bit_1: u8,
    /// Nine more bits.
    pub bit_rest: Vec<u8>,
    /// Ten hexadecimal digits.
    pub hex_values: Vec<u8>,
    /// Ten byte-sized values.
    pub byte2_values: Vec<u16>,
    pub msc_location: u32,
    pub vlr_location: u32,
}

pub struct SubscriberView {
    pub s_id: u64,
    pub sub_nbr: Seq<char>,
    pub bit_1: u8,
    pub bit_rest: Seq<u8>,
    pub hex_values: Seq<u8>,
    pub byte2_values: Seq<u16>,
    pub msc_location: u32,
    pub vlr_location: u32,
}

impl View for SubscriberRow {
    type V = SubscriberView;

    open spec fn view(&self) -> SubscriberView {
        SubscriberView {
            s_id: self.s_id,
            sub_nbr: self.sub_nbr@,
            bit_1: self.bit_1,
            bit_rest: self.bit_rest@,
            hex_values: self.hex_values@,
            byte2_values: self.byte2_values@,
            msc_location: self.msc_location,
            vlr_location: self.vlr_location,
        }
    }
}

/// An access-info row as the table stores it.
#[derive(Debug)]
pub struct AccessInfoRow {
    pub id: u128,
    pub s_id: u64,
    pub ai_type: u8,
    pub data1: u16,
    pub data2: u16,
    pub data3: String,
    pub data4: String,
}

pub struct AccessInfoView {
    pub id: u128,
    pub s_id: u64,
    pub ai_type: u8,
    pub data1: u16,
    pub data2: u16,
    pub data3: Seq<char>,
    pub data4: Seq<char>,
}

impl View for AccessInfoRow {
    type V = AccessInfoView;

    open spec fn view(&self) -> AccessInfoView {
        AccessInfoView {
            id: self.id,
            s_id: self.s_id,
            ai_type: self.ai_type,
            data1: self.data1,
            data2: self.data2,
            data3: self.data3@,
            data4: self.data4@,
        }
    }
}

/// A special-facility row as the table stores it.
#[derive(Debug)]
pub struct SpecialFacilityRow {
    pub id: u128,
    pub s_id: u64,
    pub sf_type: u8,
    pub is_active: u8,
    pub error_control: u16,
    pub data_a: u16,
    pub data_b: String,
}

pub struct SpecialFacilityView {
    pub id: u128,
    pub s_id: u64,
    pub sf_type: u8,
    pub is_active: u8,
    pub error_control: u16,
    pub data_a: u16,
    pub data_b: Seq<char>,
}

impl View for SpecialFacilityRow {
    type V = SpecialFacilityView;

    open spec fn view(&self) -> SpecialFacilityView {
        SpecialFacilityView {
            id: self.id,
            s_id: self.s_id,
            sf_type: self.sf_type,
            is_active: self.is_active,
            error_control: self.error_control,
            data_a: self.data_a,
            data_b: self.data_b@,
        }
    }
}

/// A special facility with the call-forwarding rows loaded under it.
#[derive(Debug)]
pub struct FacilityRows {
    pub facility: SpecialFacilityRow,
    pub call_forwarding: Vec<CallForwardingRow>,
}

pub struct FacilityRowsView {
    pub facility: SpecialFacilityView,
    pub call_forwarding: Seq<CallForwardingView>,
}

pub open spec fn forwarding_views(rows: Seq<CallForwardingRow>) -> Seq<CallForwardingView> {
    rows.map_values(|row: CallForwardingRow| row@)
}

impl View for FacilityRows {
    type V = FacilityRowsView;

    open spec fn view(&self) -> FacilityRowsView {
        FacilityRowsView {
            facility: self.facility@,
            call_forwarding: forwarding_views(self.call_forwarding@),
        }
    }
}

/// Everything the load writes for one subscriber.
#[derive(Debug)]
pub struct SubscriberRows {
    pub subscriber: SubscriberRow,
    pub access_info: Vec<AccessInfoRow>,
    pub facilities: Vec<FacilityRows>,
}

pub struct SubscriberRowsView {
    pub subscriber: SubscriberView,
    pub access_info: Seq<AccessInfoView>,
    pub facilities: Seq<FacilityRowsView>,
}

pub open spec fn access_views(rows: Seq<AccessInfoRow>) -> Seq<AccessInfoView> {
    rows.map_values(|row: AccessInfoRow| row@)
}

pub open spec fn facility_views(rows: Seq<FacilityRows>) -> Seq<FacilityRowsView> {
    rows.map_values(|row: FacilityRows| row@)
}

impl View for SubscriberRows {
    type V = SubscriberRowsView;

    open spec fn view(&self) -> SubscriberRowsView {
        SubscriberRowsView {
            subscriber: self.subscriber@,
            access_info: access_views(self.access_info@),
            facilities: facility_views(self.facilities@),
        }
    }
}

/// The subscriber row for `s_id` drawn from `state`, and the state after:
/// its first bit, nine more, ten hex digits, ten byte values, then two raw
/// draws for its locations.
pub open spec fn subscriber_row_spec(state: u64, s_id: u64) -> (SubscriberView, u64) {
    let s1 = below_state(state, 2);
    let s2 = below_state_after(s1, 2, 9);
    let s3 = below_state_after(s2, 16, 10);
    let s4 = below_state_after(s3, 256, 10);
    let s5 = xorshift(s4);
    let s6 = xorshift(s5);
    (
        SubscriberView {
            s_id,
            sub_nbr: zero_padded(s_id as nat, 15),
            bit_1: below_value(state, 2) as u8,
            bit_rest: narrow8(below_draws(s1, 2, 9)),
            hex_values: narrow8(below_draws(s2, 16, 10)),
            byte2_values: narrow16(below_draws(s3, 256, 10)),
            msc_location: s5 as u32,
            vlr_location: s6 as u32,
        },
        s6,
    )
}

/// The access-info row of type `ai_type` drawn from `state`, and the state
/// after.
pub open spec fn access_info_spec(state: u64, s_id: u64, ai_type: u8) -> (AccessInfoView, u64) {
    let s1 = below_state(state, 256);
    let s2 = below_state(s1, 256);
    let s3 = below_state_after(s2, 26, 3);
    (
        AccessInfoView {
            id: facility_key_spec(s_id, ai_type),
            s_id,
            ai_type,
            data1: below_value(state, 256) as u16,
            data2: below_value(s1, 256) as u16,
            data3: alpha_chars(s2, 3),
            data4: alpha_chars(s3, 5),
        },
        below_state_after(s3, 26, 5),
    )
}

/// The access-info rows of each type in `types`, in order, and the state
/// after.
pub open spec fn access_rows_spec(types: Seq<u8>, state: u64, s_id: u64) -> (
    Seq<AccessInfoView>,
    u64,
)
    decreases types.len(),
{
    if types.len() == 0 {
        (Seq::empty(), state)
    } else {
        let (row, after) = access_info_spec(state, s_id, types[0]);
        let (rest, end) = access_rows_spec(types.drop_first(), after, s_id);
        (seq![row] + rest, end)
    }
}

/// The call-forwarding row starting at `start_time` drawn from `state`, and
/// the state after: an end one to eight hours later and a fifteen-digit
/// number.
pub open spec fn call_forwarding_spec(state: u64, s_id: u64, sf_type: u8, start_time: u8) -> (
    CallForwardingView,
    u64,
) {
    let s1 = below_state(state, 8);
    (
        CallForwardingView {
            id: call_forwarding_key_spec(s_id, sf_type, start_time),
            s_id,
            sf_type,
            start_time,
            facility: facility_key_spec(s_id, sf_type),
            end_time: (start_time + 1 + below_value(state, 8)) as u8,
            numberx: numeric_chars(s1, 15),
        },
        below_state_after(s1, 10, 15),
    )
}

/// The call-forwarding rows of each start in `starts`, in order.
pub open spec fn forwarding_rows_spec(starts: Seq<u8>, state: u64, s_id: u64, sf_type: u8) -> (
    Seq<CallForwardingView>,
    u64,
)
    decreases starts.len(),
{
    if starts.len() == 0 {
        (Seq::empty(), state)
    } else {
        let (row, after) = call_forwarding_spec(state, s_id, sf_type, starts[0]);
        let (rest, end) = forwarding_rows_spec(starts.drop_first(), after, s_id, sf_type);
        (seq![row] + rest, end)
    }
}

/// The start times call forwarding can begin at.
pub open spec fn start_times() -> Seq<u8> {
    seq![0u8, 8u8, 16u8]
}

/// The facility types.
pub open spec fn facility_types() -> Seq<u8> {
    seq![1u8, 2u8, 3u8, 4u8]
}

/// The special facility of type `sf_type` drawn from `state`, active in 85
/// draws of 100, with up to three call-forwarding rows; and the state after.
pub open spec fn facility_rows_spec(state: u64, s_id: u64, sf_type: u8) -> (FacilityRowsView, u64) {
    let s1 = below_state(state, 100);
    let s2 = below_state(s1, 256);
    let s3 = below_state(s2, 256);
    let s4 = below_state_after(s3, 26, 5);
    let facility = SpecialFacilityView {
        id: facility_key_spec(s_id, sf_type),
        s_id,
        sf_type,
        is_active: if below_value(state, 100) < 85 {
            1u8
        } else {
            0u8
        },
        error_control: below_value(s1, 256) as u16,
        data_a: below_value(s2, 256) as u16,
        data_b: alpha_chars(s3, 5),
    };
    let (starts, s5) = random_subset_spec(start_times(), s4, 0, 3);
    let (forwarding, end) = forwarding_rows_spec(starts, s5, s_id, sf_type);
    (FacilityRowsView { facility, call_forwarding: forwarding }, end)
}

/// The facilities of each type in `types`, in order.
pub open spec fn facilities_spec(types: Seq<u8>, state: u64, s_id: u64) -> (
    Seq<FacilityRowsView>,
    u64,
)
    decreases types.len(),
{
    if types.len() == 0 {
        (Seq::empty(), state)
    } else {
        let (row, after) = facility_rows_spec(state, s_id, types[0]);
        let (rest, end) = facilities_spec(types.drop_first(), after, s_id);
        (seq![row] + rest, end)
    }
}

/// Everything the load writes for subscriber `s_id` from generator state
/// `state`, and the state after: the subscriber, then one to four access
/// types with their rows, then one to four facility types, each with its
/// facility and its call forwarding.
pub open spec fn subscriber_rows_spec(state: u64, s_id: u64) -> (SubscriberRowsView, u64) {
    let (subscriber, s1) = subscriber_row_spec(state, s_id);
    let (access_types, s2) = random_subset_spec(facility_types(), s1, 1, 4);
    let (access_info, s3) = access_rows_spec(access_types, s2, s_id);
    let (sf_types, s4) = random_subset_spec(facility_types(), s3, 1, 4);
    let (facilities, end) = facilities_spec(sf_types, s4, s_id);
    (SubscriberRowsView { subscriber, access_info, facilities }, end)
}

fn subscriber_row(rng: &mut Rng, s_id: u64) -> (row: SubscriberRow)
    ensures
        (row@, final(rng)@) == subscriber_row_spec(old(rng)@, s_id),
{
    let sub_nbr = subscriber_number(s_id);
    let bit_1 = rng.below(2) as u8;
    let bit_rest = byte_draws(rng, 2, 9);
    let hex_values = byte_draws(rng, 16, 10);
    let byte2_values = wide_draws(rng, 256, 10);
    let msc_location = rng.next_u64() as u32;
    let vlr_location = rng.next_u64() as u32;
    SubscriberRow {
        s_id,
        sub_nbr,
        bit_1,
        bit_rest,
        hex_values,
        byte2_values,
        msc_location,
        vlr_location,
    }
}

fn access_info_row(rng: &mut Rng, s_id: u64, ai_type: u8) -> (row: AccessInfoRow)
    ensures
        (row@, final(rng)@) == access_info_spec(old(rng)@, s_id, ai_type),
{
    let data1 = rng.below(256) as u16;
    let data2 = rng.below(256) as u16;
    let data3 = alpha_string(rng, 3);
    let data4 = alpha_string(rng, 5);
    AccessInfoRow { id: facility_key(s_id, ai_type), s_id, ai_type, data1, data2, data3, data4 }
}

fn call_forwarding_row(rng: &mut Rng, s_id: u64, sf_type: u8, start_time: u8) -> (row:
    CallForwardingRow)
    requires
        start_time <= 16,
    ensures
        (row@, final(rng)@) == call_forwarding_spec(old(rng)@, s_id, sf_type, start_time),
{
    let hours = rng.below(8) as u8;
    let numberx = numeric_string(rng, 15);
    CallForwardingRow {
        id: call_forwarding_key(s_id, sf_type, start_time),
        s_id,
        sf_type,
        start_time,
        facility: facility_key(s_id, sf_type),
        end_time: start_time + 1 + hours,
        numberx,
    }
}

fn facility_rows(rng: &mut Rng, s_id: u64, sf_type: u8) -> (rows: FacilityRows)
    ensures
        (rows@, final(rng)@) == facility_rows_spec(old(rng)@, s_id, sf_type),
{
    let is_active: u8 = if rng.below(100) < 85 {
        1
    } else {
        0
    };
    let error_control = rng.below(256) as u16;
    let data_a = rng.below(256) as u16;
    let data_b = alpha_string(rng, 5);
    let facility = SpecialFacilityRow {
        id: facility_key(s_id, sf_type),
        s_id,
        sf_type,
        is_active,
        error_control,
        data_a,
        data_b,
    };
    let source: Vec<u8> = vec![0u8, 8u8, 16u8];
    assert(source@ =~= start_times());
    let starts = random_subset(rng, source.as_slice(), 0, 3);
    let ghost after_starts = rng@;
    let mut call_forwarding: Vec<CallForwardingRow> = Vec::new();
    let mut i: usize = 0;
    assert(starts@.skip(0) =~= starts@);
    while i < starts.len()
        invariant
            i <= starts@.len(),
            forall|k: int| 0 <= k < starts@.len() ==> start_times().contains(#[trigger] starts@[k]),
            forwarding_rows_spec(starts@, after_starts, s_id, sf_type) == (
                forwarding_views(call_forwarding@) + forwarding_rows_spec(
                    starts@.skip(i as int),
                    rng@,
                    s_id,
                    sf_type,
                ).0,
                forwarding_rows_spec(starts@.skip(i as int), rng@, s_id, sf_type).1,
            ),
        decreases starts@.len() - i,
    {
        let start_time = starts[i];
        assert(start_times().contains(starts@[i as int]));
        assert(start_time <= 16);
        let row = call_forwarding_row(rng, s_id, sf_type, start_time);
        proof {
            let rest = starts@.skip(i as int);
            assert(rest[0] == start_time);
            assert(rest.drop_first() =~= starts@.skip(i + 1));
            assert(forwarding_views(call_forwarding@.push(row)) =~= forwarding_views(
                call_forwarding@,
            ).push(row@));
        }
        call_forwarding.push(row);
        proof {
            let tail = forwarding_rows_spec(starts@.skip(i + 1), rng@, s_id, sf_type);
            assert(forwarding_views(call_forwarding@) + tail.0 =~= forwarding_views(
                call_forwarding@.drop_last(),
            ) + (seq![call_forwarding@.last()@] + tail.0));
        }
        i = i + 1;
    }
    proof {
        assert(starts@.skip(starts@.len() as int) =~= Seq::<u8>::empty());
        assert(forwarding_views(call_forwarding@) + Seq::<CallForwardingView>::empty()
            =~= forwarding_views(call_forwarding@));
    }
    FacilityRows { facility, call_forwarding }
}

/// Everything the load writes for subscriber `s_id`, drawn in the load's
/// order from `rng`: the subscriber, its access info, and each special
/// facility with its call forwarding. The load's row counts are the lengths
/// of these.
pub fn subscriber_rows(rng: &mut Rng, s_id: u64) -> (rows: SubscriberRows)
    ensures
        (rows@, final(rng)@) == subscriber_rows_spec(old(rng)@, s_id),
{
    let subscriber = subscriber_row(rng, s_id);
    let types: Vec<u8> = vec![1u8, 2u8, 3u8, 4u8];
    assert(types@ =~= facility_types());
    let access_types = random_subset(rng, types.as_slice(), 1, 4);
    let ghost after_types = rng@;
    let mut access_info: Vec<AccessInfoRow> = Vec::new();
    let mut i: usize = 0;
    assert(access_types@.skip(0) =~= access_types@);
    while i < access_types.len()
        invariant
            i <= access_types@.len(),
            access_rows_spec(access_types@, after_types, s_id) == (
                access_views(access_info@) + access_rows_spec(
                    access_types@.skip(i as int),
                    rng@,
                    s_id,
                ).0,
                access_rows_spec(access_types@.skip(i as int), rng@, s_id).1,
            ),
        decreases access_types@.len() - i,
    {
        let ai_type = access_types[i];
        let row = access_info_row(rng, s_id, ai_type);
        proof {
            let rest = access_types@.skip(i as int);
            assert(rest[0] == ai_type);
            assert(rest.drop_first() =~= access_types@.skip(i + 1));
            assert(access_views(access_info@.push(row)) =~= access_views(access_info@).push(row@));
        }
        access_info.push(row);
        proof {
            let tail = access_rows_spec(access_types@.skip(i + 1), rng@, s_id);
            assert(access_views(access_info@) + tail.0 =~= access_views(access_info@.drop_last())
                + (seq![access_info@.last()@] + tail.0));
        }
        i = i + 1;
    }
    proof {
        assert(access_types@.skip(access_types@.len() as int) =~= Seq::<u8>::empty());
        assert(access_views(access_info@) + Seq::<AccessInfoView>::empty() =~= access_views(
            access_info@,
        ));
    }
    let sf_types = random_subset(rng, types.as_slice(), 1, 4);
    let ghost after_sf = rng@;
    let mut facilities: Vec<FacilityRows> = Vec::new();
    let mut j: usize = 0;
    assert(sf_types@.skip(0) =~= sf_types@);
    while j < sf_types.len()
        invariant
            j <= sf_types@.len(),
            facilities_spec(sf_types@, after_sf, s_id) == (
                facility_views(facilities@) + facilities_spec(sf_types@.skip(j as int), rng@, s_id).0,
                facilities_spec(sf_types@.skip(j as int), rng@, s_id).1,
            ),
        decreases sf_types@.len() - j,
    {
        let sf_type = sf_types[j];
        let row = facility_rows(rng, s_id, sf_type);
        proof {
            let rest = sf_types@.skip(j as int);
            assert(rest[0] == sf_type);
            assert(rest.drop_first() =~= sf_types@.skip(j + 1));
            assert(facility_views(facilities@.push(row)) =~= facility_views(facilities@).push(row@));
        }
        facilities.push(row);
        proof {
            let tail = facilities_spec(sf_types@.skip(j + 1), rng@, s_id);
            assert(facility_views(facilities@) + tail.0 =~= facility_views(facilities@.drop_last())
                + (seq![facilities@.last()@] + tail.0));
        }
        j = j + 1;
    }
    proof {
        assert(sf_types@.skip(sf_types@.len() as int) =~= Seq::<u8>::empty());
        assert(facility_views(facilities@) + Seq::<FacilityRowsView>::empty() =~= facility_views(
            facilities@,
        ));
    }
    SubscriberRows { subscriber, access_info, facilities }
}

/// Whether `start_time` is an hour the load writes call forwarding from.
pub open spec fn loaded_start_time(start_time: u8) -> bool {
    start_time == 0 || start_time == 8 || start_time == 16
}

/// Whether a transaction's facility type, start time and end time lie where
/// the load puts them: types one to four, starts at hours 0, 8 or 16, ends
/// one to twenty-four hours on.
pub open spec fn within_loaded_shape(operation: OperationView) -> bool {
    match operation {
        OperationView::DeleteCallForwarding { sf_type, start_time, .. } => 1 <= sf_type <= 4
            && loaded_start_time(start_time),
        OperationView::GetAccessData { ai_type, .. } => 1 <= ai_type <= 4,
        OperationView::GetNewDestination { sf_type, start_time, end_time, .. } => 1 <= sf_type
            <= 4 && loaded_start_time(start_time) && 1 <= end_time <= 24,
        OperationView::InsertCallForwarding { sf_type, start_time, end_time, .. } => 1 <= sf_type
            <= 4 && loaded_start_time(start_time) && 1 <= end_time <= 24,
        OperationView::UpdateSubscriberData { sf_type, .. } => 1 <= sf_type <= 4,
        _ => true,
    }
}

/// Law: every generated transaction that names a start time names one of
/// the hours the load writes call forwarding from (0, 8 or 16), and its
/// facility or access type is one of the four the load uses.
pub proof fn lemma_transactions_use_loaded_start_times(state: u64, subscribers: u64)
    ensures
        within_loaded_shape(operation_from(state, subscribers).0),
{
    let s1 = below_state(state, 100);
    let s2 = below_state(s1, subscribers);
    let s3 = below_state(s2, 4);
    let s4 = below_state(s3, 3);
    crate::rng::lemma_scale_below_bound(xorshift(s2), 4);
    crate::rng::lemma_scale_below_bound(xorshift(s3), 3);
    crate::rng::lemma_scale_below_bound(xorshift(s4), 4);
    crate::rng::lemma_scale_below_bound(xorshift(s4), 24);
}

/// Law: the streams a run replays hold only transactions within the loaded
/// shape: every start time is 0, 8 or 16.
pub proof fn lemma_stream_start_times(seed: u64, subscribers: u64, i: nat)
    ensures
        within_loaded_shape(operation_from(state_before(seed, subscribers, i), subscribers).0),
{
    lemma_transactions_use_loaded_start_times(state_before(seed, subscribers, i), subscribers);
}

/// Whether `reply` is the successful answer to `request`: the row or
/// subscriber looked up was there, or the write or listing succeeded.
pub open spec fn succeeds(request: TableRequestView, reply: TableReply) -> bool {
    match request {
        TableRequestView::SelectSubscriber { .. } => reply == TableReply::Found,
        TableRequestView::SelectAccessInfo { .. } => reply == TableReply::Found,
        TableRequestView::SelectFacility { .. } => reply is Facility,
        TableRequestView::FindSubscriber { .. } => reply is Subscriber,
        _ => reply == TableReply::Done,
    }
}

/// Whether each of `replies` answers, successfully, the request the
/// transaction made at that point.
pub open spec fn all_succeeded(operation: OperationView, replies: Seq<TableReply>) -> bool {
    forall|i: int|
        0 <= i < replies.len() ==> match #[trigger] transaction_step(operation, replies.take(i)) {
            StepView::Request(request) => succeeds(request, replies[i]),
            StepView::Finish(_) => false,
        }
}

/// Law: a transaction whose every table request succeeds ends completed:
/// neither an unexpected error nor an expected abort arises unless some
/// request misses or fails.
pub proof fn lemma_successful_transactions_complete(
    operation: OperationView,
    replies: Seq<TableReply>,
)
    requires
        all_succeeded(operation, replies),
        transaction_step(operation, replies) is Finish,
    ensures
        transaction_step(operation, replies) == finish(Outcome::Completed),
{
    let n = replies.len();
    assert(replies.take(0) =~= Seq::<TableReply>::empty());
    if n >= 1 {
        assert(replies.take(1) =~= seq![replies[0]]);
        let _ = transaction_step(operation, replies.take(1));
    }
    if n >= 2 {
        assert(replies.take(2) =~= seq![replies[0], replies[1]]);
        let _ = transaction_step(operation, replies.take(2));
    }
    if n >= 3 {
        assert(replies.take(3) =~= seq![replies[0], replies[1], replies[2]]);
    }
    let _ = transaction_step(operation, replies.take(0));
    assert(match transaction_step(operation, replies.take(0)) {
        StepView::Request(request) => n > 0 ==> succeeds(request, replies[0]),
        StepView::Finish(_) => n == 0,
    });
    if n >= 2 {
        assert(match transaction_step(operation, replies.take(1)) {
            StepView::Request(request) => succeeds(request, replies[1]),
            StepView::Finish(_) => false,
        });
    }
    if n >= 3 {
        assert(match transaction_step(operation, replies.take(2)) {
            StepView::Request(request) => succeeds(request, replies[2]),
            StepView::Finish(_) => false,
        });
    }
}

/// How a transaction ends when the tables answer `request` with `reply`
/// instead of its successful answer: an access-info lookup completes
/// whatever it finds; a missing subscriber is an unexpected error; a missing
/// facility completes a destination lookup but aborts an update or insert
/// as expected; an insert that finds its key present and a delete that finds
/// no row abort as expected; anything else is an unexpected error.
pub open spec fn unsuccessful_outcome(
    operation: OperationView,
    request: TableRequestView,
    reply: TableReply,
) -> Outcome {
    match request {
        TableRequestView::SelectAccessInfo { .. } => Outcome::Completed,
        TableRequestView::SelectFacility { .. } => if reply == TableReply::Missing {
            if operation is GetNewDestination {
                Outcome::Completed
            } else {
                Outcome::ExpectedAbort
            }
        } else {
            Outcome::UnexpectedError
        },
        TableRequestView::InsertCallForwarding { .. } => if reply == TableReply::AlreadyExists {
            Outcome::ExpectedAbort
        } else {
            Outcome::UnexpectedError
        },
        TableRequestView::DeleteCallForwarding { .. } => if reply == TableReply::NotFound {
            Outcome::ExpectedAbort
        } else {
            Outcome::UnexpectedError
        },
        _ => Outcome::UnexpectedError,
    }
}

proof fn lemma_prefix_steps(operation: OperationView, replies: Seq<TableReply>, last: TableReply)
    requires
        all_succeeded(operation, replies),
    ensures
        replies.len() >= 1 ==> match transaction_step(operation, Seq::<TableReply>::empty()) {
            StepView::Request(request) => succeeds(request, replies[0]),
            StepView::Finish(_) => false,
        },
        replies.len() >= 2 ==> match transaction_step(operation, seq![replies[0]]) {
            StepView::Request(request) => succeeds(request, replies[1]),
            StepView::Finish(_) => false,
        },
        replies.len() >= 3 ==> match transaction_step(operation, seq![replies[0], replies[1]]) {
            StepView::Request(request) => succeeds(request, replies[2]),
            StepView::Finish(_) => false,
        },
        replies.push(last).len() == replies.len() + 1,
        replies.len() == 0 ==> replies.push(last) =~= seq![last],
        replies.len() == 1 ==> replies.push(last) =~= seq![replies[0], last],
        replies.len() == 2 ==> replies.push(last) =~= seq![replies[0], replies[1], last],
        replies.len() == 1 ==> replies =~= seq![replies[0]],
        replies.len() == 2 ==> replies =~= seq![replies[0], replies[1]],
{
    if replies.len() >= 1 {
        assert(replies.take(0) =~= Seq::<TableReply>::empty());
        let _ = transaction_step(operation, replies.take(0));
    }
    if replies.len() >= 2 {
        assert(replies.take(1) =~= seq![replies[0]]);
        let _ = transaction_step(operation, replies.take(1));
    }
    if replies.len() >= 3 {
        assert(replies.take(2) =~= seq![replies[0], replies[1]]);
        let _ = transaction_step(operation, replies.take(2));
    }
}

/// Law: when every earlier request succeeded and the tables then answer a
/// request with anything but its successful answer, the transaction ends at
/// once, with the outcome `unsuccessful_outcome` names.
pub proof fn lemma_unsuccessful_reply_outcome(
    operation: OperationView,
    replies: Seq<TableReply>,
    last: TableReply,
)
    requires
        all_succeeded(operation, replies),
        transaction_step(operation, replies) is Request,
        !succeeds(transaction_step(operation, replies)->Request_0, last),
    ensures
        transaction_step(operation, replies.push(last)) == finish(
            unsuccessful_outcome(operation, transaction_step(operation, replies)->Request_0, last),
        ),
{
    lemma_prefix_steps(operation, replies, last);
}

} // verus!
