//! The speedtest1-style comparison: the keys its phases probe and the text
//! form of a key the string-keyed tables store.

use vstd::prelude::*;

use crate::rng::{below_draws, below_state_after, seed_state, Rng};
use crate::text::{push_zero_padded, zero_padded};

verus! {

/// The text key of `value`: `key-` and the value as twenty digits.
pub fn text_key(value: u64) -> (key: String)
    ensures
        key@ == "key-"@ + zero_padded(value as nat, 20),
{
    let mut key = String::from_str("key-");
    push_zero_padded(&mut key, value, 20);
    key
}

/// `count` keys below `upper`, drawn from a generator seeded with `seed`.
pub fn random_keys(count: u64, upper: u64, seed: u64) -> (keys: Vec<u64>)
    ensures
        keys@ == below_draws(seed_state(seed), upper, count as nat),
        upper > 0 ==> forall|i: int| 0 <= i < keys@.len() ==> #[trigger] keys@[i] < upper,
{
    let mut rng = Rng::new(seed);
    let mut keys: Vec<u64> = Vec::new();
    let mut i: u64 = 0;
    while i < count
        invariant
            i <= count,
            rng@ == below_state_after(seed_state(seed), upper, i as nat),
            keys@ == below_draws(seed_state(seed), upper, i as nat),
            upper > 0 ==> forall|j: int| 0 <= j < keys@.len() ==> #[trigger] keys@[j] < upper,
        decreases count - i,
    {
        let key = rng.below(upper);
        keys.push(key);
        proof {
            assert(keys@ =~= below_draws(seed_state(seed), upper, (i + 1) as nat));
        }
        i += 1;
    }
    keys
}

} // verus!
