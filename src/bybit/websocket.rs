//! Routing of stream messages to their subscriptions.
use vstd::prelude::*;
use vstd::string::StringSliceAdditionalSpecFns;

verus! {

/// `key` is a prefix of `topic`, byte for byte (an equal topic included).
pub open spec fn is_prefix(key: Seq<u8>, topic: Seq<u8>) -> bool {
    key.len() <= topic.len() && topic.subrange(0, key.len() as int) == key
}

/// A message on `topic` goes to the subscription `key` when the topic equals the key or
/// starts with it (`orderbook.50.BTCUSDT` matches `orderbook.50.`).
pub fn topic_matches(topic: &str, key: &str) -> (r: bool)
    ensures
        r == is_prefix(key.spec_bytes(), topic.spec_bytes()),
{
    let t = topic.as_bytes();
    let k = key.as_bytes();
    if k.len() > t.len() {
        return false;
    }
    let mut i: usize = 0;
    while i < k.len()
        invariant
            k@ == key.spec_bytes(),
            t@ == topic.spec_bytes(),
            k@.len() <= t@.len(),
            i <= k@.len(),
            forall|j: int| 0 <= j < i ==> k@[j] == t@[j],
        decreases k@.len() - i,
    {
        if k[i] != t[i] {
            assert(t@.subrange(0, k@.len() as int)[i as int] != k@[i as int]);
            return false;
        }
        i = i + 1;
    }
    assert(t@.subrange(0, k@.len() as int) =~= k@);
    true
}

} // verus!
