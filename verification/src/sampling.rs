use vstd::prelude::*;

verus! {

/// Greedy selection over ordering keys: the first index holding the greatest
/// key. Token sampling falls back to this whenever randomness is switched
/// off (a non-positive temperature, a top-k below two, or a non-positive
/// top-p); the caller encodes each logit as an integer key under a monotone
/// order-preserving map, so the chosen index is the argmax of the logits
/// with ties broken toward the lower token id.
pub fn argmax(keys: &Vec<u32>) -> (r: usize)
    requires
        keys@.len() >= 1,
    ensures
        r < keys@.len(),
        forall|i: int| 0 <= i < keys@.len() ==> keys@[i] <= keys@[r as int],
        forall|i: int| 0 <= i < r ==> keys@[i] < keys@[r as int],
{
    let n: usize = keys.len();
    let mut best: usize = 0;
    let mut i: usize = 1;
    while i < n
        invariant
            1 <= i <= n,
            n == keys@.len(),
            best < i,
            forall|j: int| 0 <= j < i ==> keys@[j] <= keys@[best as int],
            forall|j: int| 0 <= j < best ==> keys@[j] < keys@[best as int],
        decreases n - i,
    {
        if keys[i] > keys[best] {
            best = i;
        }
        i = i + 1;
    }
    best
}

} // verus!
