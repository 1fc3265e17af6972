//! The search for the best-matching unit among the distances of all cells.

use vstd::prelude::*;
use crate::scalar::{less, less_than, MAX_BITS, ZERO_BITS};

verus! {

/// A distance takes part in the search when it is strictly below the largest
/// finite value. A NaN, an infinity and the largest finite value never win.
pub open spec fn eligible(distance: u64) -> bool {
    less(distance, MAX_BITS)
}

/// Whether any of the distances takes part in the search.
pub open spec fn any_eligible(distances: Seq<u64>) -> bool {
    exists|k: int| 0 <= k < distances.len() && eligible(#[trigger] distances[k])
}

/// Whether `at` is the place of the best-matching unit.
///
/// The unit's distance takes part in the search, no distance is smaller, and
/// every earlier distance that takes part is strictly larger: among equally
/// close cells the first in row-major order wins. When no distance takes part,
/// the first place is chosen.
pub open spec fn is_best(distances: Seq<u64>, at: int) -> bool {
    &&& 0 <= at < distances.len()
    &&& if any_eligible(distances) {
        &&& eligible(distances[at])
        &&& forall|k: int| 0 <= k < distances.len() ==> !less(#[trigger] distances[k], distances[at])
        &&& forall|k: int|
            0 <= k < at ==> !eligible(#[trigger] distances[k]) || less(distances[at], distances[k])
    } else {
        at == 0
    }
}

/// At most one place is the place of the best-matching unit.
pub proof fn lemma_best_is_unique(distances: Seq<u64>, a: int, b: int)
    requires
        is_best(distances, a),
        is_best(distances, b),
    ensures
        a == b,
{
    if any_eligible(distances) {
        if a < b {
            assert(!eligible(distances[a]) || less(distances[b], distances[a]));
            assert(!less(distances[b], distances[a]));
        } else if b < a {
            assert(!eligible(distances[b]) || less(distances[a], distances[b]));
            assert(!less(distances[a], distances[b]));
        }
    }
}

/// Scans the distances once, front to back, and returns the place of the
/// best-matching unit.
pub fn best_index(distances: &Vec<u64>) -> (at: usize)
    requires
        distances.len() > 0,
    ensures
        is_best(distances@, at as int),
{
    let mut at: usize = 0;
    let mut least: u64 = MAX_BITS;
    let mut n: usize = 0;
    while n < distances.len()
        invariant
            0 <= n <= distances.len(),
            distances.len() > 0,
            at < distances.len(),
            least == MAX_BITS || (eligible(least) && n > 0),
            least == MAX_BITS ==> at == 0 && forall|k: int|
                0 <= k < n ==> !eligible(#[trigger] distances[k]),
            least != MAX_BITS ==> {
                &&& at < n
                &&& least == distances[at as int]
                &&& forall|k: int| 0 <= k < n ==> !less(#[trigger] distances[k], least)
                &&& forall|k: int|
                    0 <= k < at ==> !eligible(#[trigger] distances[k]) || less(
                        least,
                        distances[k],
                    )
            },
        decreases distances.len() - n,
    {
        let distance: u64 = distances[n];
        if less_than(distance, least) {
            least = distance;
            at = n;
        }
        n = n + 1;
    }
    proof {
        if least != MAX_BITS {
            assert(eligible(distances@[at as int]));
        }
    }
    at
}

/// Whether any of the values is greater than zero.
pub open spec fn any_positive(values: Seq<u64>) -> bool {
    exists|k: int| 0 <= k < values.len() && less(ZERO_BITS, #[trigger] values[k])
}

/// Whether `peak` is the largest of the values, or positive zero when none of
/// them is greater than zero. A NaN among the values is passed over.
pub open spec fn is_peak(values: Seq<u64>, peak: u64) -> bool {
    if any_positive(values) {
        &&& less(ZERO_BITS, peak)
        &&& exists|k: int| 0 <= k < values.len() && #[trigger] values[k] == peak
        &&& forall|k: int| 0 <= k < values.len() ==> !less(peak, #[trigger] values[k])
    } else {
        peak == ZERO_BITS
    }
}

/// The values have one peak only.
pub proof fn lemma_peak_is_unique(values: Seq<u64>, a: u64, b: u64)
    requires
        is_peak(values, a),
        is_peak(values, b),
    ensures
        a == b,
{
    if any_positive(values) {
        let i: int = choose|k: int| 0 <= k < values.len() && #[trigger] values[k] == a;
        let j: int = choose|k: int| 0 <= k < values.len() && #[trigger] values[k] == b;
        assert(!less(a, values[j]));
        assert(!less(b, values[i]));
    }
}

/// Scans the values once and returns their peak: the divisor by which a map
/// of summed distances is brought into the unit interval.
pub fn peak(values: &Vec<u64>) -> (peak: u64)
    ensures
        is_peak(values@, peak),
{
    let mut peak: u64 = ZERO_BITS;
    let mut n: usize = 0;
    while n < values.len()
        invariant
            0 <= n <= values.len(),
            peak == ZERO_BITS || less(ZERO_BITS, peak),
            peak == ZERO_BITS ==> forall|k: int|
                0 <= k < n ==> !less(ZERO_BITS, #[trigger] values[k]),
            peak != ZERO_BITS ==> {
                &&& exists|k: int| 0 <= k < n && #[trigger] values[k] == peak
                &&& forall|k: int| 0 <= k < n ==> !less(peak, #[trigger] values[k])
            },
        decreases values.len() - n,
    {
        let value: u64 = values[n];
        if less_than(peak, value) {
            peak = value;
        }
        n = n + 1;
    }
    peak
}

} // verus!
