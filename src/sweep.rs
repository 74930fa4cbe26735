//! The order in which the sweep visits its velocity samples.
use vstd::prelude::*;

verus! {

/// Position `k` of the sweep over sample indices `0..=num_samples`, where the
/// midpoint index `num_samples / 2` is left out when `skip_midpoint` holds.
pub open spec fn sweep_index_at(num_samples: nat, skip_midpoint: bool, k: nat) -> nat {
    if skip_midpoint && k >= num_samples / 2 {
        k + 1
    } else {
        k
    }
}

/// Number of samples that the sweep visits.
pub open spec fn sweep_len(num_samples: nat, skip_midpoint: bool) -> nat {
    if skip_midpoint {
        num_samples
    } else {
        num_samples + 1
    }
}

/// The sample indices `0..=num_samples` in ascending order, without the
/// midpoint `num_samples / 2` when `skip_midpoint` holds.
pub fn sweep_indices(num_samples: usize, skip_midpoint: bool) -> (r: Vec<usize>)
    requires
        num_samples < usize::MAX,
    ensures
        r@.len() == sweep_len(num_samples as nat, skip_midpoint),
        forall|k: int|
            0 <= k < r@.len() ==> r@[k] as nat == sweep_index_at(
                num_samples as nat,
                skip_midpoint,
                k as nat,
            ),
{
    let mut r: Vec<usize> = Vec::new();
    let midpoint: usize = num_samples / 2;
    let mut i: usize = 0;
    while i <= num_samples
        invariant
            i <= num_samples + 1,
            num_samples < usize::MAX,
            midpoint == num_samples / 2,
            r@.len() == if skip_midpoint && i > midpoint { i - 1 } else { i as int },
            forall|k: int|
                0 <= k < r@.len() ==> r@[k] as nat == sweep_index_at(
                    num_samples as nat,
                    skip_midpoint,
                    k as nat,
                ),
        decreases num_samples + 1 - i,
    {
        if !(skip_midpoint && i == midpoint) {
            r.push(i);
        }
        i = i + 1;
    }
    r
}

} // verus!
