//! The capacity-growth policy.
//!
//! When an element must be placed into a full buffer, the new capacity is
//! chosen by [`grown_capacity`]: an empty buffer grows to capacity 1 (or to
//! the requested size, if larger), and a non-empty buffer at least doubles.
//! Doubling makes the total copying work across a run of appends linear in
//! the number of appends, so each append costs amortized constant time.

use vstd::prelude::*;

verus! {

/// The factor by which a non-empty buffer grows when it is full.
///
/// The policy allows any fixed factor between 1.5 and 2; this implementation
/// uses 2, so capacities from repeated appends run 0, 1, 2, 4, 8, ...
pub const GROWTH_FACTOR: usize = 2;

/// The capacity chosen when a buffer of capacity `cap` must make room for
/// `required` elements (`required > cap`): the doubled capacity, or
/// `required` itself if doubling is not enough, clipped to `usize::MAX`.
pub open spec fn grown_capacity(cap: int, required: int) -> int {
    let doubled = if cap == 0 {
        1
    } else if (GROWTH_FACTOR as int) * cap <= usize::MAX {
        (GROWTH_FACTOR as int) * cap
    } else {
        usize::MAX as int
    };
    if doubled >= required {
        doubled
    } else {
        required
    }
}

/// The capacity after one element is placed at the end of a container with
/// `len` elements and capacity `cap`: unchanged while there is room, grown
/// by the policy when the container is full.
pub open spec fn capacity_after_push(len: int, cap: int) -> int {
    if len < cap {
        cap
    } else {
        grown_capacity(cap, len + 1)
    }
}

/// The capacity of a container built by `k` appends starting from an empty
/// container with capacity 0, with no other capacity requests in between.
pub open spec fn capacity_after_appends(k: nat) -> int
    decreases k,
{
    if k == 0 {
        0
    } else {
        capacity_after_push(k - 1, capacity_after_appends((k - 1) as nat))
    }
}

/// Whether `n` is a power of two.
pub open spec fn is_pow2(n: int) -> bool
    decreases n,
{
    if n <= 0 {
        false
    } else if n == 1 {
        true
    } else {
        n % 2 == 0 && is_pow2(n / 2)
    }
}

/// Law: starting from capacity 0, after exactly `k` appends with no other
/// capacity requests, the capacity is the smallest power of two that holds
/// `k` elements. (For `k >= 1`, the smallest power of two `>= k` is the
/// power of two `p` with `k <= p < 2 * k`.)
pub proof fn lemma_growth_doubling(k: nat)
    requires
        1 <= k,
        2 * k <= usize::MAX,
    ensures
        is_pow2(capacity_after_appends(k)),
        k <= capacity_after_appends(k) < 2 * k,
    decreases k,
{
    if k == 1 {
        assert(capacity_after_appends(0) == 0);
        assert(capacity_after_appends(1) == capacity_after_push(0, 0));
    } else {
        lemma_growth_doubling((k - 1) as nat);
        let prev = capacity_after_appends((k - 1) as nat);
        if k - 1 < prev {
            assert(capacity_after_appends(k) == prev);
        } else {
            assert(prev == k - 1);
            assert(capacity_after_appends(k) == grown_capacity(k - 1, k as int));
            assert(capacity_after_appends(k) == 2 * (k - 1));
            assert(is_pow2(2 * (k - 1))) by {
                assert(is_pow2(prev));
            }
        }
    }
}

/// Executable counterpart of [`grown_capacity`]: the capacity to allocate
/// when a buffer of capacity `cap` must hold `required` elements.
pub(crate) fn grow_to(cap: usize, required: usize) -> (r: usize)
    requires
        cap < required,
    ensures
        r as int == grown_capacity(cap as int, required as int),
        required <= r,
{
    let doubled: usize = if cap == 0 {
        1
    } else if cap <= usize::MAX / GROWTH_FACTOR {
        cap * GROWTH_FACTOR
    } else {
        usize::MAX
    };
    if doubled >= required {
        doubled
    } else {
        required
    }
}

} // verus!
