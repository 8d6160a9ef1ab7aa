//! How the counters of the library count.

use vstd::prelude::*;

verus! {

/// Counting up and counting down are steps of one, round the machine's range, and each undoes
/// the other.
pub proof fn law_counters_move_by_one(n: usize)
    ensures
        crate::state::next_count(n) == (n + 1) % (usize::MAX + 1),
        crate::state::previous_count(n) == (n - 1) % (usize::MAX + 1),
        crate::state::previous_count(crate::state::next_count(n)) == n,
        crate::state::next_count(crate::state::previous_count(n)) == n,
{
    let range = usize::MAX + 1;
    if n < usize::MAX {
        vstd::arithmetic::div_mod::lemma_small_mod((n + 1) as nat, range as nat);
    } else {
        vstd::arithmetic::div_mod::lemma_mod_self_0(range);
    }
    if n > 0 {
        vstd::arithmetic::div_mod::lemma_small_mod((n - 1) as nat, range as nat);
    } else {
        vstd::arithmetic::div_mod::lemma_fundamental_div_mod_converse(
            -1,
            range,
            -1,
            usize::MAX as int,
        );
    }
}

/// Counting on by so many is counting on by one, so many times.
pub proof fn law_counting_on_is_counting_by_ones(n: usize, steps: nat)
    ensures
        crate::state::count_after(n, 0) == n,
        crate::state::count_after(n, steps) == (n + steps) % (usize::MAX + 1),
        crate::state::count_after(n, steps + 1) == crate::state::next_count(
            crate::state::count_after(n, steps),
        ),
        n + steps <= usize::MAX ==> crate::state::count_after(n, steps) == n + steps,
{
    let range = usize::MAX + 1;
    vstd::arithmetic::div_mod::lemma_small_mod(n as nat, range as nat);
    crate::state::lemma_count_after_step(n, steps);
    if n + steps <= usize::MAX {
        vstd::arithmetic::div_mod::lemma_small_mod((n + steps) as nat, range as nat);
    }
}

} // verus!
