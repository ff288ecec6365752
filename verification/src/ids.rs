//! Identifier allocation: a counter hands out its current value and advances
//! by one, and refuses once advancing would leave the identifier's range.

use vstd::prelude::*;

verus! {

/// Identifies a piece of content.
pub type ContentId = u32;

/// Identifies a claim. Claims are numbered by a counter of their own.
pub type ClaimId = u32;

/// One allocation from a counter: the identifier handed out and the counter's
/// next value, or `None` where the counter can no longer advance.
pub open spec fn allocate(counter: nat) -> Option<(nat, nat)> {
    if counter < u32::MAX {
        Some((counter, counter + 1))
    } else {
        None
    }
}

/// The counter after `attempts` allocations in a row, refused ones included.
pub open spec fn counter_after(counter: nat, attempts: nat) -> nat
    decreases attempts,
{
    if attempts == 0 {
        counter
    } else {
        match allocate(counter) {
            Some((_, next)) => counter_after(next, (attempts - 1) as nat),
            None => counter_after(counter, (attempts - 1) as nat),
        }
    }
}

/// The identifiers handed out by `attempts` allocations in a row, in the
/// order of the calls. A refused allocation hands out nothing.
pub open spec fn issued(counter: nat, attempts: nat) -> Seq<nat>
    decreases attempts,
{
    if attempts == 0 {
        Seq::empty()
    } else {
        match allocate(counter) {
            Some((id, next)) => seq![id] + issued(next, (attempts - 1) as nat),
            None => issued(counter, (attempts - 1) as nat),
        }
    }
}

/// Takes the next identifier from `counter`.
///
/// On success the identifier is the counter's old value and the counter has
/// advanced by one. A counter at the top of the range is left as it is and
/// nothing is handed out.
pub fn next_id(counter: &mut u32) -> (id: Option<u32>)
    ensures
        match allocate(*old(counter) as nat) {
            Some((issued_id, next)) => id == Some(issued_id as u32) && *final(counter) == next,
            None => id.is_none() && *final(counter) == *old(counter),
        },
{
    let current: u32 = *counter;
    match current.checked_add(1) {
        Some(next) => {
            *counter = next;
            Some(current)
        },
        None => None,
    }
}

/// The identifiers handed out in a row are consecutive, starting at the
/// counter, and there are as many of them as the range still holds.
pub proof fn lemma_issued_consecutive(counter: nat, attempts: nat)
    requires
        counter <= u32::MAX,
    ensures
        issued(counter, attempts).len() == if counter + attempts <= u32::MAX {
            attempts
        } else {
            (u32::MAX - counter) as nat
        },
        forall|k: int|
            0 <= k < issued(counter, attempts).len() ==> #[trigger] issued(counter, attempts)[k]
                == counter + k,
        counter_after(counter, attempts) == counter + issued(counter, attempts).len(),
    decreases attempts,
{
    if attempts > 0 {
        match allocate(counter) {
            Some((id, next)) => {
                lemma_issued_consecutive(next, (attempts - 1) as nat);
                let rest = issued(next, (attempts - 1) as nat);
                assert forall|k: int| 0 <= k < issued(counter, attempts).len() implies #[trigger] issued(
                    counter,
                    attempts,
                )[k] == counter + k by {
                    if k > 0 {
                        assert(issued(counter, attempts)[k] == rest[k - 1]);
                    }
                }
            },
            None => {
                lemma_issued_consecutive(counter, (attempts - 1) as nat);
            },
        }
    }
}

/// No identifier is handed out twice: over any run of allocations from one
/// counter, a later identifier is greater than every earlier one.
pub proof fn lemma_issued_never_repeats(counter: nat, attempts: nat, i: int, j: int)
    requires
        counter <= u32::MAX,
        0 <= i < j < issued(counter, attempts).len(),
    ensures
        issued(counter, attempts)[i] < issued(counter, attempts)[j],
{
    lemma_issued_consecutive(counter, attempts);
}

/// An identifier once handed out lies below the counter for good, and every
/// later one lies at or above the counter as it was: continuing a run never
/// hands out an identifier of the run before.
pub proof fn lemma_issued_stay_below_counter(counter: nat, attempts: nat, more: nat, i: int, j: int)
    requires
        counter <= u32::MAX,
        0 <= i < issued(counter, attempts).len(),
        0 <= j < issued(counter_after(counter, attempts), more).len(),
    ensures
        issued(counter, attempts)[i] < counter_after(counter, attempts),
        issued(counter, attempts)[i] < issued(counter_after(counter, attempts), more)[j],
{
    lemma_issued_consecutive(counter, attempts);
    lemma_issued_consecutive(counter_after(counter, attempts), more);
}

} // verus!
