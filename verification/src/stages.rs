//! Stages of a single-leg escrow and the deadlines that open them.

use vstd::prelude::*;

verus! {

/// Funds are locked; nothing can be done yet.
pub const STAGE_FINALITY: u32 = 0;

/// The private withdrawal has opened.
pub const STAGE_SRC_WITHDRAWAL: u32 = 1;

/// Anyone may withdraw with the secret.
pub const STAGE_SRC_PUBLIC_WITHDRAWAL: u32 = 2;

/// The private cancellation has opened.
pub const STAGE_SRC_CANCELLATION: u32 = 3;

/// Anyone may cancel.
pub const STAGE_SRC_PUBLIC_CANCELLATION: u32 = 4;

/// Number of stages of a single-leg escrow.
pub const STAGE_COUNT: usize = 5;

/// Whether each deadline is at or after the one before it.
pub open spec fn non_decreasing(deadlines: Seq<u64>) -> bool {
    forall|i: int, j: int| 0 <= i <= j < deadlines.len() ==> deadlines[i] <= deadlines[j]
}

/// The stage that `now` falls in: the last stage after the first whose
/// deadline has passed, and the first stage while none has.
pub open spec fn stage_at(deadlines: Seq<u64>, now: u64) -> nat
    decreases deadlines.len(),
{
    if deadlines.len() <= 1 {
        0
    } else if deadlines.last() <= now {
        (deadlines.len() - 1) as nat
    } else {
        stage_at(deadlines.drop_last(), now)
    }
}

/// Checks that a deadline sequence never steps back.
pub fn is_non_decreasing(deadlines: &Vec<u64>) -> (sorted: bool)
    ensures
        sorted == non_decreasing(deadlines@),
{
    let mut i: usize = 1;
    while i < deadlines.len()
        invariant
            1 <= i,
            forall|a: int, b: int| 0 <= a <= b < i && b < deadlines@.len() ==> deadlines@[a] <= deadlines@[b],
        decreases deadlines@.len() - i,
    {
        if deadlines[i - 1] > deadlines[i] {
            return false;
        }
        i += 1;
    }
    true
}

/// The stage of an escrow at time `now`: the stage `k` whose window
/// `[deadline[k], deadline[k + 1])` holds `now`; the first stage before the
/// second deadline, the last stage from the last deadline on.
pub fn current_stage(deadlines: &Vec<u64>, now: u64) -> (stage: u32)
    requires
        deadlines@.len() <= u32::MAX,
    ensures
        stage == stage_at(deadlines@, now),
{
    let mut k: usize = deadlines.len();
    proof {
        assert(deadlines@.take(k as int) =~= deadlines@);
    }
    while k > 1
        invariant
            k <= deadlines@.len() <= u32::MAX,
            stage_at(deadlines@, now) == stage_at(deadlines@.take(k as int), now),
        decreases k,
    {
        let ghost prefix = deadlines@.take(k as int);
        assert(prefix.last() == deadlines@[k - 1]);
        assert(prefix.drop_last() =~= deadlines@.take(k - 1));
        if deadlines[k - 1] <= now {
            return (k - 1) as u32;
        }
        k -= 1;
    }
    0
}

/// The stage at any time is one of the stages of the sequence.
pub proof fn lemma_stage_in_range(deadlines: Seq<u64>, now: u64)
    ensures
        deadlines.len() == 0 ==> stage_at(deadlines, now) == 0,
        deadlines.len() > 0 ==> stage_at(deadlines, now) < deadlines.len(),
    decreases deadlines.len(),
{
    if deadlines.len() > 1 && deadlines.last() > now {
        lemma_stage_in_range(deadlines.drop_last(), now);
    }
}

/// The windows of the stages partition time: `now` is in stage `k` exactly
/// when the deadline of `k` has passed, unless `k` is the first stage, and
/// the deadline of the stage after `k` has not, unless `k` is the last.
pub proof fn lemma_stage_window(deadlines: Seq<u64>, now: u64, k: nat)
    requires
        non_decreasing(deadlines),
        k < deadlines.len(),
    ensures
        stage_at(deadlines, now) == k <==> {
            &&& (k > 0 ==> deadlines[k as int] <= now)
            &&& (k + 1 < deadlines.len() ==> now < deadlines[k as int + 1])
        },
    decreases deadlines.len(),
{
    if deadlines.len() > 1 {
        let shorter = deadlines.drop_last();
        if deadlines.last() > now {
            assert(non_decreasing(shorter));
            lemma_stage_in_range(shorter, now);
            if k < shorter.len() {
                lemma_stage_window(shorter, now, k);
            }
        }
    }
}

/// The stage never goes back as time goes on.
pub proof fn lemma_stage_monotonic(deadlines: Seq<u64>, earlier: u64, later: u64)
    requires
        non_decreasing(deadlines),
        earlier <= later,
    ensures
        stage_at(deadlines, earlier) <= stage_at(deadlines, later),
    decreases deadlines.len(),
{
    if deadlines.len() > 1 {
        let shorter = deadlines.drop_last();
        lemma_stage_in_range(shorter, earlier);
        if deadlines.last() > later {
            assert(non_decreasing(shorter));
            lemma_stage_monotonic(shorter, earlier, later);
        }
    }
}

} // verus!
