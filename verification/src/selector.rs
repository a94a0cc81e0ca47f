//! Fallback selector: decides, candidate by candidate, whether to accept a
//! decoded time candidate now or keep waiting for a higher-confidence
//! sentence, with a bounded patience window before degrading to the
//! lower-confidence source.

use vstd::prelude::*;
use crate::decoder::TimeCandidate;

verus! {

/// How many consecutive low-confidence candidates are observed before one is
/// accepted in place of a high-confidence sentence.
pub const FALLBACK_THRESHOLD: u32 = 5;

/// The selector's only state: how many consecutive low-confidence candidates
/// have been seen with no high-confidence candidate arriving.
pub struct Selector {
    pub low_streak: u32,
}

/// The selector's verdict on one candidate.
#[derive(Clone, Copy, Debug, PartialEq, Eq, Structural)]
pub enum Decision {
    /// Commit to this candidate; the run ends after the clock is set.
    Accept(TimeCandidate),
    /// Discard this candidate and keep reading.
    Wait,
}

/// Whether a candidate is accepted when observed with the given streak:
/// high confidence always wins; a low-confidence candidate only once it is
/// the `FALLBACK_THRESHOLD`-th consecutive one.
pub open spec fn accepts(streak: nat, c: TimeCandidate) -> bool {
    c is HighConfidence || streak + 1 >= FALLBACK_THRESHOLD
}

/// The streak after observing a candidate: it counts only low-confidence
/// candidates still within the patience window.
pub open spec fn streak_after(streak: nat, c: TimeCandidate) -> nat {
    if c is LowConfidence && streak + 1 < FALLBACK_THRESHOLD {
        streak + 1
    } else {
        streak
    }
}

impl Selector {
    /// A fresh selector: no low-confidence candidate seen yet.
    pub fn new() -> (s: Self)
        ensures s.low_streak == 0,
    {
        Selector { low_streak: 0 }
    }

    /// Observe one decoded candidate and decide whether to accept it.
    pub fn observe(&mut self, c: &TimeCandidate) -> (d: Decision)
        ensures
            final(self).low_streak == streak_after(old(self).low_streak as nat, *c),
            d == (if accepts(old(self).low_streak as nat, *c) {
                Decision::Accept(*c)
            } else {
                Decision::Wait
            }),
    {
        match c {
            TimeCandidate::HighConfidence(_) => Decision::Accept(*c),
            TimeCandidate::LowConfidence(_) => {
                if self.low_streak >= FALLBACK_THRESHOLD - 1 {
                    Decision::Accept(*c)
                } else {
                    self.low_streak = self.low_streak + 1;
                    Decision::Wait
                }
            }
        }
    }
}

/// Four consecutive low-confidence candidates leave the selector waiting, and
/// a high-confidence candidate arriving next is accepted at once.
pub proof fn lemma_high_confidence_wins(
    l1: TimeCandidate, l2: TimeCandidate, l3: TimeCandidate, l4: TimeCandidate, h: TimeCandidate,
)
    requires
        l1 is LowConfidence, l2 is LowConfidence, l3 is LowConfidence, l4 is LowConfidence,
        h is HighConfidence,
    ensures
        !accepts(0, l1),
        !accepts(streak_after(0, l1), l2),
        !accepts(streak_after(streak_after(0, l1), l2), l3),
        !accepts(streak_after(streak_after(streak_after(0, l1), l2), l3), l4),
        accepts(streak_after(streak_after(streak_after(streak_after(0, l1), l2), l3), l4), h),
{
}

/// Five consecutive low-confidence candidates with no high-confidence
/// candidate interleaved: the first four are discarded and the fifth is
/// accepted.
pub proof fn lemma_fifth_low_confidence_accepted(
    l1: TimeCandidate, l2: TimeCandidate, l3: TimeCandidate, l4: TimeCandidate, l5: TimeCandidate,
)
    requires
        l1 is LowConfidence, l2 is LowConfidence, l3 is LowConfidence, l4 is LowConfidence,
        l5 is LowConfidence,
    ensures
        !accepts(0, l1),
        !accepts(streak_after(0, l1), l2),
        !accepts(streak_after(streak_after(0, l1), l2), l3),
        !accepts(streak_after(streak_after(streak_after(0, l1), l2), l3), l4),
        accepts(streak_after(streak_after(streak_after(streak_after(0, l1), l2), l3), l4), l5),
{
}

} // verus!
