//! Reconciliation driver logic: the per-line decision step that the reading
//! loop applies, and the clock oracle that supplies the current UTC date for
//! low-confidence candidates.

use vstd::prelude::*;
use crate::datetime::{Date, Timestamp};
use crate::decoder::{decode, decode_spec, DecodeError, DecodeOutcome, TimeCandidate};
use crate::selector::{accepts, streak_after, Decision, Selector};

verus! {

/// What the reading loop should do after feeding one line to the core.
#[derive(Clone, Copy, Debug, PartialEq, Eq, Structural)]
pub enum StepOutcome {
    /// The given candidate was accepted: set the host clock to this timestamp
    /// (after latency compensation) and terminate.
    SetClock(TimeCandidate, Timestamp),
    /// Nothing was accepted: keep reading lines.
    KeepReading,
    /// A recognized sentence was malformed: abort the run.
    Abort(DecodeError),
}

/// The timestamp committed to when a candidate is accepted: a high-confidence
/// candidate carries its own date; a low-confidence one is combined with the
/// current UTC calendar date.
pub open spec fn accepted_timestamp(c: TimeCandidate, today: Date) -> Timestamp {
    match c {
        TimeCandidate::HighConfidence(ts) => ts,
        TimeCandidate::LowConfidence(tod) => Timestamp { date: today, time: tod },
    }
}

/// One step of the reconciliation driver: decode the line, let the selector
/// rule on any candidate, and name the action the loop must take. Decode
/// errors on recognized sentences abort; unrecognized sentences change
/// nothing.
pub fn process_line(sel: &mut Selector, line: &[u8], today: Date) -> (r: StepOutcome)
    ensures
        match decode_spec(line@) {
            DecodeOutcome::Failed(e) => r == StepOutcome::Abort(e)
                && final(sel).low_streak == old(sel).low_streak,
            DecodeOutcome::NotApplicable => r == StepOutcome::KeepReading
                && final(sel).low_streak == old(sel).low_streak,
            DecodeOutcome::Candidate(c) => {
                &&& final(sel).low_streak == streak_after(old(sel).low_streak as nat, c)
                &&& if accepts(old(sel).low_streak as nat, c) {
                    r == StepOutcome::SetClock(c, accepted_timestamp(c, today))
                } else {
                    r == StepOutcome::KeepReading
                }
            }
        },
{
    match decode(line) {
        DecodeOutcome::Candidate(c) => {
            match sel.observe(&c) {
                Decision::Accept(a) => {
                    match a {
                        TimeCandidate::HighConfidence(ts) => StepOutcome::SetClock(a, ts),
                        TimeCandidate::LowConfidence(tod) => {
                            StepOutcome::SetClock(a, Timestamp { date: today, time: tod })
                        }
                    }
                }
                Decision::Wait => StepOutcome::KeepReading,
            }
        }
        DecodeOutcome::NotApplicable => StepOutcome::KeepReading,
        DecodeOutcome::Failed(e) => StepOutcome::Abort(e),
    }
}

/// Relies on `chrono::Utc::now` and chrono's `Datelike` accessors: the
/// current instant on the UTC timeline falls on a valid proleptic Gregorian
/// calendar date, `Utc::now` does not return for a host clock before the Unix
/// epoch, and a `chrono::NaiveDate` never exceeds chrono's `MAX_YEAR`, so the
/// date read here is valid and its year is at least 1970.
#[verifier::external_body]
fn current_utc_date() -> (d: Date)
    ensures
        d.valid(),
        d.year >= 1970,
{
    let now = chrono::Utc::now().date_naive();
    Date {
        year: chrono::Datelike::year(&now) as u32,
        month: chrono::Datelike::month(&now),
        day: chrono::Datelike::day(&now),
    }
}

/// One driver step that reads the current UTC calendar date from the host
/// clock as the reference date for low-confidence candidates.
pub fn process_line_now(sel: &mut Selector, line: &[u8]) -> (r: StepOutcome)
    ensures
        match decode_spec(line@) {
            DecodeOutcome::Failed(e) => r == StepOutcome::Abort(e)
                && final(sel).low_streak == old(sel).low_streak,
            DecodeOutcome::NotApplicable => r == StepOutcome::KeepReading
                && final(sel).low_streak == old(sel).low_streak,
            DecodeOutcome::Candidate(c) => {
                &&& final(sel).low_streak == streak_after(old(sel).low_streak as nat, c)
                &&& if accepts(old(sel).low_streak as nat, c) {
                    exists|today: Date| today.valid()
                        && r == StepOutcome::SetClock(c, #[trigger] accepted_timestamp(c, today))
                } else {
                    r == StepOutcome::KeepReading
                }
            }
        },
{
    let today = current_utc_date();
    process_line(sel, line, today)
}

} // verus!
