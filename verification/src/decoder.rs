//! Sentence decoder: parses one raw comma-delimited NMEA sentence line into a
//! structured time candidate, or reports why it could not.

use vstd::prelude::*;
use crate::datetime::{Date, TimeOfDay, Timestamp};

verus! {

/// Why a recognized sentence could not be decoded.
#[derive(Clone, Copy, Debug, PartialEq, Eq, Structural)]
pub enum DecodeError {
    /// The sentence ends before a required field.
    MissingField,
    /// A required numeric field holds a non-digit, is empty, or overflows.
    BadNumber,
    /// The time-status field is not exactly 9 characters long.
    BadStatusLength,
    /// The date fields name an impossible calendar date.
    InvalidDate,
    /// The time-status field names an impossible time of day.
    InvalidTime,
}

/// A decoded absolute-time candidate.
#[derive(Clone, Copy, Debug, PartialEq, Eq, Structural)]
pub enum TimeCandidate {
    /// From a sentence carrying a full calendar date and time: trusted as is.
    HighConfidence(Timestamp),
    /// From a sentence carrying a time of day only; the current calendar date
    /// must be supplied when the candidate is accepted.
    LowConfidence(TimeOfDay),
}

/// What the decoder makes of one line.
#[derive(Clone, Copy, Debug, PartialEq, Eq, Structural)]
pub enum DecodeOutcome {
    Candidate(TimeCandidate),
    /// The sentence is of a family this system does not consume.
    NotApplicable,
    Failed(DecodeError),
}

// --- splitting a line into comma-separated fields ---

pub open spec fn split_rec(s: Seq<u8>, cur: Seq<u8>) -> Seq<Seq<u8>>
    decreases s.len(),
{
    if s.len() == 0 {
        seq![cur]
    } else if s[0] == 44u8 {
        seq![cur] + split_rec(s.drop_first(), Seq::empty())
    } else {
        split_rec(s.drop_first(), cur.push(s[0]))
    }
}

/// The comma-separated fields of a sentence line.
pub open spec fn fields_of(s: Seq<u8>) -> Seq<Seq<u8>> {
    split_rec(s, Seq::empty())
}

proof fn lemma_split_rec_nonempty(s: Seq<u8>, cur: Seq<u8>)
    ensures split_rec(s, cur).len() >= 1,
    decreases s.len(),
{
    if s.len() == 0 {
    } else if s[0] == 44u8 {
        lemma_split_rec_nonempty(s.drop_first(), Seq::empty());
    } else {
        lemma_split_rec_nonempty(s.drop_first(), cur.push(s[0]));
    }
}

fn split_commas(l: &[u8]) -> (r: Vec<Vec<u8>>)
    ensures
        r@.len() == fields_of(l@).len(),
        r@.len() >= 1,
        forall|k: int| 0 <= k < r@.len() ==> r@[k]@ == fields_of(l@)[k],
{
    let mut res: Vec<Vec<u8>> = Vec::new();
    let ghost mut done: Seq<Seq<u8>> = Seq::empty();
    let mut cur: Vec<u8> = Vec::new();
    let mut i: usize = 0;
    proof {
        assert(l@.skip(0) =~= l@);
        assert(Seq::<Seq<u8>>::empty() + split_rec(l@, Seq::empty())
            =~= split_rec(l@, Seq::empty()));
    }
    while i < l.len()
        invariant
            i <= l.len(),
            done.len() == res@.len(),
            forall|k: int| 0 <= k < res@.len() ==> res@[k]@ == done[k],
            fields_of(l@) == done + split_rec(l@.skip(i as int), cur@),
        decreases l.len() - i,
    {
        let b = l[i];
        proof {
            assert(l@.skip(i as int)[0] == l@[i as int]);
            assert(l@.skip(i as int).drop_first() =~= l@.skip(i + 1));
        }
        if b == 44u8 {
            proof {
                done = done.push(cur@);
                assert(done + split_rec(l@.skip(i + 1), Seq::empty())
                    =~= (done.drop_last() + (seq![cur@] + split_rec(l@.skip(i + 1), Seq::empty()))));
            }
            res.push(cur);
            cur = Vec::new();
        } else {
            cur.push(b);
        }
        i += 1;
    }
    proof {
        assert(l@.skip(l@.len() as int) =~= Seq::<u8>::empty());
        assert(fields_of(l@) =~= done.push(cur@));
        lemma_split_rec_nonempty(l@, Seq::empty());
        done = done.push(cur@);
    }
    res.push(cur);
    res
}

// --- decimal fields ---

pub open spec fn is_digit(b: u8) -> bool {
    48 <= b <= 57
}

pub open spec fn all_digits(s: Seq<u8>) -> bool {
    forall|k: int| 0 <= k < s.len() ==> is_digit(#[trigger] s[k])
}

/// The value of a sequence of decimal digits, most significant first.
pub open spec fn dec_val(s: Seq<u8>) -> int
    decreases s.len(),
{
    if s.len() == 0 {
        0
    } else {
        dec_val(s.drop_last()) * 10 + (s.last() - 48)
    }
}

/// A field that parses as an unsigned 32-bit decimal integer.
pub open spec fn numeric_u32(f: Seq<u8>) -> bool {
    f.len() > 0 && all_digits(f) && dec_val(f) <= u32::MAX
}

proof fn lemma_dec_val_nonneg(s: Seq<u8>)
    requires all_digits(s),
    ensures dec_val(s) >= 0,
    decreases s.len(),
{
    if s.len() > 0 {
        assert(all_digits(s.drop_last())) by {
            assert(forall|k: int| 0 <= k < s.len() - 1 ==> s.drop_last()[k] == s[k]);
        }
        lemma_dec_val_nonneg(s.drop_last());
    }
}

/// Extending a digit string to the right can only grow its value.
proof fn lemma_dec_val_prefix_le(s: Seq<u8>, k: int)
    requires
        all_digits(s),
        0 <= k <= s.len(),
    ensures
        dec_val(s.subrange(0, k)) <= dec_val(s),
    decreases s.len() - k,
{
    if k == s.len() {
        assert(s.subrange(0, k) =~= s);
    } else {
        let p = s.subrange(0, k);
        let q = s.subrange(0, k + 1);
        assert(q.drop_last() =~= p);
        assert(all_digits(p)) by {
            assert(forall|j: int| 0 <= j < p.len() ==> p[j] == s[j]);
        }
        lemma_dec_val_nonneg(p);
        assert(dec_val(q) == dec_val(p) * 10 + (s[k] - 48));
        lemma_dec_val_prefix_le(s, k + 1);
    }
}

fn parse_u32(f: &Vec<u8>) -> (r: Option<u32>)
    ensures
        r is Some <==> numeric_u32(f@),
        r matches Some(v) ==> v == dec_val(f@),
{
    if f.len() == 0 {
        return None;
    }
    let mut acc: u64 = 0;
    let mut i: usize = 0;
    while i < f.len()
        invariant
            i <= f@.len(),
            all_digits(f@.subrange(0, i as int)),
            acc == dec_val(f@.subrange(0, i as int)),
            acc <= u32::MAX,
        decreases f@.len() - i,
    {
        let b = f[i];
        if !(48 <= b && b <= 57) {
            return None;
        }
        proof {
            assert(f@.subrange(0, i + 1).drop_last() =~= f@.subrange(0, i as int));
        }
        let next: u64 = acc * 10 + (b - 48) as u64;
        if next > 0xffff_ffff {
            proof {
                if all_digits(f@) {
                    lemma_dec_val_prefix_le(f@, i + 1);
                }
            }
            return None;
        }
        acc = next;
        i += 1;
    }
    proof {
        assert(f@.subrange(0, f@.len() as int) =~= f@);
    }
    Some(acc as u32)
}

// --- the 9-character time-status field ---

pub open spec fn two_digits_at(t: Seq<u8>, i: int) -> bool {
    is_digit(t[i]) && is_digit(t[i + 1])
}

pub open spec fn two_digit_val(t: Seq<u8>, i: int) -> int {
    (t[i] - 48) * 10 + (t[i + 1] - 48)
}

/// The layout of a 9-character time-status field: two digits each of hour,
/// minute and second, one separator character (unchecked), and a two-digit
/// sub-second field counting tens of milliseconds.
pub open spec fn status_shape_ok(t: Seq<u8>) -> bool {
    two_digits_at(t, 0) && two_digits_at(t, 2) && two_digits_at(t, 4) && two_digits_at(t, 7)
}

/// The time of day a well-shaped time-status field names.
pub open spec fn time_of_status(t: Seq<u8>) -> TimeOfDay {
    TimeOfDay {
        hour: two_digit_val(t, 0) as u32,
        minute: two_digit_val(t, 2) as u32,
        second: two_digit_val(t, 4) as u32,
        millis: (two_digit_val(t, 7) * 10) as u32,
    }
}

fn parse_status(t: &Vec<u8>) -> (r: Option<TimeOfDay>)
    requires
        t@.len() == 9,
    ensures
        r is Some <==> status_shape_ok(t@),
        r matches Some(v) ==> v == time_of_status(t@),
{
    let b0 = t[0]; let b1 = t[1];
    let b2 = t[2]; let b3 = t[3];
    let b4 = t[4]; let b5 = t[5];
    let b7 = t[7]; let b8 = t[8];
    if 48 <= b0 && b0 <= 57 && 48 <= b1 && b1 <= 57
        && 48 <= b2 && b2 <= 57 && 48 <= b3 && b3 <= 57
        && 48 <= b4 && b4 <= 57 && 48 <= b5 && b5 <= 57
        && 48 <= b7 && b7 <= 57 && 48 <= b8 && b8 <= 57 {
        Some(TimeOfDay {
            hour: (b0 - 48) as u32 * 10 + (b1 - 48) as u32,
            minute: (b2 - 48) as u32 * 10 + (b3 - 48) as u32,
            second: (b4 - 48) as u32 * 10 + (b5 - 48) as u32,
            millis: ((b7 - 48) as u32 * 10 + (b8 - 48) as u32) * 10,
        })
    } else {
        None
    }
}

// --- sentence tags ---

/// The two high-confidence (date + time) sentence tags.
pub open spec fn tag_gpzda() -> Seq<u8> {
    seq![36u8, 71u8, 80u8, 90u8, 68u8, 65u8]
}

pub open spec fn tag_gnzda() -> Seq<u8> {
    seq![36u8, 71u8, 78u8, 90u8, 68u8, 65u8]
}

/// The low-confidence (time-of-day only) fix-data sentence tag.
pub open spec fn tag_gpgga() -> Seq<u8> {
    seq![36u8, 71u8, 80u8, 71u8, 71u8, 65u8]
}

fn is_zda_tag(f: &Vec<u8>) -> (r: bool)
    ensures r == (f@ == tag_gpzda() || f@ == tag_gnzda()),
{
    if f.len() != 6 {
        return false;
    }
    let r = f[0] == 36 && f[1] == 71 && (f[2] == 80 || f[2] == 78)
        && f[3] == 90 && f[4] == 68 && f[5] == 65;
    proof {
        if r {
            if f@[2] == 80u8 {
                assert(f@ =~= tag_gpzda());
            } else {
                assert(f@ =~= tag_gnzda());
            }
        }
    }
    r
}

fn is_gga_tag(f: &Vec<u8>) -> (r: bool)
    ensures r == (f@ == tag_gpgga()),
{
    if f.len() != 6 {
        return false;
    }
    let r = f[0] == 36 && f[1] == 71 && f[2] == 80
        && f[3] == 71 && f[4] == 71 && f[5] == 65;
    proof {
        if r {
            assert(f@ =~= tag_gpgga());
        }
    }
    r
}

// --- the decoder itself ---

/// The outcome for a high-confidence sentence, over its field list:
/// fields are [tag, time-status, day, month, year, ...].
pub open spec fn zda_outcome(fs: Seq<Seq<u8>>) -> DecodeOutcome {
    if fs.len() < 5 {
        DecodeOutcome::Failed(DecodeError::MissingField)
    } else if fs[1].len() != 9 {
        DecodeOutcome::Failed(DecodeError::BadStatusLength)
    } else if !(numeric_u32(fs[2]) && numeric_u32(fs[3]) && numeric_u32(fs[4])
        && status_shape_ok(fs[1])) {
        DecodeOutcome::Failed(DecodeError::BadNumber)
    } else {
        let date = Date {
            year: dec_val(fs[4]) as u32,
            month: dec_val(fs[3]) as u32,
            day: dec_val(fs[2]) as u32,
        };
        let time = time_of_status(fs[1]);
        if !date.valid() {
            DecodeOutcome::Failed(DecodeError::InvalidDate)
        } else if !time.valid() {
            DecodeOutcome::Failed(DecodeError::InvalidTime)
        } else {
            DecodeOutcome::Candidate(TimeCandidate::HighConfidence(Timestamp { date, time }))
        }
    }
}

/// The outcome for a low-confidence sentence, over its field list:
/// fields are [tag, time-status, ...]; no date is taken from the sentence.
pub open spec fn gga_outcome(fs: Seq<Seq<u8>>) -> DecodeOutcome {
    if fs.len() < 2 {
        DecodeOutcome::Failed(DecodeError::MissingField)
    } else if fs[1].len() != 9 {
        DecodeOutcome::Failed(DecodeError::BadStatusLength)
    } else if !status_shape_ok(fs[1]) {
        DecodeOutcome::Failed(DecodeError::BadNumber)
    } else {
        let time = time_of_status(fs[1]);
        if !time.valid() {
            DecodeOutcome::Failed(DecodeError::InvalidTime)
        } else {
            DecodeOutcome::Candidate(TimeCandidate::LowConfidence(time))
        }
    }
}

/// What decoding one line yields.
pub open spec fn decode_spec(line: Seq<u8>) -> DecodeOutcome {
    let fs = fields_of(line);
    if fs[0] == tag_gpzda() || fs[0] == tag_gnzda() {
        zda_outcome(fs)
    } else if fs[0] == tag_gpgga() {
        gga_outcome(fs)
    } else {
        DecodeOutcome::NotApplicable
    }
}

/// Every well-formed high-confidence sentence — a date-time tag, a
/// 9-character time-status field of the digit layout, numeric day, month and
/// year fields, and a semantically valid date and time — decodes to a
/// high-confidence candidate whose timestamp is exactly the decoded calendar
/// date and time, with milliseconds equal to the two-digit sub-second field
/// times ten.
pub proof fn lemma_valid_zda_decodes(line: Seq<u8>)
    requires
        fields_of(line)[0] == tag_gpzda() || fields_of(line)[0] == tag_gnzda(),
        fields_of(line).len() >= 5,
        fields_of(line)[1].len() == 9,
        status_shape_ok(fields_of(line)[1]),
        numeric_u32(fields_of(line)[2]),
        numeric_u32(fields_of(line)[3]),
        numeric_u32(fields_of(line)[4]),
        (Date {
            year: dec_val(fields_of(line)[4]) as u32,
            month: dec_val(fields_of(line)[3]) as u32,
            day: dec_val(fields_of(line)[2]) as u32,
        }).valid(),
        time_of_status(fields_of(line)[1]).valid(),
    ensures
        decode_spec(line) == DecodeOutcome::Candidate(TimeCandidate::HighConfidence(Timestamp {
            date: Date {
                year: dec_val(fields_of(line)[4]) as u32,
                month: dec_val(fields_of(line)[3]) as u32,
                day: dec_val(fields_of(line)[2]) as u32,
            },
            time: TimeOfDay {
                hour: two_digit_val(fields_of(line)[1], 0) as u32,
                minute: two_digit_val(fields_of(line)[1], 2) as u32,
                second: two_digit_val(fields_of(line)[1], 4) as u32,
                millis: (two_digit_val(fields_of(line)[1], 7) * 10) as u32,
            },
        })),
{
}

/// Any recognized sentence whose time-status field is missing or not exactly
/// 9 characters long decodes to an error, never to a candidate.
pub proof fn lemma_status_length_rejected(line: Seq<u8>)
    requires
        fields_of(line)[0] == tag_gpzda() || fields_of(line)[0] == tag_gnzda()
            || fields_of(line)[0] == tag_gpgga(),
        fields_of(line).len() < 2 || fields_of(line)[1].len() != 9,
    ensures
        decode_spec(line) is Failed,
{
}

/// Date fields naming an impossible calendar date — on a sentence otherwise
/// well-formed — decode to an `InvalidDate` error, never to a candidate and
/// never to a silently adjusted date.
pub proof fn lemma_invalid_date_rejected(line: Seq<u8>)
    requires
        fields_of(line)[0] == tag_gpzda() || fields_of(line)[0] == tag_gnzda(),
        fields_of(line).len() >= 5,
        fields_of(line)[1].len() == 9,
        status_shape_ok(fields_of(line)[1]),
        numeric_u32(fields_of(line)[2]),
        numeric_u32(fields_of(line)[3]),
        numeric_u32(fields_of(line)[4]),
        !(Date {
            year: dec_val(fields_of(line)[4]) as u32,
            month: dec_val(fields_of(line)[3]) as u32,
            day: dec_val(fields_of(line)[2]) as u32,
        }).valid(),
    ensures
        decode_spec(line) == DecodeOutcome::Failed(DecodeError::InvalidDate),
{
}

/// A line whose tag is none of the recognized sentence tags is not an error:
/// it decodes to `NotApplicable`.
pub proof fn lemma_unrecognized_tag_skipped(line: Seq<u8>)
    requires
        fields_of(line)[0] != tag_gpzda(),
        fields_of(line)[0] != tag_gnzda(),
        fields_of(line)[0] != tag_gpgga(),
    ensures
        decode_spec(line) == DecodeOutcome::NotApplicable,
{
}

/// Decode one raw sentence line (without its line terminator).
pub fn decode(line: &[u8]) -> (r: DecodeOutcome)
    ensures r == decode_spec(line@),
{
    let fields = split_commas(line);
    let ghost fs = fields_of(line@);
    if is_zda_tag(&fields[0]) {
        if fields.len() < 5 {
            return DecodeOutcome::Failed(DecodeError::MissingField);
        }
        if fields[1].len() != 9 {
            return DecodeOutcome::Failed(DecodeError::BadStatusLength);
        }
        let day = parse_u32(&fields[2]);
        let month = parse_u32(&fields[3]);
        let year = parse_u32(&fields[4]);
        let time = parse_status(&fields[1]);
        match (day, month, year, time) {
            (Some(d), Some(m), Some(y), Some(t)) => {
                let date = Date { year: y, month: m, day: d };
                if !date.is_valid() {
                    DecodeOutcome::Failed(DecodeError::InvalidDate)
                } else if !t.is_valid() {
                    DecodeOutcome::Failed(DecodeError::InvalidTime)
                } else {
                    DecodeOutcome::Candidate(TimeCandidate::HighConfidence(
                        Timestamp { date, time: t },
                    ))
                }
            }
            _ => DecodeOutcome::Failed(DecodeError::BadNumber),
        }
    } else if is_gga_tag(&fields[0]) {
        if fields.len() < 2 {
            return DecodeOutcome::Failed(DecodeError::MissingField);
        }
        if fields[1].len() != 9 {
            return DecodeOutcome::Failed(DecodeError::BadStatusLength);
        }
        match parse_status(&fields[1]) {
            Some(t) => {
                if !t.is_valid() {
                    DecodeOutcome::Failed(DecodeError::InvalidTime)
                } else {
                    DecodeOutcome::Candidate(TimeCandidate::LowConfidence(t))
                }
            }
            None => DecodeOutcome::Failed(DecodeError::BadNumber),
        }
    } else {
        DecodeOutcome::NotApplicable
    }
}

} // verus!
