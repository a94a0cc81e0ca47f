use gpstime::compensator::correct;
use gpstime::datetime::{Date, TimeOfDay, Timestamp};
use gpstime::decoder::{DecodeError, TimeCandidate};
use gpstime::driver::{process_line, process_line_now, StepOutcome};
use gpstime::selector::Selector;

const TODAY: Date = Date { year: 2024, month: 6, day: 25 };

#[test]
fn zda_line_accepted_and_latency_compensated() {
    let mut sel = Selector::new();
    let r = process_line(&mut sel, b"$GPZDA,123519000,25,06,2024,,*68", TODAY);
    let expected = Timestamp {
        date: Date { year: 2024, month: 6, day: 25 },
        time: TimeOfDay { hour: 12, minute: 35, second: 19, millis: 0 },
    };
    assert_eq!(
        r,
        StepOutcome::SetClock(TimeCandidate::HighConfidence(expected), expected)
    );
    // A receipt mark 50 ms before correction yields 2024-06-25T12:35:19.050Z.
    let applied = correct(expected.to_epoch_millis(), 50);
    assert_eq!(applied, 1_719_318_919_050);
}

#[test]
fn five_gga_lines_accept_the_fifth_with_reference_date() {
    let mut sel = Selector::new();
    let line: &[u8] = b"$GPGGA,081530500,4807.038,N,01131.000,E,1,08,0.9,545.4,M,,*47";
    for _ in 0..4 {
        assert_eq!(process_line(&mut sel, line, TODAY), StepOutcome::KeepReading);
    }
    let time = TimeOfDay { hour: 8, minute: 15, second: 30, millis: 0 };
    let expected = Timestamp { date: TODAY, time };
    assert_eq!(
        process_line(&mut sel, line, TODAY),
        StepOutcome::SetClock(TimeCandidate::LowConfidence(time), expected)
    );
}

#[test]
fn unrecognized_tag_then_zda_accepts_the_zda() {
    let mut sel = Selector::new();
    let r = process_line(&mut sel, b"$GPRMC,123519,A,4807.038,N,01131.000,E", TODAY);
    assert_eq!(r, StepOutcome::KeepReading);
    assert_eq!(sel.low_streak, 0);
    let expected = Timestamp {
        date: Date { year: 2024, month: 6, day: 25 },
        time: TimeOfDay { hour: 12, minute: 35, second: 19, millis: 0 },
    };
    let r = process_line(&mut sel, b"$GPZDA,123519000,25,06,2024,,*68", TODAY);
    assert_eq!(
        r,
        StepOutcome::SetClock(TimeCandidate::HighConfidence(expected), expected)
    );
}

#[test]
fn unrecognized_tags_do_not_reset_the_streak() {
    let mut sel = Selector::new();
    let gga: &[u8] = b"$GPGGA,081530500,4807.038,N";
    for _ in 0..4 {
        assert_eq!(process_line(&mut sel, gga, TODAY), StepOutcome::KeepReading);
        assert_eq!(process_line(&mut sel, b"$GPRMC,123519,A", TODAY), StepOutcome::KeepReading);
    }
    assert_eq!(sel.low_streak, 4);
    let time = TimeOfDay { hour: 8, minute: 15, second: 30, millis: 0 };
    let expected = Timestamp { date: TODAY, time };
    assert_eq!(
        process_line(&mut sel, gga, TODAY),
        StepOutcome::SetClock(TimeCandidate::LowConfidence(time), expected)
    );
}

#[test]
fn malformed_recognized_sentence_aborts() {
    let mut sel = Selector::new();
    let r = process_line(&mut sel, b"$GPZDA,123519000,31,06,2024,,", TODAY);
    assert_eq!(r, StepOutcome::Abort(DecodeError::InvalidDate));
}

#[test]
fn high_confidence_wins_after_four_lows() {
    let mut sel = Selector::new();
    let gga: &[u8] = b"$GPGGA,081530500,4807.038,N";
    for _ in 0..4 {
        assert_eq!(process_line(&mut sel, gga, TODAY), StepOutcome::KeepReading);
    }
    let expected = Timestamp {
        date: Date { year: 2024, month: 6, day: 25 },
        time: TimeOfDay { hour: 12, minute: 35, second: 19, millis: 0 },
    };
    let r = process_line(&mut sel, b"$GPZDA,123519000,25,06,2024,,", TODAY);
    assert_eq!(
        r,
        StepOutcome::SetClock(TimeCandidate::HighConfidence(expected), expected)
    );
}

#[test]
fn reference_date_from_host_clock_is_plausible() {
    // Drive the clock-oracle path: five low-confidence sentences, the fifth
    // accepted with the current UTC date read from the host clock.
    let mut sel = Selector::new();
    let line: &[u8] = b"$GPGGA,081530500,4807.038,N";
    for _ in 0..4 {
        assert_eq!(process_line_now(&mut sel, line), StepOutcome::KeepReading);
    }
    match process_line_now(&mut sel, line) {
        StepOutcome::SetClock(c, ts) => {
            assert_eq!(
                c,
                TimeCandidate::LowConfidence(TimeOfDay { hour: 8, minute: 15, second: 30, millis: 0 })
            );
            assert_eq!(ts.time, TimeOfDay { hour: 8, minute: 15, second: 30, millis: 0 });
            assert!(ts.date.is_valid());
            assert!(ts.date.year >= 2020);
        }
        other => panic!("expected acceptance, got {:?}", other),
    }
}
