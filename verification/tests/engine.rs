use std::time::Duration;

use canora::engine::finished;

/// A length as the library keeps it, in milliseconds.
fn ms(length: Duration) -> u64 {
    length.as_millis() as u64
}

/// The length of the track in these tests.
const LONG: Duration = Duration::from_secs(240);

#[test]
fn a_track_that_ran_out_finished() {
    assert!(finished(ms(LONG), ms(LONG)));
    // The last position report comes 500 ms before the end.
    assert!(finished(ms(LONG - Duration::from_millis(500)), ms(LONG)));
}

#[test]
fn a_track_that_ended_where_it_started_did_not() {
    // A track with no decryption key ends this way.
    assert!(!finished(ms(Duration::ZERO), ms(LONG)));
    assert!(!finished(ms(Duration::from_secs(2)), ms(LONG)));
}

#[test]
fn a_track_of_no_length_is_never_held_back() {
    assert!(finished(ms(Duration::ZERO), ms(Duration::ZERO)));
}

#[test]
fn five_seconds_short_is_still_the_end_and_six_is_not() {
    assert!(finished(ms(LONG - Duration::from_secs(5)), ms(LONG)));
    assert!(!finished(ms(LONG - Duration::from_secs(6)), ms(LONG)));
    assert!(finished(ms(LONG + Duration::from_secs(1)), ms(LONG)));
}
