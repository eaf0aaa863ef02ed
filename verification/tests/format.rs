use std::time::Duration;

use canora::format::{duration, summary, total_time, truncate};

/// A length as the library keeps it, in milliseconds.
fn ms(length: Duration) -> u64 {
    length.as_millis() as u64
}

#[test]
fn keeps_a_short_line_whole() {
    assert_eq!(truncate("Paris", 10), "Paris");
    assert_eq!(truncate("exactly10!", 10), "exactly10!");
}

#[test]
fn cuts_a_long_line_and_marks_it() {
    let cut = truncate("Invisible - Piano Version", 12);
    assert_eq!(cut, "Invisible -…");
    assert_eq!(cut.chars().count(), 12);
}

#[test]
fn cuts_between_letters() {
    // A byte cut would split the accented letter.
    let cut = truncate("clé des champs für alle", 6);
    assert_eq!(cut, "clé d…");
}

#[test]
fn writes_a_length() {
    assert_eq!(duration(ms(Duration::from_secs(0))), "0:00");
    assert_eq!(duration(ms(Duration::from_secs(61))), "1:01");
    assert_eq!(duration(ms(Duration::from_secs(200))), "3:20");
    assert_eq!(duration(ms(Duration::from_secs(3661))), "1:01:01");
}

#[test]
fn writes_a_summary() {
    assert_eq!(summary(1, ms(Duration::ZERO)), "1 song");
    assert_eq!(
        summary(42, ms(Duration::from_secs(9060))),
        "42 songs · 2 hr 31 min"
    );
    assert_eq!(summary(3, ms(Duration::from_secs(600))), "3 songs · 10 min");
}

#[test]
fn a_cut_drops_the_space_before_the_mark() {
    assert_eq!(truncate("ab  cdef", 4), "ab…");
}

#[test]
fn a_budget_of_nothing_keeps_only_the_mark() {
    assert_eq!(truncate("abc", 0), "…");
    assert_eq!(truncate("", 0), "");
}

#[test]
fn whole_hours_carry_no_minutes() {
    assert_eq!(total_time(ms(Duration::from_secs(7200))), "2 hr");
    assert_eq!(total_time(ms(Duration::from_secs(59))), "0 min");
}

#[test]
fn a_length_drops_the_part_of_a_second() {
    assert_eq!(duration(61_999), "1:01");
}
