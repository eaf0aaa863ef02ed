use std::time::Duration;

use canora::models::{Track, TrackId};
use canora::queue::{shuffled_order, PlayContext, Queue, RepeatMode};

/// A length as the library keeps it, in milliseconds.
fn ms(length: Duration) -> u64 {
    length.as_millis() as u64
}

/// A track called `name`, for a test.
fn track(name: &str) -> Track {
    Track {
        id: TrackId(name.to_owned()),
        name: name.to_owned(),
        artists: Vec::new(),
        album: None,
        duration_ms: ms(Duration::from_secs(180)),
        explicit: false,
        playable: true,
        track_number: 1,
    }
}

/// A queue of `count` tracks, playing the first.
fn queue(count: usize) -> Queue {
    let tracks = (0..count).map(|i| track(&i.to_string())).collect();
    let mut queue = Queue::default();
    queue.replace(tracks, 0, PlayContext::Adhoc);
    queue
}

#[test]
fn plays_in_order() {
    let mut queue = queue(3);
    assert_eq!(queue.current().map(|t| t.name.clone()), Some("0".into()));
    assert_eq!(queue.next(false).map(|t| t.name), Some("1".into()));
    assert_eq!(queue.next(false).map(|t| t.name), Some("2".into()));
    assert_eq!(queue.next(false), None, "the end stops the queue");
}

#[test]
fn repeat_all_wraps_around() {
    let mut queue = queue(2);
    queue.set_repeat(RepeatMode::All);
    assert_eq!(queue.next(false).map(|t| t.name), Some("1".into()));
    assert_eq!(queue.next(false).map(|t| t.name), Some("0".into()));
}

#[test]
fn repeat_one_holds_only_at_the_end_of_a_track() {
    let mut queue = queue(3);
    queue.set_repeat(RepeatMode::One);
    assert_eq!(
        queue.next(true).map(|t| t.name),
        Some("0".into()),
        "a track that ends plays again"
    );
    assert_eq!(
        queue.next(false).map(|t| t.name),
        Some("1".into()),
        "a person who presses next gets the next track"
    );
}

#[test]
fn a_manual_track_plays_before_the_order_continues() {
    let mut queue = queue(3);
    queue.play_next(track("guest"));

    assert_eq!(queue.next(false).map(|t| t.name), Some("guest".into()));
    assert_eq!(
        queue.next(false).map(|t| t.name),
        Some("1".into()),
        "the list carries on where it was"
    );
}

#[test]
fn previous_stops_at_the_first_track() {
    let mut queue = queue(3);
    assert_eq!(queue.previous().map(|t| t.name), Some("0".into()));
    assert_eq!(queue.position().0, 0);
}

#[test]
fn shuffle_keeps_the_track_that_is_playing() {
    let mut queue = queue(20);
    queue.jump_to(7);
    let playing = queue.current().map(|t| t.name.clone());

    queue.set_shuffle(true);
    assert_eq!(queue.current().map(|t| t.name.clone()), playing);
    assert_eq!(queue.position().0, 0, "the playing track leads the order");
    assert_eq!(queue.position().1, 20, "every track is still in the queue");

    queue.set_shuffle(false);
    assert_eq!(queue.current().map(|t| t.name.clone()), playing);
    assert_eq!(queue.position().0, 7, "the list order is back");
}

#[test]
fn shuffle_holds_every_track_once() {
    let mut queue = queue(50);
    queue.set_shuffle(true);

    let mut seen: Vec<String> = Vec::new();
    while let Some(track) = queue.current() {
        seen.push(track.name.clone());
        if queue.next(false).is_none() {
            break;
        }
    }
    seen.sort();
    seen.dedup();
    assert_eq!(seen.len(), 50);
}

#[test]
fn upcoming_shows_manual_tracks_first() {
    let mut queue = queue(5);
    queue.play_next(track("guest"));

    let upcoming = queue.upcoming(3);
    let names: Vec<_> = upcoming.iter().map(|t| t.name.as_str()).collect();
    assert_eq!(names, vec!["guest", "1", "2"]);
}

#[test]
fn replacing_starts_where_it_is_told() {
    let mut queue = queue(3);
    let tracks = vec![track("a"), track("b"), track("c")];
    queue.replace(tracks, 2, PlayContext::Liked);

    assert_eq!(queue.current().map(|t| t.name.clone()), Some("c".into()));
    assert_eq!(queue.context(), &PlayContext::Liked);
}

#[test]
fn a_start_past_the_end_plays_nothing() {
    let mut queue = queue(3);
    queue.replace(vec![track("a")], 5, PlayContext::Adhoc);
    assert!(queue.current().is_none());
    assert_eq!(queue.next(false).map(|t| t.name), Some("a".into()));
}

#[test]
fn repeat_all_wraps_previous_to_the_last_track() {
    let mut queue = queue(4);
    queue.set_repeat(RepeatMode::All);
    assert_eq!(queue.previous().map(|t| t.name), Some("3".into()));
    assert_eq!(queue.position(), (3, 4));
}

#[test]
fn jumping_past_the_end_changes_nothing() {
    let mut queue = queue(3);
    assert!(queue.jump_to(3).is_none());
    assert_eq!(queue.position(), (0, 3));
}

#[test]
fn the_repeat_control_steps_through_every_mode() {
    assert_eq!(RepeatMode::Off.next(), RepeatMode::All);
    assert_eq!(RepeatMode::All.next(), RepeatMode::One);
    assert_eq!(RepeatMode::One.next(), RepeatMode::Off);
}

#[test]
fn shuffle_on_an_empty_queue_plays_nothing() {
    let mut queue = Queue::default();
    queue.set_shuffle(true);
    assert!(queue.shuffle());
    assert!(queue.current().is_none());
    assert_eq!(queue.position(), (0, 0));
}

#[test]
fn a_shuffled_order_leads_with_the_track_playing() {
    assert_eq!(shuffled_order(Some(2), vec![4, 0, 3, 1]), vec![2, 4, 0, 3, 1]);
    assert_eq!(shuffled_order(None, vec![1, 0]), vec![1, 0]);
    assert_eq!(shuffled_order(Some(0), Vec::new()), vec![0]);
}
