use std::time::Duration;

use canora::models::{AlbumId, AlbumRef, ArtistId, ArtistRef, ImageRef, Track, TrackId};
use canora::mpris::{
    absolute_seek_target, bus_status, loop_status, repeat_for, sanitise, BusStatus, LoopStatus,
    Property, Snapshot,
};
use canora::now_playing::{PanelSnapshot, PanelState};
use canora::playback::{Loudness, PlayStatus, PlaybackEvent};
use canora::queue::RepeatMode;

/// A length as the library keeps it, in milliseconds.
fn ms(length: Duration) -> u64 {
    length.as_millis() as u64
}

/// A track, for a test.
fn track() -> Track {
    Track {
        id: TrackId("abc123".to_owned()),
        name: "Blinding Lights".to_owned(),
        artists: vec![ArtistRef {
            id: ArtistId("art".to_owned()),
            name: "The Weeknd".to_owned(),
        }],
        album: Some(AlbumRef {
            id: AlbumId("alb".to_owned()),
            name: "After Hours".to_owned(),
            images: vec![ImageRef {
                url: "https://i.scdn.co/image/cover".to_owned(),
                width: Some(640),
                height: Some(640),
            }],
        }),
        duration_ms: ms(Duration::from_secs(200)),
        explicit: false,
        playable: true,
        track_number: 9,
    }
}

/// A track starting.
fn started(queue_len: usize) -> PlaybackEvent {
    PlaybackEvent::TrackStarted { track: track(), index: 0, queue_len }
}

#[test]
fn a_position_report_changes_no_property() {
    let mut snapshot = Snapshot::new();
    let changed = snapshot.apply(&PlaybackEvent::Moved { position_ms: ms(Duration::from_secs(3)) });

    assert!(changed.is_empty());
    assert_eq!(snapshot.position_ms, ms(Duration::from_secs(3)));
}

#[test]
fn a_new_track_changes_the_metadata() {
    let mut snapshot = Snapshot::new();
    let changed = snapshot.apply(&started(3));

    assert!(changed.iter().any(|property| matches!(property, Property::Metadata(_))));
    assert_eq!(snapshot.position_ms, 0);
}

#[test]
fn the_metadata_carries_what_a_desktop_shows() {
    let mut snapshot = Snapshot::new();
    snapshot.apply(&started(1));
    let metadata = snapshot.metadata().expect("a track plays");

    assert_eq!(metadata.title, "Blinding Lights");
    assert_eq!(metadata.album.as_deref(), Some("After Hours"));
    assert_eq!(metadata.length_us, 200_000_000);
    assert_eq!(
        metadata.art_url.as_deref(),
        Some("https://i.scdn.co/image/cover"),
        "the desktop shows the cover"
    );
    assert_eq!(metadata.object_path.as_deref(), Some("/dev/canora/track/abc123"));
    assert_eq!(metadata.artists, vec!["The Weeknd".to_owned()]);
}

#[test]
fn an_identifier_becomes_something_a_bus_accepts() {
    assert_eq!(sanitise("4uLU6hMCjMI75M1A2tKUQC"), "4uLU6hMCjMI75M1A2tKUQC");
    assert_eq!(sanitise("a-b.c"), "a_b_c");
}

#[test]
fn a_track_with_no_identifier_has_no_path() {
    let mut snapshot = Snapshot::new();
    let mut nameless = track();
    nameless.id = TrackId(String::new());
    snapshot.apply(&PlaybackEvent::TrackStarted { track: nameless, index: 0, queue_len: 1 });
    assert_eq!(snapshot.metadata().expect("a track plays").object_path, None);
    assert!(Snapshot::new().metadata().is_none());
}

#[test]
fn the_bus_hears_each_change_once() {
    let mut snapshot = Snapshot::new();
    assert_eq!(
        snapshot.apply(&PlaybackEvent::Paused { position_ms: 10 }),
        vec![Property::PlaybackStatus(BusStatus::Paused)]
    );
    assert_eq!(snapshot.apply(&PlaybackEvent::VolumeChanged { volume: Loudness::Level(9) }), vec![Property::Volume(Loudness::Level(9))]);
    assert_eq!(
        snapshot.apply(&PlaybackEvent::RepeatChanged(RepeatMode::All)),
        vec![Property::LoopStatus(LoopStatus::Playlist)]
    );
    assert_eq!(
        snapshot.apply(&PlaybackEvent::QueueChanged { upcoming: vec![track()] }),
        vec![Property::CanGoNext(true)]
    );
    assert!(snapshot.apply(&PlaybackEvent::Loading).is_empty());
    assert_eq!(snapshot.status, PlayStatus::Paused);
    assert!(snapshot.has_next);
}

#[test]
fn loading_shows_as_paused_and_repeat_maps_both_ways() {
    assert_eq!(bus_status(PlayStatus::Loading), BusStatus::Paused);
    assert_eq!(bus_status(PlayStatus::Playing), BusStatus::Playing);
    assert_eq!(bus_status(PlayStatus::Stopped), BusStatus::Stopped);
    for mode in [RepeatMode::Off, RepeatMode::All, RepeatMode::One] {
        assert_eq!(repeat_for(loop_status(mode)), mode);
    }
}

#[test]
fn a_seek_never_lands_before_the_start() {
    let mut snapshot = Snapshot::new();
    snapshot.apply(&PlaybackEvent::Playing { position_ms: 5_000 });
    assert_eq!(snapshot.seek_target(-10_000_000), 0);
    assert_eq!(snapshot.seek_target(2_000_000), 7_000);
    assert_eq!(absolute_seek_target(-1), 0);
    assert_eq!(absolute_seek_target(61_500_000), 61_500);
    assert!(snapshot.pause_toggles());
    assert!(!snapshot.play_toggles());
}

/// A snapshot with the track playing from the start.
fn playing() -> PanelSnapshot {
    let mut snapshot = PanelSnapshot::default();
    snapshot.apply(&started(3));
    snapshot.apply(&PlaybackEvent::Playing { position_ms: 0 });
    snapshot
}

#[test]
fn a_position_report_tells_the_system_nothing() {
    let mut snapshot = playing();
    let told = snapshot.apply(&PlaybackEvent::Moved { position_ms: ms(Duration::from_millis(500)) });

    assert!(!told);
    assert_eq!(snapshot.position_ms, ms(Duration::from_millis(500)));
}

#[test]
fn a_seek_does() {
    let mut snapshot = playing();
    let told = snapshot.apply(&PlaybackEvent::Moved { position_ms: ms(Duration::from_secs(60)) });

    assert!(told, "a jump of a minute is beyond the system's arithmetic");
    assert_eq!(snapshot.position_ms, ms(Duration::from_secs(60)));
}

#[test]
fn a_seek_backwards_does_too() {
    let mut snapshot = playing();
    snapshot.apply(&PlaybackEvent::Moved { position_ms: ms(Duration::from_secs(60)) });
    let told = snapshot.apply(&PlaybackEvent::Moved { position_ms: ms(Duration::from_secs(2)) });

    assert!(told);
}

#[test]
fn a_new_track_is_worth_telling() {
    let mut snapshot = PanelSnapshot::default();
    let told = snapshot.apply(&started(3));

    assert!(told);
    assert_eq!(snapshot.position_ms, 0);
}

#[test]
fn what_the_panel_shows() {
    let info = playing().published(None);

    assert_eq!(info.title.as_deref(), Some("Blinding Lights"));
    assert_eq!(info.artist, "The Weeknd");
    assert_eq!(info.album, "After Hours");
    assert_eq!(info.duration_ms, ms(Duration::from_secs(200)));
    assert!(info.bar_runs, "the bar runs while the track does");
}

#[test]
fn a_held_track_stops_the_bar() {
    let mut snapshot = playing();
    snapshot.apply(&PlaybackEvent::Paused { position_ms: ms(Duration::from_secs(30)) });
    let info = snapshot.published(None);

    assert!(!info.bar_runs);
    assert_eq!(info.elapsed_ms, ms(Duration::from_secs(30)));
    assert_eq!(info.state, PanelState::Paused);
}

#[test]
fn nothing_playing_carries_no_title() {
    let info = PanelSnapshot::default().published(None);

    assert!(info.title.is_none(), "the panel clears");
    assert_eq!(info.state, PanelState::Stopped);
}

#[test]
fn the_cover_is_the_one_the_panel_has_a_use_for() {
    assert_eq!(playing().cover(), Some("https://i.scdn.co/image/cover"));
}

#[test]
fn a_step_of_exactly_the_limit_is_not_a_seek() {
    let mut snapshot = playing();
    assert!(!snapshot.apply(&PlaybackEvent::Moved { position_ms: 1_500 }));
    assert!(snapshot.apply(&PlaybackEvent::Moved { position_ms: 3_001 }));
    let mut loading = playing();
    assert!(!loading.apply(&PlaybackEvent::Loading));
    assert_eq!(loading.published(Some(vec![1, 2])).state, PanelState::Paused);
    assert_eq!(loading.published(Some(vec![1, 2])).artwork, Some(vec![1, 2]));
}
