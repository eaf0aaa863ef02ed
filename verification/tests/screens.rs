use canora::auth::AuthPhase;
use canora::library::Link;
use canora::models::{Album, AlbumId, AlbumKind, ArtistId, ArtistRef, Playlist, PlaylistId, PlaylistKind, Track, TrackId};
use canora::playback::{Loudness, PlayStatus, PlaybackState, Playing};
use canora::queue::{PlayContext, RepeatMode};
use canora::screens::{
    account_name, album_card, album_line, bar_album, bar_artist, bar_lines, contains_text,
    describe, editable, folder_label, goes_to_search, kind_line, link_mark, list_body,
    list_summary, liked_count, playlist_cards, queue_line, queue_rows, radio_kind, radio_seed,
    radio_title, releases_line, repeat_lit, repeats_one, row_text, search_for, search_screen,
    shows_pause, side_link, start_failure, still_asked, track_menu, volume_mark, wanted_name, welcome_note,
    ListBody, SearchScreen, Stage, VolumeMark,
};

/// An artist called `name`.
fn artist(name: &str) -> ArtistRef {
    ArtistRef { id: ArtistId(name.to_lowercase()), name: name.to_owned() }
}

/// A track called `name` by `artists`.
fn track(name: &str, artists: &[&str]) -> Track {
    Track {
        id: TrackId(name.to_lowercase()),
        name: name.to_owned(),
        artists: artists.iter().map(|a| artist(a)).collect(),
        album: None,
        duration_ms: 200_000,
        explicit: false,
        playable: true,
        track_number: 7,
    }
}

/// A playlist.
fn playlist(id: Option<&str>, name: &str, kind: PlaylistKind) -> Playlist {
    Playlist {
        id: id.map(|i| PlaylistId(i.to_owned())),
        name: name.to_owned(),
        kind,
        description: String::new(),
        images: Vec::new(),
        total_tracks: 0,
        snapshot_id: None,
    }
}

#[test]
fn a_row_says_its_number_its_name_and_its_length() {
    let row = row_text(&track("Song", &["Ann"]), 4, false);
    assert_eq!(row.number, "5");
    assert_eq!(row.title, "Song");
    assert_eq!(row.artists, "Ann");
    assert_eq!(row.length, "3:20");
    assert_eq!(row.lone_artist, Some(ArtistId("ann".to_owned())));
    let on_album = row_text(&track("Song", &["Ann", "Bo"]), 4, true);
    assert_eq!(on_album.number, "7");
    assert_eq!(on_album.artists, "Ann, Bo");
    assert_eq!(on_album.lone_artist, None, "which of two a click meant would be a guess");
}

#[test]
fn a_menu_offers_what_this_person_owns() {
    let playlists = vec![
        playlist(Some("mine"), "Mine", PlaylistKind::Owned),
        playlist(Some("theirs"), "Theirs", PlaylistKind::Followed { owner_name: "Bo".to_owned() }),
        playlist(None, "Nameless", PlaylistKind::Owned),
    ];
    let t = track("Song", &["Ann", "Bo"]);
    let menu = track_menu(&t, &PlayContext::Playlist(PlaylistId("mine".to_owned())), &playlists);
    assert_eq!(menu.add_to, vec![(PlaylistId("mine".to_owned()), "Mine".to_owned())]);
    assert_eq!(menu.remove_from, Some(PlaylistId("mine".to_owned())));
    assert_eq!(menu.artist, Some(ArtistId("ann".to_owned())));
    assert_eq!(menu.album, None);
    let from_theirs = track_menu(&t, &PlayContext::Playlist(PlaylistId("theirs".to_owned())), &playlists);
    assert_eq!(from_theirs.remove_from, None);
    assert_eq!(track_menu(&t, &PlayContext::Liked, &playlists).remove_from, None);
}

#[test]
fn the_bar_shows_what_plays() {
    let playing = Playing { track: track("Song", &["Ann"]), index: 1, queue_len: 4 };
    assert_eq!(bar_lines(Some(&playing)), ("Song".to_owned(), "Ann".to_owned()));
    assert_eq!(bar_lines(None), (String::new(), String::new()));
    assert_eq!(bar_artist(Some(&playing)), Some(ArtistId("ann".to_owned())));
    assert_eq!(bar_album(Some(&playing)), None);
    assert_eq!(queue_line(Some(&playing)), "2 of 4");
    assert_eq!(queue_line(None), "");
    assert!(shows_pause(PlayStatus::Playing));
    assert!(!shows_pause(PlayStatus::Loading));
}

#[test]
fn the_volume_mark_follows_the_level() {
    let level = |l: u16| volume_mark(Loudness::Level(l));
    assert_eq!(level(0), VolumeMark::Mute);
    assert_eq!(level(65), VolumeMark::Mute);
    assert_eq!(level(66), VolumeMark::Low);
    assert_eq!(level(32767), VolumeMark::Low);
    assert_eq!(level(32768), VolumeMark::High);
    assert_eq!(level(u16::MAX), VolumeMark::High);
}

#[test]
fn the_volume_mark_reads_the_slider_as_it_was_set() {
    let set = |v: f64| volume_mark(Loudness::Slider(v.to_bits()));
    assert_eq!(set(0.0), VolumeMark::Mute);
    assert_eq!(set(-0.0), VolumeMark::Mute);
    assert_eq!(set(0.001), VolumeMark::Mute);
    assert_eq!(set(0.0011), VolumeMark::Low);
    assert_eq!(set(0.4999), VolumeMark::Low);
    assert_eq!(set(0.5), VolumeMark::High);
    assert_eq!(set(0.500001), VolumeMark::High, "a slider just past half shows loud");
    assert_eq!(set(1.0), VolumeMark::High);
    assert_eq!(set(f64::NAN), VolumeMark::High);
    assert_eq!(volume_mark(PlaybackState::new().volume), VolumeMark::High, "the start is half way");
}

#[test]
fn headers_say_what_they_show() {
    let album = Album {
        id: AlbumId("a".to_owned()),
        name: "Bad".to_owned(),
        artists: vec![artist("Ann"), artist("Bo")],
        images: Vec::new(),
        year: Some(1987),
        total_tracks: 10,
        kind: AlbumKind::Album,
    };
    assert_eq!(album_line(Some(&album)), "Album \u{b7} Ann, Bo \u{b7} 1987");
    assert_eq!(album_line(None), "");
    assert_eq!(album_card(&album).note, "1987");
    let followed = playlist(Some("p"), "P", PlaylistKind::Followed { owner_name: "Spotify".to_owned() });
    assert_eq!(kind_line(Some(&followed)), "Playlist \u{b7} Spotify");
    assert_eq!(kind_line(None), "Playlist");
    assert!(!editable(Some(&followed)));
    let t = track("Song", &["Ann"]);
    assert_eq!(radio_title(Some(&t)), "Song Radio");
    assert_eq!(radio_title(None), "Radio");
    assert_eq!(radio_kind(Some(&t)), "Station \u{b7} Ann");
    assert_eq!(releases_line(0), "");
    assert_eq!(releases_line(1), "1 release");
    assert_eq!(releases_line(12), "12 releases");
    assert_eq!(radio_seed(&[t.clone()]), Some(t.id.clone()));
    assert_eq!(radio_seed(&[]), None);
    assert_eq!(list_summary(&[t.clone(), t]), "2 songs \u{b7} 6 min");
}

#[test]
fn search_asks_for_what_the_field_holds() {
    assert_eq!(search_for("  rain  "), Some("rain".to_owned()));
    assert_eq!(search_for(" \t"), None);
    assert!(still_asked(" rain", "rain"));
    assert!(!still_asked("rainy", "rain"));
    assert_eq!(search_screen("", true, true), SearchScreen::Prompt);
    assert_eq!(search_screen("x", true, true), SearchScreen::Waiting);
    assert_eq!(search_screen("x", true, false), SearchScreen::NothingFound);
    assert_eq!(search_screen("x", false, false), SearchScreen::Results);
    assert!(goes_to_search("x", false));
    assert!(!goes_to_search("x", true));
    assert!(!goes_to_search(" ", false));
}

#[test]
fn the_sidebar_and_the_panels() {
    assert_eq!(liked_count(0), "");
    assert_eq!(liked_count(42), "42");
    assert_eq!(folder_label("Mixes", 3), ("Mixes".to_owned(), "3".to_owned()));
    let mine = playlist(Some("m"), "Mine", PlaylistKind::Owned);
    let link = side_link(&mine, true).expect("a playlist with an identifier has a row");
    assert!(link.owned);
    assert!(side_link(&playlist(None, "x", PlaylistKind::Owned), false).is_none());
    let cards = playlist_cards(&[mine, playlist(None, "x", PlaylistKind::Owned)]);
    assert_eq!(cards.len(), 1);
    assert_eq!(cards[0].1.note, "Playlist");
    let many: Vec<Track> = (0..60).map(|i| track(&i.to_string(), &[])).collect();
    assert_eq!(queue_rows(&many).len(), 50);
    assert_eq!(list_body(false, true), ListBody::Waiting);
    assert_eq!(list_body(false, false), ListBody::Empty);
    assert_eq!(list_body(true, true), ListBody::Tracks);
}

#[test]
fn the_welcome_screen_and_the_header_explain_themselves() {
    assert_eq!(describe(&AuthPhase::Connecting), "Connecting to Spotify\u{2026}");
    assert_eq!(welcome_note(&Stage::Working(AuthPhase::Ready)), "Connected.");
    assert_eq!(welcome_note(&Stage::Failed("no".to_owned())), "no");
    assert_eq!(welcome_note(&Stage::Waiting), "");
    assert!(Stage::Working(AuthPhase::CheckingCache).busy());
    assert!(!Stage::Ready(true).busy());
    assert_eq!(
        start_failure("browser login failed: Auth code param not found", true),
        "Spotify gave no code back. The login was refused or closed early."
    );
    assert_eq!(start_failure("x", true), "Cannot sign in. x");
    assert_eq!(start_failure("x", false), "x");
    assert!(contains_text("abc", "bc"));
    assert!(contains_text("abc", ""));
    assert!(!contains_text("ab", "abc"));
    assert_eq!(link_mark(&Link::Broken("Gone".to_owned())), Some("Gone. Press to try again.".to_owned()));
    assert_eq!(link_mark(&Link::Live), None);
    assert_eq!(account_name(""), "Account");
    assert_eq!(account_name("Ann"), "Ann");
}

#[test]
fn a_name_is_taken_without_its_spaces_and_not_when_blank() {
    assert_eq!(wanted_name("  Road trip \n"), Some("Road trip".to_owned()));
    assert_eq!(wanted_name("Mix"), Some("Mix".to_owned()));
    assert_eq!(wanted_name("   "), None);
    assert_eq!(wanted_name(""), None);
}
