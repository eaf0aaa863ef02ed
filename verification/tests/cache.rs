use canora::cache::{
    list_from_rows, list_rows,
    artists_from, artists_to, images_from, images_to, known_track_from_row, layout_from_rows,
    layout_rows, playlist_from_row, playlist_rows, profile_from_row, profile_row, read_within,
    track_from_row, track_row, ListKey,
};
use canora::direct::Entry;
use canora::models::{
    AlbumId, AlbumRef, ArtistId, ArtistRef, ImageRef, Playlist, PlaylistId, PlaylistKind, Track,
    TrackId, UserId, UserProfile,
};

/// A track called `name`, for a test.
fn track(name: &str) -> Track {
    Track {
        id: TrackId(name.to_owned()),
        name: name.to_owned(),
        artists: vec![ArtistRef { id: ArtistId("art".to_owned()), name: "Artist".to_owned() }],
        album: Some(AlbumRef {
            id: AlbumId("alb".to_owned()),
            name: "Album".to_owned(),
            images: vec![ImageRef { url: "cover".to_owned(), width: Some(64), height: Some(64) }],
        }),
        duration_ms: 180_000,
        explicit: false,
        playable: true,
        track_number: 1,
    }
}

/// A playlist.
fn playlist(id: Option<&str>, name: &str, kind: PlaylistKind) -> Playlist {
    Playlist {
        id: id.map(|i| PlaylistId(i.to_owned())),
        name: name.to_owned(),
        kind,
        description: "d".to_owned(),
        images: vec![ImageRef { url: "u".to_owned(), width: None, height: Some(3) }],
        total_tracks: 9,
        snapshot_id: Some("s".to_owned()),
    }
}

#[test]
fn keeps_playlists_in_order() {
    let playlists = vec![
        playlist(Some("one"), "One", PlaylistKind::Owned),
        playlist(None, "Liked", PlaylistKind::Liked),
        playlist(Some("two"), "Two", PlaylistKind::Followed { owner_name: "Spotify".to_owned() }),
    ];
    let rows = playlist_rows(&playlists);
    assert_eq!(rows.len(), 2);
    assert_eq!(rows[1].position, 2, "a row keeps its place in the whole list");
    let back: Vec<Playlist> = rows.into_iter().map(playlist_from_row).collect();
    assert_eq!(back[0], playlists[0]);
    assert_eq!(back[1], playlists[2], "a followed playlist stays read-only");
}

#[test]
fn keeps_tracks_with_their_album() {
    let t = track("a");
    assert_eq!(track_from_row(track_row(&t)), t, "a cover survives the round trip");
    assert_eq!(known_track_from_row(track_row(&t)), t);
    let mut local = track("b");
    local.album = None;
    let row = track_row(&local);
    assert_eq!(row.album_images, "[]");
    assert_eq!(track_from_row(row), local);
}

#[test]
fn a_stored_length_out_of_range_reads_by_the_reader() {
    let mut row = track_row(&track("a"));
    row.duration_ms = -1;
    row.track_number = -1;
    assert_eq!(known_track_from_row(track_row(&track("a"))).duration_ms, 180_000);
    let mut other = track_row(&track("a"));
    other.duration_ms = -1;
    other.track_number = -1;
    assert_eq!(known_track_from_row(row).duration_ms, 0);
    assert_eq!(track_from_row(other).duration_ms, u64::MAX);
}

#[test]
fn keeps_the_arrangement() {
    let entries = vec![
        Entry::Playlist(PlaylistId("a".to_owned())),
        Entry::Folder {
            id: "f".to_owned(),
            name: "Mixes".to_owned(),
            playlists: vec![PlaylistId("b".to_owned()), PlaylistId("c".to_owned())],
        },
        Entry::Folder { id: "f".to_owned(), name: "Again".to_owned(), playlists: Vec::new() },
        Entry::Playlist(PlaylistId("d".to_owned())),
    ];
    let rows = layout_rows(&entries);
    assert_eq!(rows.len(), 6);
    assert_eq!(rows.iter().map(|r| r.position).collect::<Vec<_>>(), vec![0, 1, 2, 3, 4, 5]);
    assert_eq!(rows[2].folder_id.as_deref(), Some("f"));
    assert_eq!((rows[0].kind.as_str(), rows[0].name.as_str(), rows[0].folder_id.as_deref()), ("playlist", "", None));
    assert_eq!((rows[1].kind.as_str(), rows[1].name.as_str(), rows[1].folder_id.as_deref()), ("folder", "Mixes", None));
    assert_eq!((rows[2].kind.as_str(), rows[2].name.as_str()), ("playlist", ""));
    assert_eq!(layout_from_rows(&rows), entries);
}

#[test]
fn pictures_and_artists_round_trip_through_their_columns() {
    let images = vec![
        ImageRef { url: "a".to_owned(), width: Some(1), height: None },
        ImageRef { url: "b\"c".to_owned(), width: None, height: Some(2) },
    ];
    let text = images_to(&images);
    assert_eq!(text, r#"[["a",1,null],["b\"c",null,2]]"#);
    assert_eq!(images_from(&text), images);
    assert!(images_from("not json").is_empty());
    let artists = vec![ArtistRef { id: ArtistId("x".to_owned()), name: "X".to_owned() }];
    assert_eq!(artists_to(&artists), r#"[["x","X"]]"#);
    assert_eq!(artists_from(&artists_to(&artists)), artists);
}

#[test]
fn a_list_is_filed_under_its_own_name() {
    assert_eq!(ListKey::Liked.as_str(), "~liked");
    assert_eq!(ListKey::Playlist("p".to_owned()).as_str(), "p");
    assert_eq!(ListKey::Album("a".to_owned()).as_str(), "album:a");
}

#[test]
fn a_reading_is_recent_for_fifteen_minutes() {
    assert!(read_within(1_000, Some(1_000), 900));
    assert!(read_within(1_899, Some(1_000), 900));
    assert!(!read_within(1_900, Some(1_000), 900));
    assert!(!read_within(999, Some(1_000), 900), "a reading from the future is not trusted");
    assert!(!read_within(1_000, None, 900));
}

#[test]
fn keeps_the_account() {
    let me = UserProfile {
        id: UserId("me".to_owned()),
        display_name: "Me".to_owned(),
        images: Vec::new(),
        product: "premium".to_owned(),
    };
    assert_eq!(profile_from_row(profile_row(&me)), me);
}

#[test]
fn keeps_tracks_in_order_with_their_album() {
    let tracks = vec![track("a"), track("b"), track("c")];
    let rows: Vec<_> = tracks.iter().map(track_row).collect();
    let read: Vec<Track> = rows.into_iter().map(track_from_row).collect();
    let names: Vec<_> = read.iter().map(|it| it.name.as_str()).collect();
    assert_eq!(names, vec!["a", "b", "c"]);
    assert_eq!(read[0].artist_line(), "Artist");
    assert_eq!(read[0].album.as_ref().map(|it| it.images.len()), Some(1), "a cover survives the round trip");
}

#[test]
fn a_list_reads_back_in_order_and_apart_from_other_lists() {
    let one = ListKey::Playlist("one".to_owned());
    let two = ListKey::Playlist("two".to_owned());
    let tracks = vec![track("a"), track("b"), track("c")];
    let mut rows = list_rows(&one, &tracks);
    assert_eq!(rows.iter().map(|r| r.position).collect::<Vec<_>>(), vec![0, 1, 2]);
    assert!(rows.iter().all(|r| r.list == "one"));
    rows.extend(list_rows(&two, &[track("d")]));
    let stored: Vec<_> = tracks.iter().chain([track("d")].iter()).map(track_row).collect();
    assert_eq!(list_from_rows(&one, &rows, &stored), tracks);
    assert_eq!(list_from_rows(&two, &rows, &stored), vec![track("d")]);
    assert_eq!(list_from_rows(&ListKey::Liked, &rows, &stored), Vec::new());
}
