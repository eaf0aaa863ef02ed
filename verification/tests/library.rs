use canora::direct::Entry;
use canora::library::{plainly, Library, Link, StartFailure};
use canora::models::{LibraryNode, Playlist, PlaylistId, PlaylistKind, Track, TrackId};
use canora::playback::Connection;

/// A playlist this person owns, called `name`, with identifier `id`.
fn playlist(id: &str, name: &str) -> Playlist {
    Playlist {
        id: Some(PlaylistId(id.to_owned())),
        name: name.to_owned(),
        kind: PlaylistKind::Owned,
        description: String::new(),
        images: Vec::new(),
        total_tracks: 3,
        snapshot_id: None,
    }
}

/// A track called `name`.
fn track(name: &str) -> Track {
    Track {
        id: TrackId(name.to_owned()),
        name: name.to_owned(),
        artists: Vec::new(),
        album: None,
        duration_ms: 1000,
        explicit: false,
        playable: true,
        track_number: 1,
    }
}

/// The names in a row of the sidebar.
fn names(node: &LibraryNode) -> String {
    match node {
        LibraryNode::Playlist(p) => p.name.clone(),
        LibraryNode::Folder { name, playlists, .. } => format!(
            "{name}[{}]",
            playlists.iter().map(|p| p.name.as_str()).collect::<Vec<_>>().join(",")
        ),
    }
}

#[test]
fn with_no_arrangement_the_sidebar_is_the_list() {
    let mut library = Library::new();
    library.playlists = vec![playlist("a", "A"), playlist("b", "B")];
    let rows: Vec<String> = library.library().iter().map(names).collect();
    assert_eq!(rows, vec!["A", "B"]);
}

#[test]
fn folders_hold_what_the_arrangement_puts_in_them_and_the_rest_follows() {
    let mut library = Library::new();
    library.playlists = vec![playlist("a", "A"), playlist("b", "B"), playlist("c", "C"), playlist("d", "D")];
    library.layout = vec![
        Entry::Playlist(PlaylistId("c".to_owned())),
        Entry::Folder {
            id: "f".to_owned(),
            name: "Mixes".to_owned(),
            playlists: vec![PlaylistId("a".to_owned()), PlaylistId("gone".to_owned())],
        },
        Entry::Folder { id: "e".to_owned(), name: "Empty".to_owned(), playlists: vec![PlaylistId("gone".to_owned())] },
    ];
    let rows: Vec<String> = library.library().iter().map(names).collect();
    assert_eq!(rows, vec!["C", "Mixes[A]", "B", "D"]);
}

#[test]
fn a_like_answers_at_once_and_a_refusal_puts_it_back() {
    let mut library = Library::new();
    let id = TrackId("t".to_owned());
    library.set_liked(id.clone(), true);
    assert!(library.is_liked(&id));
    assert_eq!(library.liked_total, 1);
    library.like_refused(&id, true);
    assert!(!library.is_liked(&id));
    assert_eq!(library.liked_total, 0);
    // Unsaving at nothing stays at nothing.
    library.set_liked(id.clone(), false);
    assert_eq!(library.liked_total, 0);
}

#[test]
fn each_row_is_asked_about_once() {
    let mut library = Library::new();
    let tracks = vec![track("a"), track("b")];
    let wanted = library.load_liked_for(&tracks);
    assert_eq!(wanted.len(), 2);
    assert!(library.load_liked_for(&tracks).is_empty());
    library.liked_answers(&wanted, &[true, false]);
    assert!(library.is_liked(&TrackId("a".to_owned())));
    assert!(!library.is_liked(&TrackId("b".to_owned())));
    library.liked_unanswered(&wanted);
    assert_eq!(library.load_liked_for(&tracks).len(), 2, "asked again after a failure");
}

#[test]
fn folders_open_and_close() {
    let mut library = Library::new();
    library.toggle_folder("f");
    assert!(library.open_folders.has_text("f"));
    library.toggle_folder("f");
    assert!(!library.open_folders.has_text("f"));
}

#[test]
fn the_made_playlists_are_the_ones_the_arrangement_names_and_the_list_lacks() {
    let mut library = Library::new();
    library.playlists = vec![playlist("a", "A")];
    library.layout = vec![
        Entry::Playlist(PlaylistId("a".to_owned())),
        Entry::Folder {
            id: "f".to_owned(),
            name: "F".to_owned(),
            playlists: vec![PlaylistId("dw".to_owned()), PlaylistId("rr".to_owned())],
        },
    ];
    let missing: Vec<String> = library.missing_made().into_iter().map(|id| id.0).collect();
    assert_eq!(missing, vec!["dw", "rr"]);
    assert!(library.made_found(vec![playlist("dw", "Discover Weekly")]));
    assert!(!library.made_found(Vec::new()));
    assert_eq!(library.missing_made().len(), 1);
}

#[test]
fn edits_show_at_once() {
    let mut library = Library::new();
    library.playlists = vec![playlist("a", "A"), playlist("b", "B")];
    library.tracks = vec![track("x"), track("y"), track("x")];
    library.track_added(&PlaylistId("b".to_owned()));
    assert_eq!(library.playlists[1].total_tracks, 4);
    library.track_removed(&PlaylistId("a".to_owned()), &TrackId("x".to_owned()));
    assert_eq!(library.playlists[0].total_tracks, 2);
    assert_eq!(library.tracks.len(), 1);
    library.rename_playlist(&PlaylistId("a".to_owned()), "Renamed");
    assert_eq!(library.known_playlist(&PlaylistId("a".to_owned())).map(|p| p.name), Some("Renamed".to_owned()));
    library.playlist_deleted(&PlaylistId("a".to_owned()));
    assert!(library.known_playlist(&PlaylistId("a".to_owned())).is_none());
    assert_eq!(library.playlist_created(playlist("n", "New")), Some(PlaylistId("n".to_owned())));
    assert_eq!(library.playlists[0].name, "New");
}

#[test]
fn one_connection_attempt_at_a_time() {
    let mut library = Library::new();
    assert!(library.begin_link());
    assert!(!library.begin_link());
    library.link_failed(StartFailure::Auth);
    assert_eq!(library.link, Link::Broken("Cannot sign in".to_owned()));
    assert!(library.begin_link());
    library.linked("Ann".to_owned());
    assert_eq!(library.link, Link::Live);
    assert_eq!(library.who, "Ann");
    library.connection(Connection::Lost);
    assert_eq!(library.link, Link::Broken("The connection to Spotify went".to_owned()));
    assert_eq!(plainly(StartFailure::Other("disk".to_owned())), "disk");
    assert_eq!(plainly(StartFailure::Api), "Spotify is not answering");
}

#[test]
fn a_recent_library_is_left_alone() {
    let mut library = Library::new();
    let plan = library.refresh_plan(true);
    assert!(plan.playlists && plan.layout, "an empty sidebar is read whatever the clock says");
    library.playlists = vec![playlist("a", "A")];
    let plan = library.refresh_plan(true);
    assert!(!plan.playlists && plan.layout);
    library.layout = vec![Entry::Playlist(PlaylistId("a".to_owned()))];
    let plan = library.refresh_plan(true);
    assert!(!plan.playlists && !plan.layout);
    assert!(library.refresh_plan(false).playlists);
}

#[test]
fn the_cache_fills_the_window() {
    let mut library = Library::new();
    library.show_cached(
        Some("Ann".to_owned()),
        vec![playlist("a", "A")],
        vec![Entry::Playlist(PlaylistId("a".to_owned()))],
        vec![TrackId("t".to_owned()), TrackId("u".to_owned())],
    );
    assert_eq!(library.who, "Ann");
    assert_eq!(library.playlists.len(), 1);
    assert_eq!(library.layout.len(), 1);
    assert_eq!(library.liked_total, 2);
    assert!(library.is_liked(&TrackId("u".to_owned())));
    assert!(library.begin_sync());
    assert!(!library.begin_sync());
    library.sync_done();
    assert!(!library.syncing);
    assert!(!library.take_layout(Vec::new()));
}
