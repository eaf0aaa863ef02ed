use canora::models::{
    pick_image, ArtistId, ArtistRef, ImageRef, Page, PlaylistKind, SearchResults, Track, TrackId,
};

#[test]
fn picks_the_nearest_picture() {
    let images = vec![
        ImageRef { url: "big".to_owned(), width: Some(640), height: Some(640) },
        ImageRef { url: "small".to_owned(), width: Some(64), height: Some(64) },
        ImageRef { url: "mid".to_owned(), width: Some(300), height: Some(300) },
    ];
    assert_eq!(pick_image(&images, 300).map(|it| it.url.as_str()), Some("mid"));
    assert_eq!(pick_image(&images, 640).map(|it| it.url.as_str()), Some("big"));
    assert_eq!(pick_image(&images, 50).map(|it| it.url.as_str()), Some("small"));
}

#[test]
fn a_picture_with_no_width_counts_as_a_large_one_and_ties_go_first() {
    let images = vec![
        ImageRef { url: "unsized".to_owned(), width: None, height: None },
        ImageRef { url: "also".to_owned(), width: Some(640), height: None },
    ];
    assert_eq!(pick_image(&images, 600).map(|it| it.url.as_str()), Some("unsized"));
    assert!(pick_image(&[], 10).is_none());
}

#[test]
fn every_artist_in_one_line() {
    let track = Track {
        id: TrackId("t".to_owned()),
        name: "T".to_owned(),
        artists: vec![
            ArtistRef { id: ArtistId("a".to_owned()), name: "Ann".to_owned() },
            ArtistRef { id: ArtistId("b".to_owned()), name: "Bo".to_owned() },
        ],
        album: None,
        duration_ms: 1,
        explicit: false,
        playable: true,
        track_number: 1,
    };
    assert_eq!(track.artist_line(), "Ann, Bo");
    assert_eq!(track.id.uri(), "spotify:track:t");
}

#[test]
fn only_an_owned_playlist_is_editable() {
    assert!(PlaylistKind::Owned.is_editable());
    assert!(!PlaylistKind::Liked.is_editable());
    assert!(!PlaylistKind::Followed { owner_name: "x".to_owned() }.is_editable());
}

#[test]
fn a_page_holds_its_offset_at_the_top() {
    let page: Page<u8> = Page { items: Vec::new(), total: u32::MAX, offset: u32::MAX - 1, whole: true, covered: 5 };
    assert_eq!(page.next_offset(), u32::MAX);
    assert!(!page.has_more());
}

#[test]
fn an_empty_search_is_empty() {
    let results = SearchResults { tracks: Vec::new(), artists: Vec::new(), albums: Vec::new(), playlists: Vec::new() };
    assert!(results.is_empty());
}
