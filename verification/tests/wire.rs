use std::time::Duration;

use canora::models::{pick_image, ImageRef, PlaylistKind};
use canora::wire::{
    FullAlbum, FullArtist, FullTrack, Image, Owner, Paged, PlaylistItem, PrivateUser,
    SimpleAlbum, SimpleArtist, SimplePlaylist, TrackCount,
};

/// A track reply with only the fields a short reply carries.
fn full_track(id: Option<&str>, name: &str, duration_ms: u64) -> FullTrack {
    FullTrack {
        id: id.map(str::to_owned),
        name: name.to_owned(),
        artists: Vec::new(),
        album: None,
        duration_ms,
        explicit: false,
        is_playable: None,
        track_number: 0,
    }
}

#[test]
fn reads_a_track() {
    let wire = FullTrack {
        id: Some("4uLU6hMCjMI75M1A2tKUQC".to_owned()),
        name: "Never Gonna Give You Up".to_owned(),
        duration_ms: 213573,
        explicit: false,
        track_number: 1,
        artists: vec![SimpleArtist {
            id: Some("0gxyHStUsqpMadRV0Di1Qt".to_owned()),
            name: "Rick Astley".to_owned(),
        }],
        album: Some(SimpleAlbum {
            id: Some("6N9PS4QXF1D0OWPk0Sxtb4".to_owned()),
            name: "Whenever You Need Somebody".to_owned(),
            images: vec![Image {
                url: "https://i.scdn.co/image/ab1".to_owned(),
                width: Some(640),
                height: Some(640),
            }],
            release_date: None,
            total_tracks: 0,
            album_type: None,
            artists: Vec::new(),
        }),
        is_playable: None,
    };
    let track = wire.into_track().expect("track has an identifier");

    assert_eq!(track.name, "Never Gonna Give You Up");
    assert_eq!(track.artist_line(), "Rick Astley");
    assert_eq!(track.duration_ms, Duration::from_millis(213_573).as_millis() as u64);
    assert!(track.playable);
    assert_eq!(track.id.uri(), "spotify:track:4uLU6hMCjMI75M1A2tKUQC");
}

#[test]
fn drops_a_local_file() {
    // A local file carries no identifier and cannot be played from here.
    let wire = full_track(None, "Demo", 1000);
    assert!(wire.into_track().is_none());
}

/// The playlist reply the ownership test reads.
fn discover_weekly() -> SimplePlaylist {
    SimplePlaylist {
        id: Some("37i9dQZEVXcJZyENOWUFo7".to_owned()),
        name: "Discover Weekly".to_owned(),
        description: None,
        images: Vec::new(),
        owner: Some(Owner {
            id: Some("spotify".to_owned()),
            display_name: Some("Spotify".to_owned()),
        }),
        tracks: Some(TrackCount { total: 30 }),
        snapshot_id: Some("abc".to_owned()),
    }
}

#[test]
fn separates_an_owned_playlist_from_a_followed_one() {
    let playlist = discover_weekly()
        .into_playlist("leo")
        .expect("playlist has an identifier");

    assert!(!playlist.kind.is_editable());
    assert_eq!(playlist.total_tracks, 30);

    let mine = discover_weekly().into_playlist("spotify").expect("playlist parses");
    assert!(mine.kind.is_editable());
}

#[test]
fn counts_a_page_that_has_more() {
    let paged = Paged {
        items: vec![Some(full_track(Some("a"), "A", 1))],
        total: 40,
        offset: 0,
    };
    let page = paged.map_into(FullTrack::into_track);

    assert_eq!(page.items.len(), 1);
    assert!(page.has_more());
}

#[test]
fn a_page_pages_by_what_it_covered_rather_than_by_what_it_kept() {
    // A playlist of two tracks, one of them a local file: the page keeps one item and covers
    // both.
    let paged = Paged {
        items: vec![
            None,
            Some(PlaylistItem { item: Some(full_track(Some("a"), "A", 1)) }),
        ],
        total: 2,
        offset: 0,
    };
    let page = paged.map_into(|entry: PlaylistItem| entry.item.and_then(FullTrack::into_track));

    assert_eq!(page.items.len(), 1);
    assert_eq!(page.covered, 2);
    assert_eq!(page.next_offset(), 2);
    assert!(!page.has_more(), "two of two were read");
}

#[test]
fn a_page_that_covered_nothing_is_the_end() {
    let paged: Paged<FullTrack> = Paged { items: Vec::new(), total: 400, offset: 0 };
    let page = paged.map_into(FullTrack::into_track);

    assert_eq!(page.covered, 0);
    assert!(!page.has_more());
}

#[test]
fn skips_a_null_item() {
    // A playlist can hold an entry whose track Spotify no longer serves.
    let paged = Paged {
        items: vec![
            None,
            Some(PlaylistItem { item: Some(full_track(Some("a"), "A", 1)) }),
        ],
        total: 2,
        offset: 0,
    };
    let page = paged.map_into(PlaylistItem::into_track);

    assert_eq!(page.items.len(), 1);
}

#[test]
fn splits_an_album_and_puts_the_cover_on_its_tracks() {
    let mut track = full_track(Some("trk"), "Track", 1000);
    track.track_number = 1;
    let wire = FullAlbum {
        id: Some("alb".to_owned()),
        name: "Album".to_owned(),
        total_tracks: 1,
        album_type: Some("album".to_owned()),
        release_date: Some("1987-11-16".to_owned()),
        images: vec![Image { url: "cover".to_owned(), width: Some(640), height: Some(640) }],
        artists: vec![SimpleArtist { id: Some("art".to_owned()), name: "Artist".to_owned() }],
        tracks: Some(Paged { items: vec![Some(track)], total: 1, offset: 0 }),
    };
    let (album, tracks) = wire.split().expect("album has an identifier");

    assert_eq!(album.year, Some(1987));
    assert_eq!(tracks.len(), 1);
    let cover = tracks[0]
        .album
        .as_ref()
        .and_then(|album| pick_image(&album.images, 640))
        .map(|image| image.url.as_str());
    assert_eq!(
        cover,
        Some("cover"),
        "a track on an album page carries that album's cover"
    );
}

#[test]
fn a_release_kind_and_year_read_back() {
    let album = |kind: Option<&str>, date: Option<&str>| SimpleAlbum {
        id: Some("a".to_owned()),
        name: "A".to_owned(),
        images: Vec::new(),
        release_date: date.map(str::to_owned),
        total_tracks: 3,
        album_type: kind.map(str::to_owned),
        artists: vec![
            SimpleArtist { id: None, name: "nobody".to_owned() },
            SimpleArtist { id: Some("b".to_owned()), name: "B".to_owned() },
        ],
    };
    let single = album(Some("single"), Some("2020")).into_album().expect("has an identifier");
    assert_eq!(single.kind, canora::models::AlbumKind::Single);
    assert_eq!(single.year, Some(2020));
    assert_eq!(single.artists.len(), 1);

    let compilation = album(Some("compilation"), Some("19")).into_album().expect("has one");
    assert_eq!(compilation.kind, canora::models::AlbumKind::Compilation);
    assert_eq!(compilation.year, None);

    let plain = album(None, Some("+999-01-01")).into_album().expect("has one");
    assert_eq!(plain.kind, canora::models::AlbumKind::Album);
    assert_eq!(plain.year, Some(999));

    assert_eq!(album(None, Some("abcd")).into_album().map(|a| a.year), Some(None));
}

#[test]
fn an_owner_with_no_name_is_spotify() {
    let mut reply = discover_weekly();
    reply.owner = None;
    let playlist = reply.into_playlist("leo").expect("has an identifier");
    assert_eq!(playlist.kind, PlaylistKind::Followed { owner_name: "Spotify".to_owned() });
    assert_eq!(playlist.description, "");
}

#[test]
fn an_artist_reads_its_followers() {
    let artist = FullArtist {
        id: Some("x".to_owned()),
        name: "X".to_owned(),
        images: vec![Image { url: "u".to_owned(), width: None, height: None }],
        genres: vec!["pop".to_owned()],
        followers: Some(canora::wire::Followers { total: Some(12) }),
    }
    .into_artist()
    .expect("has an identifier");
    assert_eq!(artist.followers, Some(12));
    assert_eq!(artist.images, vec![ImageRef { url: "u".to_owned(), width: None, height: None }]);
}

#[test]
fn a_profile_without_a_name_shows_the_account() {
    let profile = PrivateUser {
        id: "leo".to_owned(),
        display_name: None,
        images: Vec::new(),
        product: None,
    }
    .into_profile();
    assert_eq!(profile.display_name, "leo");
    assert_eq!(profile.product, "");
}
