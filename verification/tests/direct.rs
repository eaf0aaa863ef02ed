use canora::direct::{
    arrange, cover, decode, hex, listing, width_of, Entry, FormatAttribute, ListAttributes,
    PictureSize,
};
use canora::models::{ImageRef, PlaylistId, TrackId};

/// The entries a list of URIs describes.
fn parse(uris: &[&str]) -> Vec<Entry> {
    arrange(uris)
}

#[test]
fn reads_a_folder_and_what_it_holds() {
    assert_eq!(
        parse(&[
            "spotify:start-group:abc:everynoise",
            "spotify:playlist:one",
            "spotify:playlist:two",
            "spotify:end-group:abc",
            "spotify:playlist:three",
        ]),
        vec![
            Entry::Folder {
                id: "abc".to_owned(),
                name: "everynoise".to_owned(),
                playlists: vec![PlaylistId("one".to_owned()), PlaylistId("two".to_owned())],
            },
            Entry::Playlist(PlaylistId("three".to_owned())),
        ]
    );
}

#[test]
fn a_library_with_no_folder_is_a_flat_list() {
    assert_eq!(
        parse(&["spotify:playlist:a", "spotify:playlist:b"]),
        vec![
            Entry::Playlist(PlaylistId("a".to_owned())),
            Entry::Playlist(PlaylistId("b".to_owned())),
        ]
    );
}

#[test]
fn a_folder_left_open_still_holds_what_was_read() {
    // A reply cut short mid-folder must not lose the playlists it did carry.
    assert_eq!(
        parse(&["spotify:start-group:abc:name", "spotify:playlist:one"]),
        vec![Entry::Folder {
            id: "abc".to_owned(),
            name: "name".to_owned(),
            playlists: vec![PlaylistId("one".to_owned())],
        }]
    );
}

#[test]
fn a_name_with_spaces_reads_back() {
    assert_eq!(decode("late+night"), "late night");
    assert_eq!(decode("caf%C3%A9"), "café");
    assert_eq!(decode("plain"), "plain");
}

#[test]
fn a_second_folder_closes_the_first() {
    let entries = parse(&[
        "spotify:start-group:a:one",
        "spotify:playlist:x",
        "spotify:start-group:b:two",
        "spotify:playlist:y",
        "spotify:end-group:b",
    ]);

    assert_eq!(entries.len(), 2);
    assert!(matches!(&entries[0], Entry::Folder { name, .. } if name == "one"));
    assert!(matches!(&entries[1], Entry::Folder { name, .. } if name == "two"));
}

#[test]
fn a_cover_identifier_becomes_an_address() {
    assert_eq!(hex(&[0xab, 0x67, 0x0f]), "ab670f");
}

#[test]
fn an_escape_cut_short_stays_as_it_is() {
    assert_eq!(decode("100%"), "100%");
    assert_eq!(decode("%4"), "%4");
    assert_eq!(decode("%zz"), "%zz");
    assert_eq!(decode("%41"), "A");
}

#[test]
fn a_folder_with_no_name_has_an_empty_one() {
    assert_eq!(
        parse(&["spotify:start-group:abc", "spotify:end-group:abc"]),
        vec![Entry::Folder { id: "abc".to_owned(), name: String::new(), playlists: Vec::new() }]
    );
}

#[test]
fn other_uris_are_passed_over() {
    assert_eq!(
        parse(&["spotify:track:t", "spotify:playlist:p"]),
        vec![Entry::Playlist(PlaylistId("p".to_owned()))]
    );
}

#[test]
fn named_sizes_have_widths() {
    assert_eq!(width_of("small"), Some(60));
    assert_eq!(width_of("default"), Some(300));
    assert_eq!(width_of("large"), Some(640));
    assert_eq!(width_of("xlarge"), Some(640));
    assert_eq!(width_of("huge"), None);
}

fn attributes() -> ListAttributes {
    ListAttributes {
        name: Some("Discover Weekly".to_owned()),
        description: None,
        picture: Some(vec![0xab, 0x01]),
        picture_size: Vec::new(),
        format_attributes: Vec::new(),
    }
}

#[test]
fn a_picture_identifier_is_the_cover_only_when_nothing_else_is() {
    assert_eq!(
        cover(&attributes()),
        vec![ImageRef { url: "https://i.scdn.co/image/ab01".to_owned(), width: None, height: None }]
    );

    let mut sized = attributes();
    sized.picture_size = vec![
        PictureSize { target_name: "large".to_owned(), url: Some("big".to_owned()) },
        PictureSize { target_name: "small".to_owned(), url: None },
    ];
    sized.format_attributes = vec![
        FormatAttribute { key: "other".to_owned(), value: "x".to_owned() },
        FormatAttribute { key: "image_url".to_owned(), value: "plain".to_owned() },
    ];
    assert_eq!(
        cover(&sized),
        vec![
            ImageRef { url: "big".to_owned(), width: Some(640), height: Some(640) },
            ImageRef { url: "plain".to_owned(), width: None, height: None },
        ]
    );
}

#[test]
fn a_listing_keeps_only_its_tracks() {
    let read = listing(
        Some(&attributes()),
        &["spotify:track:a", "spotify:episode:e", "spotify:track:b"],
    );
    assert_eq!(read.name, "Discover Weekly");
    assert_eq!(read.description, "");
    assert_eq!(read.tracks, vec![TrackId("a".to_owned()), TrackId("b".to_owned())]);
    assert_eq!(read.images.len(), 1);
}

#[test]
fn a_name_that_is_not_utf8_once_read_back_is_replaced() {
    assert_eq!(decode("a%FFb"), "a\u{FFFD}b");
}
