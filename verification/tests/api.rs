use canora::api::{
    after_recommendations, collect_track_ids, in_order, join_uris, made_range, method_named,
    parse_u64, reply_for, reply_text, retry_after_s, seed_first, spotify_message, station_ids,
    tally, track_id_from_uri, uri_list, wanted_ids, ApiError, Json, Method, RadioNext, SendStep,
    Sending, TrackReply, top_tracks_after, after_playlist, PlaylistNext, add_body, remove_body, created_body, renamed_body, reorder_body,
};
use canora::models::{Track, TrackId};
use canora::models::PlaylistKind;
use canora::wire::{FullTrack, Owner, SimplePlaylist, TopTracks};

/// A track called `name`, for a test.
fn track(name: &str) -> Track {
    Track {
        id: TrackId(name.to_owned()),
        name: name.to_owned(),
        artists: Vec::new(),
        album: None,
        duration_ms: 1000,
        explicit: false,
        playable: true,
        track_number: 1,
    }
}

/// A text, in a document.
fn text(t: &str) -> Json {
    Json::Text(t.to_owned())
}

/// An object with one entry.
fn object(entries: Vec<(&str, Json)>) -> Json {
    Json::Object(entries.into_iter().map(|(k, v)| (k.to_owned(), v)).collect())
}

#[test]
fn takes_every_track_uri_once_and_in_order() {
    // The keys come in the order the reader gives them; this is the sorted order.
    let value = object(vec![
        (
            "mediaItems",
            Json::List(vec![
                object(vec![("uri", text("spotify:track:aaa"))]),
                object(vec![("uri", text("spotify:track:bbb"))]),
                object(vec![("uri", text("spotify:album:zzz"))]),
                object(vec![("uri", text("spotify:track:aaa"))]),
            ]),
        ),
        ("seed", text("spotify:track:seed")),
    ]);
    let mut ids = Vec::new();
    collect_track_ids(&value, &mut ids);

    assert_eq!(
        ids,
        vec![
            TrackId("aaa".to_owned()),
            TrackId("bbb".to_owned()),
            TrackId("seed".to_owned())
        ]
    );
}

#[test]
fn a_track_uri_needs_an_identifier() {
    assert_eq!(track_id_from_uri("spotify:track:abc"), Some(TrackId("abc".to_owned())));
    assert_eq!(track_id_from_uri("spotify:track:"), None);
    assert_eq!(track_id_from_uri("spotify:album:abc"), None);
    assert_eq!(track_id_from_uri(""), None);
}

#[test]
fn a_station_leaves_out_its_seed_repeats_and_overflow() {
    let ids: Vec<TrackId> = ["a", "seed", "a", "b", "b", "a"]
        .iter()
        .map(|s| TrackId((*s).to_owned()))
        .collect();
    let station = station_ids(ids, &TrackId("seed".to_owned()));
    let names: Vec<&str> = station.iter().map(|id| id.0.as_str()).collect();
    // A run broken only by the seed is one run once the seed is gone.
    assert_eq!(names, vec!["a", "b", "a"]);

    let many: Vec<TrackId> = (0..80).map(|i| TrackId(i.to_string())).collect();
    assert_eq!(station_ids(many, &TrackId("x".to_owned())).len(), 50);
}

#[test]
fn a_station_opens_with_its_seed() {
    let seed = TrackId("s".to_owned());
    let queue = seed_first(vec![track("s")], vec![track("a"), track("s"), track("b")], &seed);
    let names: Vec<&str> = queue.iter().map(|t| t.name.as_str()).collect();
    assert_eq!(names, vec!["s", "a", "b"]);
    let unread = seed_first(Vec::new(), vec![track("a"), track("s")], &seed);
    assert_eq!(unread.len(), 1);
}

#[test]
fn recommendations_fall_back_to_the_session() {
    assert!(matches!(after_recommendations(Ok(vec![track("a")])), RadioNext::Use(t) if t.len() == 1));
    assert!(matches!(after_recommendations(Ok(Vec::new())), RadioNext::AskSession));
    assert!(matches!(after_recommendations(Err(ApiError::NotFound)), RadioNext::AskSession));
    assert!(matches!(
        after_recommendations(Err(ApiError::Status { status: 400, message: "x".to_owned() })),
        RadioNext::AskSession
    ));
    assert!(matches!(
        after_recommendations(Err(ApiError::Status { status: 500, message: "x".to_owned() })),
        RadioNext::Fail(_)
    ));
}

#[test]
fn uris_join_with_commas() {
    let ids = vec![TrackId("a".to_owned()), TrackId("b".to_owned())];
    assert_eq!(join_uris(&ids), "spotify:track:a,spotify:track:b");
    assert_eq!(join_uris(&[]), "");
    assert_eq!(uri_list(&ids), vec!["spotify:track:a".to_owned(), "spotify:track:b".to_owned()]);
}

#[test]
fn a_method_by_name() {
    assert_eq!(method_named("PUT"), Method::Put);
    assert_eq!(method_named("POST"), Method::Post);
    assert_eq!(method_named("DELETE"), Method::Delete);
    assert_eq!(method_named("put"), Method::Get);
}

#[test]
fn errors_say_what_they_are() {
    assert_eq!(ApiError::Forbidden { reason: String::new() }.describe(), "not allowed");
    assert_eq!(ApiError::Forbidden { reason: "no".to_owned() }.describe(), "not allowed: no");
    assert_eq!(
        ApiError::Status { status: 502, message: "bad".to_owned() }.describe(),
        "Spotify said 502: bad"
    );
    assert!(ApiError::NotFound.is_hidden());
    assert!(ApiError::Forbidden { reason: String::new() }.is_forbidden());
    assert!(!ApiError::RateLimited { retry_after_s: None }.is_hidden());
}

#[test]
fn a_wait_is_read_as_the_standard_library_reads_a_number() {
    assert_eq!(parse_u64("42"), Some(42));
    assert_eq!(parse_u64("+7"), Some(7));
    assert_eq!(parse_u64("18446744073709551615"), Some(u64::MAX));
    assert_eq!(parse_u64("18446744073709551616"), None);
    assert_eq!(parse_u64("-1"), None);
    assert_eq!(parse_u64(""), None);
    assert_eq!(parse_u64("+"), None);
    assert_eq!(parse_u64("1 "), None);
    assert_eq!(retry_after_s(Some("3")), 3);
    assert_eq!(retry_after_s(Some("soon")), 1);
    assert_eq!(retry_after_s(None), 1);
}

#[test]
fn a_request_goes_again_a_few_times_and_then_fails() {
    let mut sending = Sending::new();
    assert_eq!(sending.answered(200, 0, None, "OK".to_owned()), SendStep::Done);
    assert_eq!(sending.answered(401, 0, None, "x".to_owned()), SendStep::RenewToken);
    assert!(matches!(
        sending.answered(401, 0, None, "401 Unauthorized".to_owned()),
        SendStep::Fail(ApiError::Status { status: 401, .. })
    ));
    assert_eq!(sending.answered(429, 3, None, String::new()), SendStep::Wait(3));
    assert_eq!(sending.answered(429, 3, None, String::new()), SendStep::Wait(3));
    assert_eq!(
        sending.answered(429, 3, None, String::new()),
        SendStep::Fail(ApiError::RateLimited { retry_after_s: Some(3) })
    );
    let mut fresh = Sending::new();
    assert_eq!(
        fresh.answered(429, 11, None, String::new()),
        SendStep::Fail(ApiError::RateLimited { retry_after_s: Some(11) })
    );
    assert_eq!(
        fresh.answered(403, 0, Some("Insufficient client scope".to_owned()), String::new()),
        SendStep::Fail(ApiError::Forbidden { reason: "Insufficient client scope".to_owned() })
    );
    assert_eq!(fresh.answered(404, 0, None, String::new()), SendStep::Fail(ApiError::NotFound));
    assert_eq!(
        fresh.answered(500, 0, None, "500 Internal Server Error".to_owned()),
        SendStep::Fail(ApiError::Status { status: 500, message: "500 Internal Server Error".to_owned() })
    );
}

#[test]
fn the_message_in_an_error_body() {
    let body = object(vec![(
        "error",
        object(vec![("status", Json::Number("403".to_owned())), ("message", text("Forbidden"))]),
    )]);
    assert_eq!(spotify_message(&body), Some("Forbidden".to_owned()));
    assert_eq!(spotify_message(&text("error")), None);
    assert_eq!(spotify_message(&object(vec![("error", text("x"))])), None);
    assert_eq!(reply_text("  \n".to_owned()), "null");
    assert_eq!(reply_text("[1]".to_owned()), "[1]");
}

#[test]
fn a_made_playlist_pages_by_its_slice() {
    assert_eq!(made_range(0, 120), (0, 50));
    assert_eq!(made_range(100, 120), (100, 120));
    assert_eq!(made_range(500, 120), (120, 120));
}

#[test]
fn tracks_come_back_in_the_order_asked() {
    let ids: Vec<TrackId> = ["a", "b", "c", "a"].iter().map(|s| TrackId((*s).to_owned())).collect();
    let known = vec![track("c")];
    let wanted = wanted_ids(&ids, &known);
    assert_eq!(wanted.iter().map(|id| id.0.as_str()).collect::<Vec<_>>(), vec!["a", "b", "a"]);

    let replies = vec![
        reply_for(Ok(FullTrack {
            id: Some("a".to_owned()),
            name: "a".to_owned(),
            artists: Vec::new(),
            album: None,
            duration_ms: 1,
            explicit: false,
            is_playable: None,
            track_number: 1,
        })),
        reply_for(Err(ApiError::RateLimited { retry_after_s: None })),
        reply_for(Err(ApiError::NotFound)),
    ];
    assert!(matches!(replies[1], TrackReply::Later));
    assert!(matches!(replies[2], TrackReply::Gone));
    let (fetched, whole) = tally(replies);
    assert!(!whole, "a rate limit means the list is short");
    assert_eq!(fetched.len(), 1);

    let found = in_order(&ids, known, fetched);
    let names: Vec<&str> = found.iter().map(|t| t.name.as_str()).collect();
    // "b" could not be read, and "a" is answered once.
    assert_eq!(names, vec!["a", "c"]);
}

/// A track as the Web API writes one.
fn wire_track(id: Option<&str>, name: &str) -> FullTrack {
    FullTrack {
        id: id.map(str::to_owned),
        name: name.to_owned(),
        artists: Vec::new(),
        album: None,
        duration_ms: 1000,
        explicit: false,
        is_playable: None,
        track_number: 1,
    }
}

#[test]
fn top_tracks_closed_to_the_application_are_none() {
    let reply = TopTracks { tracks: vec![wire_track(Some("a"), "A"), wire_track(None, "local"), wire_track(Some("b"), "B")] };
    let read = top_tracks_after(Ok(reply)).expect("an answer reads");
    let names: Vec<_> = read.iter().map(|t| t.name.as_str()).collect();
    assert_eq!(names, vec!["A", "B"]);
    assert_eq!(top_tracks_after(Err(ApiError::Forbidden { reason: String::new() })), Ok(Vec::new()));
    assert_eq!(top_tracks_after(Err(ApiError::NotFound)), Err(ApiError::NotFound));
}

#[test]
fn a_hidden_playlist_is_asked_of_the_session() {
    let mine = SimplePlaylist {
        id: Some("p".to_owned()),
        name: "Mine".to_owned(),
        description: None,
        images: Vec::new(),
        owner: Some(Owner { id: Some("me".to_owned()), display_name: None }),
        tracks: None,
        snapshot_id: None,
    };
    match after_playlist(Ok(mine), "me") {
        PlaylistNext::Found(p) => {
            assert_eq!(p.name, "Mine");
            assert_eq!(p.kind, PlaylistKind::Owned);
            assert_eq!(p.total_tracks, 0);
        }
        other => panic!("the playlist was named: {other:?}"),
    }
    let nameless = SimplePlaylist {
        id: None,
        name: "x".to_owned(),
        description: None,
        images: Vec::new(),
        owner: None,
        tracks: None,
        snapshot_id: None,
    };
    assert!(matches!(after_playlist(Ok(nameless), "me"), PlaylistNext::Fail(ApiError::NotFound)));
    assert!(matches!(after_playlist(Err(ApiError::NotFound), "me"), PlaylistNext::AskSession));
    assert!(matches!(
        after_playlist(Err(ApiError::Forbidden { reason: "no".to_owned() }), "me"),
        PlaylistNext::AskSession
    ));
    assert!(matches!(
        after_playlist(Err(ApiError::Transport("down".to_owned())), "me"),
        PlaylistNext::Fail(ApiError::Transport(_))
    ));
}

/// An entry of an object.
fn entry(key: &str, value: Json) -> (String, Json) {
    (key.to_owned(), value)
}

#[test]
fn request_bodies_carry_what_the_edit_needs() {
    let ids = vec![TrackId("a".to_owned()), TrackId("b".to_owned())];
    assert_eq!(
        add_body(&ids, None),
        Json::Object(vec![entry("uris", Json::List(vec![text("spotify:track:a"), text("spotify:track:b")]))])
    );
    assert_eq!(
        add_body(&ids[..1], Some(30)),
        Json::Object(vec![
            entry("uris", Json::List(vec![text("spotify:track:a")])),
            entry("position", Json::Number("30".to_owned())),
        ])
    );
    assert_eq!(
        remove_body(&ids[1..], Some("snap")),
        Json::Object(vec![
            entry("items", Json::List(vec![object(vec![("uri", text("spotify:track:b"))])])),
            entry("snapshot_id", text("snap")),
        ])
    );
    assert_eq!(remove_body(&[], None), Json::Object(vec![entry("items", Json::List(Vec::new()))]));
    assert_eq!(
        created_body("Mix"),
        Json::Object(vec![entry("name", text("Mix")), entry("public", Json::Bool(false))])
    );
    assert_eq!(renamed_body("New"), Json::Object(vec![entry("name", text("New"))]));
    assert_eq!(
        reorder_body(0, 2, 10),
        Json::Object(vec![
            entry("range_start", Json::Number("0".to_owned())),
            entry("range_length", Json::Number("2".to_owned())),
            entry("insert_before", Json::Number("10".to_owned())),
        ])
    );
}
