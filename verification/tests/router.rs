use canora::models::{AlbumId, PlaylistId};
use canora::router::{Route, Router};

#[test]
fn starts_on_the_saved_tracks() {
    let router = Router::new();
    assert_eq!(router.current(), Route::Liked);
    assert!(!router.can_go_back());
    assert!(!router.can_go_forward());
}

#[test]
fn back_and_forward_retrace_the_steps() {
    let mut router = Router::new();
    router.go(Route::Playlist(PlaylistId("p".to_owned())));
    router.go(Route::Album(AlbumId("a".to_owned())));
    router.back();
    assert_eq!(router.current(), Route::Playlist(PlaylistId("p".to_owned())));
    assert!(router.can_go_forward());
    router.forward();
    assert_eq!(router.current(), Route::Album(AlbumId("a".to_owned())));
    assert!(!router.can_go_forward());
}

#[test]
fn going_somewhere_new_forgets_what_was_ahead() {
    let mut router = Router::new();
    router.go(Route::Search);
    router.back();
    router.go(Route::Playlist(PlaylistId("p".to_owned())));
    assert!(!router.can_go_forward());
    router.back();
    assert_eq!(router.current(), Route::Liked);
}

#[test]
fn a_second_click_on_the_same_place_leaves_the_history_alone() {
    let mut router = Router::new();
    router.go(Route::Playlist(PlaylistId("p".to_owned())));
    router.go(Route::Playlist(PlaylistId("p".to_owned())));
    router.back();
    assert_eq!(router.current(), Route::Liked);
    assert!(!router.can_go_back());
}

#[test]
fn going_back_stops_at_the_first_place() {
    let mut router = Router::new();
    router.back();
    assert_eq!(router.current(), Route::Liked);
    router.forward();
    assert_eq!(router.current(), Route::Liked);
}
