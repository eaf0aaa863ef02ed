use canora::models::Page;
use canora::reading::{wants_more_albums, Reading};

/// A page of `items` at `offset`, out of `total`, covering `covered`.
fn page(items: Vec<u32>, offset: u32, total: u32, covered: u32, whole: bool) -> Page<u32> {
    Page { items, total, offset, whole, covered }
}

#[test]
fn a_playlist_reading_minds_a_partial_page() {
    let mut reading = Reading::new(true);
    assert!(reading.took(page(vec![1, 2], 0, 4, 2, true)));
    assert_eq!(reading.offset, 2);
    assert!(!reading.took(page(vec![3], 2, 4, 2, false)));
    assert_eq!(reading.all, vec![1, 2, 3]);
    assert!(!reading.keeps(), "a short list is not kept");
    assert!(reading.falls_back(true));
    assert!(!reading.falls_back(false));
}

#[test]
fn the_saved_tracks_mind_only_a_failure() {
    let mut reading = Reading::new(false);
    assert!(!reading.took(page(vec![1], 0, 1, 1, false)));
    assert!(reading.keeps());
    reading.failed();
    assert!(!reading.keeps());
}

#[test]
fn an_artist_page_reads_forty_releases() {
    assert!(wants_more_albums(39));
    assert!(!wants_more_albums(40));
}
