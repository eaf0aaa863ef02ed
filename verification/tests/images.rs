use canora::images::{file_name, fold, Held, HELD};

#[test]
fn names_a_file_after_the_picture() {
    let name = file_name("https://i.scdn.co/image/ab67616d0000b273886");
    assert!(name.starts_with("ab67616d0000b273886-"), "{name}");
}

#[test]
fn two_covers_ending_the_same_way_get_two_files() {
    // Every Discover Weekly and Wrapped cover ends in the language it was drawn for.
    let one = file_name("https://pickasso.spotifycdn.com/image/aaa/dt/v1/img/dw/cover/en");
    let two = file_name("https://pickasso.spotifycdn.com/image/bbb/dt/v1/img/dw/cover/en");
    assert_ne!(one, two);
}

#[test]
fn the_same_address_names_the_same_file() {
    let url = "https://i.scdn.co/image/ab67616d0000b273886";
    assert_eq!(file_name(url), file_name(url));
}

#[test]
fn keeps_the_most_recently_used_at_the_back() {
    let mut held = Held::new();
    held.touch("a");
    held.touch("b");
    held.touch("a");

    assert_eq!(held.urls, vec!["b".to_owned(), "a".to_owned()]);
}

#[test]
fn folds_as_fnv_does() {
    // The FNV-1a offset basis, and the published value for "a".
    assert_eq!(fold(""), 0xcbf2_9ce4_8422_2325);
    assert_eq!(fold("a"), 0xaf63_dc4c_8601_ec8c);
    let name = file_name("");
    assert_eq!(name, "-cbf29ce484222325");
}

#[test]
fn a_file_name_keeps_letters_and_digits_and_no_more_than_forty_eight() {
    let long = format!("https://x/{}", "ab-".repeat(40));
    let name = file_name(&long);
    let tail: String = name.chars().take_while(|c| *c != '-').collect();
    assert_eq!(tail.len(), 48);
    assert!(tail.chars().all(|c| c == 'a' || c == 'b'));
    assert_eq!(name.len(), 48 + 1 + 16);
    assert!(file_name("no-slash_here").starts_with("noslashhere-"));
}

#[test]
fn the_oldest_registrations_go_first() {
    let mut held = Held::new();
    for i in 0..(HELD + 2) {
        held.touch(&i.to_string());
    }
    let dropped = held.evict();
    assert_eq!(dropped, vec!["0".to_owned(), "1".to_owned()]);
    assert_eq!(held.urls.len(), HELD);
    assert_eq!(held.urls.first().map(String::as_str), Some("2"));
    assert!(held.evict().is_empty());
}

#[test]
fn a_failed_fetch_says_what_failed() {
    assert_eq!(
        canora::images::ImageError::Fetch("timed out".to_owned()).describe(),
        "cannot fetch the picture: timed out"
    );
}
