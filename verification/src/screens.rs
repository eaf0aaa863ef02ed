//! What the views show, decided apart from drawing it.
//!
//! Each function here takes what a view reads and returns the words, marks and links it puts on
//! the screen. The drawing itself is the application's.

use vstd::prelude::*;

use crate::format::{ARTIST, BAR, CARD, TITLE, clock, cut_to, duration, summary, summary_of, trim, trimmed, truncate};
use crate::models::{Album, AlbumId, Artist, ArtistId, Playlist, PlaylistId, PlaylistKind, Track, TrackId};
use crate::playback::{Loudness, PlayStatus, Playing};
use crate::queue::{PlayContext, RepeatMode};
use crate::text::{decimal, push_decimal};

verus! {

/// How long these tracks run together, in milliseconds.
pub open spec fn list_length(tracks: Seq<Track>) -> nat
    decreases tracks.len(),
{
    if tracks.len() == 0 {
        0
    } else {
        list_length(tracks.drop_last()) + tracks.last().duration_ms as nat
    }
}

/// How many tracks a list holds and how long it runs, as the header says it.
pub fn list_summary(tracks: &[Track]) -> (text: String)
    requires
        list_length(tracks@) <= u64::MAX,
    ensures
        text@ == summary_of((tracks@.len() as u32) as nat, list_length(tracks@)),
{
    let mut total: u64 = 0;
    let mut i: usize = 0;
    while i < tracks.len()
        invariant
            i <= tracks@.len(),
            list_length(tracks@) <= u64::MAX,
            total == list_length(tracks@.take(i as int)),
        decreases tracks@.len() - i,
    {
        proof {
            assert(tracks@.take(i + 1).drop_last() =~= tracks@.take(i as int));
            lemma_list_length_grows(tracks@, i + 1);
        }
        total = total + tracks[i].duration_ms;
        i = i + 1;
    }
    assert(tracks@.take(i as int) =~= tracks@);
    summary(tracks.len() as u32, total)
}

/// A list runs at least as long as any list it starts with.
proof fn lemma_list_length_grows(tracks: Seq<Track>, n: int)
    requires
        0 <= n <= tracks.len(),
    ensures
        list_length(tracks.take(n)) <= list_length(tracks),
    decreases tracks.len(),
{
    if n < tracks.len() {
        assert(tracks.drop_last().take(n) =~= tracks.take(n));
        lemma_list_length_grows(tracks.drop_last(), n);
    } else {
        assert(tracks.take(n) =~= tracks);
    }
}

/// How many releases an artist has, in words; nothing before any has arrived.
pub open spec fn releases_words(count: nat) -> Seq<char> {
    if count == 0 {
        Seq::empty()
    } else if count == 1 {
        "1 release"@
    } else {
        decimal(count) + " releases"@
    }
}

/// How many releases an artist has, in words.
pub fn releases_line(count: usize) -> (text: String)
    ensures
        text@ == releases_words(count as nat),
{
    if count == 0 {
        String::new()
    } else if count == 1 {
        "1 release".to_owned()
    } else {
        let mut text = String::new();
        push_decimal(&mut text, count as u64);
        text.append(" releases");
        text
    }
}

/// The track a station is built around, from an artist's top tracks: the first.
pub fn radio_seed(top: &[Track]) -> (seed: Option<TrackId>)
    ensures
        top@.len() == 0 ==> seed is None,
        top@.len() > 0 ==> seed == Some(top@[0].id),
{
    if top.len() == 0 {
        None
    } else {
        Some(top[0].id.clone())
    }
}

/// What the header says a playlist is: whose it is, when somebody else owns it.
pub open spec fn kind_words(playlist: Option<Playlist>) -> Seq<char> {
    match playlist {
        Some(p) => match p.kind {
            PlaylistKind::Followed { owner_name } => "Playlist \u{b7} "@ + owner_name@,
            _ => "Playlist"@,
        },
        None => "Playlist"@,
    }
}

/// What the header says a playlist is.
pub fn kind_line(playlist: Option<&Playlist>) -> (text: String)
    ensures
        text@ == kind_words(match playlist { Some(p) => Some(*p), None => None }),
{
    match playlist {
        Some(p) => match &p.kind {
            PlaylistKind::Followed { owner_name } => {
                let mut text = "Playlist \u{b7} ".to_owned();
                text.append(owner_name.as_str());
                text
            },
            _ => "Playlist".to_owned(),
        },
        None => "Playlist".to_owned(),
    }
}

/// Whether the playlist may be renamed and deleted here: only one this person owns.
pub fn editable(playlist: Option<&Playlist>) -> (e: bool)
    ensures
        e == (match playlist { Some(p) => p.kind is Owned, None => false }),
{
    match playlist {
        Some(p) => p.kind.is_editable(),
        None => false,
    }
}

/// Where the track that plays stands in the queue, as the header says it.
pub open spec fn queue_words(playing: Option<Playing>) -> Seq<char> {
    match playing {
        Some(p) => decimal((p.index + 1) as nat) + " of "@ + decimal(p.queue_len as nat),
        None => Seq::empty(),
    }
}

/// Where the track that plays stands in the queue.
pub fn queue_line(playing: Option<&Playing>) -> (text: String)
    requires
        playing matches Some(p) ==> p.index < usize::MAX,
    ensures
        text@ == queue_words(match playing { Some(p) => Some(*p), None => None }),
{
    match playing {
        Some(p) => {
            let mut text = String::new();
            push_decimal(&mut text, (p.index + 1) as u64);
            text.append(" of ");
            push_decimal(&mut text, p.queue_len as u64);
            text
        },
        None => String::new(),
    }
}

/// What a card in a grid says: a name under the cover, and a note under that.
#[derive(Debug, PartialEq, Eq)]
pub struct Card {
    /// The name, cut to fit.
    pub title: String,
    /// The note.
    pub note: String,
}

/// An album's card: its name, and the year it came out when that is known.
pub fn album_card(album: &Album) -> (card: Card)
    ensures
        card.title@ == cut_to(album.name@, CARD as nat),
        card.note@ == (match album.year { Some(y) => decimal(y as nat), None => Seq::empty() }),
{
    let note = match album.year {
        Some(y) => {
            let mut text = String::new();
            push_decimal(&mut text, y as u64);
            text
        },
        None => String::new(),
    };
    Card { title: truncate(album.name.as_str(), CARD), note }
}

/// An artist's card.
pub fn artist_card(artist: &Artist) -> (card: Card)
    ensures
        card.title@ == cut_to(artist.name@, CARD as nat),
        card.note@ == "Artist"@,
{
    Card { title: truncate(artist.name.as_str(), CARD), note: "Artist".to_owned() }
}

/// The playlists among these that can be opened: those with an identifier.
pub open spec fn openable(playlists: Seq<Playlist>) -> Seq<Playlist> {
    playlists.filter(|p: Playlist| p.id is Some)
}

/// The playlists among these that can be opened, each with its card: a playlist with no
/// identifier has nowhere to go.
pub fn playlist_cards(playlists: &[Playlist]) -> (cards: Vec<(PlaylistId, Card)>)
    ensures
        cards@.len() == openable(playlists@).len(),
        forall|i: int| 0 <= i < cards@.len() ==> {
            let p = #[trigger] openable(playlists@)[i];
            &&& p.id == Some(cards@[i].0)
            &&& cards@[i].1.title@ == cut_to(p.name@, CARD as nat)
            &&& cards@[i].1.note@ == "Playlist"@
        },
{
    let mut cards: Vec<(PlaylistId, Card)> = Vec::new();
    let mut i: usize = 0;
    while i < playlists.len()
        invariant
            i <= playlists@.len(),
            cards@.len() == openable(playlists@.take(i as int)).len(),
            forall|m: int| 0 <= m < cards@.len() ==> {
                let p = #[trigger] openable(playlists@.take(i as int))[m];
                &&& p.id == Some(cards@[m].0)
                &&& cards@[m].1.title@ == cut_to(p.name@, CARD as nat)
                &&& cards@[m].1.note@ == "Playlist"@
            },
        decreases playlists@.len() - i,
    {
        proof {
            assert(playlists@.take(i + 1) =~= playlists@.take(i as int).push(playlists@[i as int]));
            playlists@.take(i as int).lemma_filter_push(playlists@[i as int], |p: Playlist| p.id is Some);
        }
        match &playlists[i].id {
            Some(id) => {
                let card = Card { title: truncate(playlists[i].name.as_str(), CARD), note: "Playlist".to_owned() };
                cards.push((id.clone(), card));
            },
            None => {},
        }
        i = i + 1;
    }
    assert(playlists@.take(i as int) =~= playlists@);
    cards
}

/// What the search view shows.
#[derive(Debug, Clone, Copy, PartialEq, Eq, Structural)]
pub enum SearchScreen {
    /// Nothing has been asked: an invitation to search.
    Prompt,
    /// A search is on its way and nothing has come back.
    Waiting,
    /// The search came back empty.
    NothingFound,
    /// What the search found.
    Results,
}

/// What the search view shows, for the text in the field, whether the results hold anything,
/// and whether a search is on its way.
pub open spec fn search_screen_of(query: Seq<char>, empty: bool, searching: bool) -> SearchScreen {
    if trim(query).len() == 0 {
        SearchScreen::Prompt
    } else if empty {
        if searching { SearchScreen::Waiting } else { SearchScreen::NothingFound }
    } else {
        SearchScreen::Results
    }
}

/// What the search view shows.
pub fn search_screen(query: &str, empty: bool, searching: bool) -> (screen: SearchScreen)
    ensures
        screen == search_screen_of(query@, empty, searching),
{
    let asked = trimmed(query);
    if asked.as_str().is_empty() {
        SearchScreen::Prompt
    } else if empty {
        if searching { SearchScreen::Waiting } else { SearchScreen::NothingFound }
    } else {
        SearchScreen::Results
    }
}

/// What to search for, given the text in the field: the text without the white space at its
/// ends, and nothing when that leaves nothing.
pub fn search_for(query: &str) -> (asked: Option<String>)
    ensures
        trim(query@).len() == 0 ==> asked is None,
        trim(query@).len() > 0 ==> (asked matches Some(a) && a@ == trim(query@)),
{
    let asked = trimmed(query);
    if asked.as_str().is_empty() {
        None
    } else {
        Some(asked)
    }
}

/// Whether the field still asks what was searched for: an answer to an older question is dropped.
pub fn still_asked(query: &str, asked: &str) -> (same: bool)
    ensures
        same == (trim(query@) == asked@),
{
    let now = trimmed(query);
    crate::text::same_text(now.as_str(), asked)
}

/// What a row of a track list says.
#[derive(Debug, PartialEq, Eq)]
pub struct RowText {
    /// The number in front: the place in the list, or the number on the album.
    pub number: String,
    /// The name, cut to fit.
    pub title: String,
    /// Every artist, in one line, cut to fit.
    pub artists: String,
    /// How long it runs.
    pub length: String,
    /// The artist the line links to: only when there is one, since which of several a click
    /// meant would be a guess.
    pub lone_artist: Option<ArtistId>,
}

/// What the row for `track`, at `index` in its list, says.
pub fn row_text(track: &Track, index: usize, album_numbers: bool) -> (row: RowText)
    requires
        index < usize::MAX,
    ensures
        row.number@ == (if album_numbers { decimal(track.track_number as nat) } else { decimal((index + 1) as nat) }),
        row.title@ == cut_to(track.name@, TITLE as nat),
        row.artists@ == cut_to(crate::models::join(crate::models::artist_names(track.artists@), ", "@), ARTIST as nat),
        row.length@ == clock(track.duration_ms as nat),
        track.artists@.len() == 1 ==> row.lone_artist == Some(track.artists@[0].id),
        track.artists@.len() != 1 ==> row.lone_artist is None,
{
    let mut number = String::new();
    if album_numbers {
        push_decimal(&mut number, track.track_number as u64);
    } else {
        push_decimal(&mut number, (index + 1) as u64);
    }
    let line = track.artist_line();
    let lone_artist = if track.artists.len() == 1 {
        Some(track.artists[0].id.clone())
    } else {
        None
    };
    RowText {
        number,
        title: truncate(track.name.as_str(), TITLE),
        artists: truncate(line.as_str(), ARTIST),
        length: duration(track.duration_ms),
        lone_artist,
    }
}

/// What a track's menu offers.
#[derive(Debug, PartialEq, Eq)]
pub struct TrackMenu {
    /// The playlists the track may be added to, each with its name cut to fit.
    pub add_to: Vec<(PlaylistId, String)>,
    /// The playlist the track may be taken out of: the list it was opened from, when this person
    /// owns it.
    pub remove_from: Option<PlaylistId>,
    /// The artist to go to: the first one.
    pub artist: Option<ArtistId>,
    /// The album to go to.
    pub album: Option<AlbumId>,
}

/// How many characters of a playlist's name the menu shows.
pub const MENU_NAME: usize = 28;

/// Whether `p` is a playlist this person may add to.
pub open spec fn takes_tracks(p: Playlist) -> bool {
    p.kind is Owned && p.id is Some
}

/// The playlists among these this person may add to.
pub open spec fn addable(playlists: Seq<Playlist>) -> Seq<Playlist> {
    playlists.filter(|p: Playlist| takes_tracks(p))
}

/// Whether `p` carries identifier `id` and is this person's own.
pub open spec fn owned_as(p: Playlist, id: Seq<char>) -> bool {
    &&& p.kind is Owned
    &&& p.id matches Some(x)
    &&& x.0@ == id
}

/// Whether a playlist of `playlists` carries identifier `id` and is this person's own.
pub open spec fn owns(playlists: Seq<Playlist>, id: Seq<char>) -> bool {
    exists|i: int| 0 <= i < playlists.len() && owned_as(#[trigger] playlists[i], id)
}

/// What the menu of `track` offers, opened from a list that came from `context`.
pub fn track_menu(track: &Track, context: &PlayContext, playlists: &[Playlist]) -> (menu: TrackMenu)
    ensures
        menu.add_to@.len() == addable(playlists@).len(),
        forall|i: int| 0 <= i < menu.add_to@.len() ==> {
            let p = #[trigger] addable(playlists@)[i];
            &&& p.id == Some(menu.add_to@[i].0)
            &&& menu.add_to@[i].1@ == cut_to(p.name@, MENU_NAME as nat)
        },
        menu.remove_from == (match *context {
            PlayContext::Playlist(from) => if owns(playlists@, from.0@) { Some(from) } else { None },
            _ => None,
        }),
        menu.artist == (if track.artists@.len() > 0 { Some(track.artists@[0].id) } else { None }),
        menu.album == (match track.album { Some(a) => Some(a.id), None => None }),
{
    let mut add_to: Vec<(PlaylistId, String)> = Vec::new();
    let mut owned_from = false;
    let mut i: usize = 0;
    while i < playlists.len()
        invariant
            i <= playlists@.len(),
            add_to@.len() == addable(playlists@.take(i as int)).len(),
            forall|m: int| 0 <= m < add_to@.len() ==> {
                let p = #[trigger] addable(playlists@.take(i as int))[m];
                &&& p.id == Some(add_to@[m].0)
                &&& add_to@[m].1@ == cut_to(p.name@, MENU_NAME as nat)
            },
            context matches PlayContext::Playlist(from) ==> owned_from == owns(playlists@.take(i as int), from.0@),
        decreases playlists@.len() - i,
    {
        proof {
            assert(playlists@.take(i + 1) =~= playlists@.take(i as int).push(playlists@[i as int]));
            playlists@.take(i as int).lemma_filter_push(playlists@[i as int], |p: Playlist| takes_tracks(p));
        }
        let p = &playlists[i];
        if p.kind.is_editable() {
            match &p.id {
                Some(id) => {
                    add_to.push((id.clone(), truncate(p.name.as_str(), MENU_NAME)));
                    match context {
                        PlayContext::Playlist(from) => {
                            if id.0 == from.0 {
                                owned_from = true;
                            }
                        },
                        _ => {},
                    }
                },
                None => {},
            }
        }
        proof {
            if let PlayContext::Playlist(from) = context {
                let ghost a = playlists@.take(i as int);
                let ghost b = playlists@.take(i + 1);
                if owns(b, from.0@) {
                    let k = choose|k: int| 0 <= k < b.len() && owned_as(#[trigger] b[k], from.0@);
                    if k < a.len() {
                        assert(a[k] == b[k]);
                    }
                }
                if owns(a, from.0@) {
                    let k = choose|k: int| 0 <= k < a.len() && owned_as(#[trigger] a[k], from.0@);
                    assert(b[k] == a[k]);
                }
                if owned_as(*p, from.0@) {
                    assert(b[i as int] == *p);
                }
            }
        }
        i = i + 1;
    }
    assert(playlists@.take(i as int) =~= playlists@);
    let remove_from = match context {
        PlayContext::Playlist(from) => if owned_from { Some(from.clone()) } else { None },
        _ => None,
    };
    let artist = if track.artists.len() > 0 { Some(track.artists[0].id.clone()) } else { None };
    let album = match &track.album {
        Some(a) => Some(a.id.clone()),
        None => None,
    };
    TrackMenu { add_to, remove_from, artist, album }
}

/// The name a rename or a new playlist asks for: what was typed, without the white space at its
/// ends, and nothing when that leaves nothing, which the menu passes over.
pub fn wanted_name(typed: &str) -> (wanted: Option<String>)
    ensures
        trim(typed@).len() == 0 ==> wanted is None,
        trim(typed@).len() > 0 ==> (wanted matches Some(w) && w@ == trim(typed@)),
{
    let w = trimmed(typed);
    if w.as_str().is_empty() {
        None
    } else {
        Some(w)
    }
}

/// The mark beside the volume slider.
#[derive(Debug, Clone, Copy, PartialEq, Eq, Structural)]
pub enum VolumeMark {
    /// Silent, or near enough.
    Mute,
    /// Below half.
    Low,
    /// Half or more.
    High,
}

/// The bits of the double 0.001, the loudest the mark still shows as silent.
pub const MUTE_BITS: u64 = 0x3F50_624D_D2F1_A9FC;

/// The bits of the double 0.5, the quietest the mark shows as loud.
pub const HIGH_BITS: u64 = 0x3FE0_0000_0000_0000;

/// The bits of positive infinity. A double whose bits, sign aside, lie above these is not a number.
pub const INFINITY_BITS: u64 = 0x7FF0_0000_0000_0000;

/// The mark for a volume: silent at a thousandth or less, low below half, loud otherwise. For a
/// value the slider set, the comparisons are those of doubles: a value that is not a number
/// compares false to both, and one with its sign bit set is at most zero.
pub open spec fn volume_mark_of(volume: Loudness) -> VolumeMark {
    match volume {
        Loudness::Level(level) => {
            if level * 1000 <= u16::MAX { VolumeMark::Mute } else if level * 2 < u16::MAX { VolumeMark::Low } else { VolumeMark::High }
        },
        Loudness::Slider(bits) => {
            if bits % 0x8000_0000_0000_0000 > INFINITY_BITS {
                VolumeMark::High
            } else if bits >= 0x8000_0000_0000_0000 {
                VolumeMark::Mute
            } else if bits <= MUTE_BITS {
                VolumeMark::Mute
            } else if bits < HIGH_BITS {
                VolumeMark::Low
            } else {
                VolumeMark::High
            }
        },
    }
}

/// The mark beside the volume slider.
pub fn volume_mark(volume: Loudness) -> (mark: VolumeMark)
    ensures
        mark == volume_mark_of(volume),
{
    match volume {
        Loudness::Level(level) => {
            let l = level as u32;
            if l * 1000 <= 65535 {
                VolumeMark::Mute
            } else if l * 2 < 65535 {
                VolumeMark::Low
            } else {
                VolumeMark::High
            }
        },
        Loudness::Slider(bits) => {
            if bits % 0x8000_0000_0000_0000 > INFINITY_BITS {
                VolumeMark::High
            } else if bits >= 0x8000_0000_0000_0000 {
                VolumeMark::Mute
            } else if bits <= MUTE_BITS {
                VolumeMark::Mute
            } else if bits < HIGH_BITS {
                VolumeMark::Low
            } else {
                VolumeMark::High
            }
        },
    }
}

/// The mark on the repeat key: its own for one track, the plain one otherwise.
pub fn repeats_one(mode: RepeatMode) -> (one: bool)
    ensures
        one == (mode == RepeatMode::One),
{
    match mode {
        RepeatMode::One => true,
        _ => false,
    }
}

/// Whether the repeat key is lit: whenever something repeats.
pub fn repeat_lit(mode: RepeatMode) -> (lit: bool)
    ensures
        lit == (mode != RepeatMode::Off),
{
    match mode {
        RepeatMode::Off => false,
        _ => true,
    }
}

/// What the bar says of the track that plays: its name and its artists, each cut to fit, and
/// nothing with nothing playing.
pub fn bar_lines(playing: Option<&Playing>) -> (lines: (String, String))
    ensures
        playing is None ==> lines.0@.len() == 0 && lines.1@.len() == 0,
        playing matches Some(p) ==> lines.0@ == cut_to(p.track.name@, BAR as nat)
            && lines.1@ == cut_to(crate::models::join(crate::models::artist_names(p.track.artists@), ", "@), BAR as nat),
{
    match playing {
        Some(p) => {
            let line = p.track.artist_line();
            (truncate(p.track.name.as_str(), BAR), truncate(line.as_str(), BAR))
        },
        None => (String::new(), String::new()),
    }
}

/// Where the name on the bar leads: the album of the track that plays.
pub fn bar_album(playing: Option<&Playing>) -> (album: Option<AlbumId>)
    ensures
        album == (match playing {
            Some(p) => match p.track.album { Some(a) => Some(a.id), None => None },
            None => None,
        }),
{
    match playing {
        Some(p) => match &p.track.album {
            Some(a) => Some(a.id.clone()),
            None => None,
        },
        None => None,
    }
}

/// Where the artist line on the bar leads: the first artist of the track that plays.
pub fn bar_artist(playing: Option<&Playing>) -> (artist: Option<ArtistId>)
    ensures
        artist == (match playing {
            Some(p) => if p.track.artists@.len() > 0 { Some(p.track.artists@[0].id) } else { None },
            None => None,
        }),
{
    match playing {
        Some(p) => {
            if p.track.artists.len() > 0 {
                Some(p.track.artists[0].id.clone())
            } else {
                None
            }
        },
        None => None,
    }
}

/// Whether the play key shows pause: while audio runs.
pub fn shows_pause(status: PlayStatus) -> (pause: bool)
    ensures
        pause == (status == PlayStatus::Playing),
{
    status.is_playing()
}

/// What the body of a playlist view shows under its header.
#[derive(Debug, Clone, Copy, PartialEq, Eq, Structural)]
pub enum ListBody {
    /// The tracks.
    Tracks,
    /// A sign that they are on their way.
    Waiting,
    /// Word that the playlist holds nothing.
    Empty,
}

/// What the body of a playlist view shows: the tracks once there are some, a wait while they
/// load, and word of an empty playlist after.
pub fn list_body(has_tracks: bool, loading: bool) -> (body: ListBody)
    ensures
        body == (if has_tracks { ListBody::Tracks } else if loading { ListBody::Waiting } else { ListBody::Empty }),
{
    if has_tracks {
        ListBody::Tracks
    } else if loading {
        ListBody::Waiting
    } else {
        ListBody::Empty
    }
}

/// Every artist, in one line.
pub fn names_line(artists: &[crate::models::ArtistRef]) -> (line: String)
    ensures
        line@ == crate::models::join(crate::models::artist_names(artists@), ", "@),
{
    let mut line = String::new();
    let mut i: usize = 0;
    while i < artists.len()
        invariant
            i <= artists@.len(),
            line@ == crate::models::join(crate::models::artist_names(artists@.take(i as int)), ", "@),
        decreases artists@.len() - i,
    {
        let ghost before = crate::models::artist_names(artists@.take(i as int));
        proof {
            assert(crate::models::artist_names(artists@.take(i + 1)) =~= before.push(artists@[i as int].name@));
            assert(before.push(artists@[i as int].name@).drop_last() =~= before);
        }
        if i > 0 {
            line.append(", ");
        }
        line.append(artists[i].name.as_str());
        i = i + 1;
    }
    assert(artists@.take(i as int) =~= artists@);
    line
}

/// What the header says an album is: its artists, and its year when that is known.
pub open spec fn album_words(album: Option<Album>) -> Seq<char> {
    match album {
        Some(a) => {
            let artists = crate::models::join(crate::models::artist_names(a.artists@), ", "@);
            match a.year {
                Some(y) => "Album \u{b7} "@ + artists + " \u{b7} "@ + decimal(y as nat),
                None => "Album \u{b7} "@ + artists,
            }
        },
        None => Seq::empty(),
    }
}

/// What the header says an album is.
pub fn album_line(album: Option<&Album>) -> (text: String)
    ensures
        text@ == album_words(match album { Some(a) => Some(*a), None => None }),
{
    match album {
        Some(a) => {
            let mut text = "Album \u{b7} ".to_owned();
            let artists = names_line(a.artists.as_slice());
            text.append(artists.as_str());
            match a.year {
                Some(y) => {
                    text.append(" \u{b7} ");
                    push_decimal(&mut text, y as u64);
                },
                None => {},
            }
            text
        },
        None => String::new(),
    }
}

/// What a station's header is called: after the track it is built on, once that is read.
pub open spec fn radio_title_words(about: Option<Track>) -> Seq<char> {
    match about {
        Some(t) => t.name@ + " Radio"@,
        None => "Radio"@,
    }
}

/// What a station's header is called.
pub fn radio_title(about: Option<&Track>) -> (text: String)
    ensures
        text@ == radio_title_words(match about { Some(t) => Some(*t), None => None }),
{
    match about {
        Some(t) => {
            let mut text = t.name.clone();
            text.append(" Radio");
            text
        },
        None => "Radio".to_owned(),
    }
}

/// What the header says a station is: whose music it starts from.
pub open spec fn radio_kind_words(about: Option<Track>) -> Seq<char> {
    match about {
        Some(t) => "Station \u{b7} "@ + crate::models::join(crate::models::artist_names(t.artists@), ", "@),
        None => "Station"@,
    }
}

/// What the header says a station is.
pub fn radio_kind(about: Option<&Track>) -> (text: String)
    ensures
        text@ == radio_kind_words(match about { Some(t) => Some(*t), None => None }),
{
    match about {
        Some(t) => {
            let mut text = "Station \u{b7} ".to_owned();
            let line = t.artist_line();
            text.append(line.as_str());
            text
        },
        None => "Station".to_owned(),
    }
}

/// How many rows the queue panel shows of what plays next.
pub const QUEUE_ROWS: usize = 50;

/// What the queue panel shows of each track that plays next, at most [`QUEUE_ROWS`] of them: the
/// name and the artists, each cut to fit.
pub fn queue_rows(upcoming: &[Track]) -> (rows: Vec<(String, String)>)
    ensures
        rows@.len() == (if upcoming@.len() > QUEUE_ROWS { QUEUE_ROWS as int } else { upcoming@.len() as int }),
        forall|i: int| 0 <= i < rows@.len() ==> {
            &&& (#[trigger] rows@[i]).0@ == cut_to(upcoming@[i].name@, crate::format::QUEUE as nat)
            &&& rows@[i].1@ == cut_to(crate::models::join(crate::models::artist_names(upcoming@[i].artists@), ", "@), crate::format::QUEUE as nat)
        },
{
    let mut rows: Vec<(String, String)> = Vec::new();
    let mut i: usize = 0;
    while i < upcoming.len() && i < QUEUE_ROWS
        invariant
            i <= upcoming@.len(),
            i <= QUEUE_ROWS,
            rows@.len() == i,
            forall|m: int| 0 <= m < rows@.len() ==> {
                &&& (#[trigger] rows@[m]).0@ == cut_to(upcoming@[m].name@, crate::format::QUEUE as nat)
                &&& rows@[m].1@ == cut_to(crate::models::join(crate::models::artist_names(upcoming@[m].artists@), ", "@), crate::format::QUEUE as nat)
            },
        decreases upcoming@.len() - i,
    {
        let line = upcoming[i].artist_line();
        rows.push((truncate(upcoming[i].name.as_str(), crate::format::QUEUE), truncate(line.as_str(), crate::format::QUEUE)));
        i = i + 1;
    }
    rows
}

/// How many tracks are saved, as the sidebar shows it: nothing for none.
pub fn liked_count(total: u32) -> (text: String)
    ensures
        text@ == (if total == 0 { Seq::empty() } else { decimal(total as nat) }),
{
    let mut text = String::new();
    if total != 0 {
        push_decimal(&mut text, total as u64);
    }
    text
}

/// What a folder's row says: its name, cut to leave room for the arrow, and how many playlists
/// it holds.
pub fn folder_label(name: &str, count: usize) -> (label: (String, String))
    ensures
        label.0@ == cut_to(name@, (crate::format::SIDEBAR - 2) as nat),
        label.1@ == decimal(count as nat),
{
    let mut n = String::new();
    push_decimal(&mut n, count as u64);
    (truncate(name, crate::format::SIDEBAR - 2), n)
}

/// A playlist's row in the sidebar.
#[derive(Debug, PartialEq, Eq)]
pub struct SideLink {
    /// Where it leads.
    pub id: PlaylistId,
    /// Its name, cut to fit.
    pub name: String,
    /// Whether this person owns it.
    pub owned: bool,
}

/// A playlist's row in the sidebar: none for one with no identifier; a row inside a folder has a
/// little less room.
pub fn side_link(playlist: &Playlist, nested: bool) -> (link: Option<SideLink>)
    ensures
        playlist.id is None ==> link is None,
        playlist.id matches Some(id) ==> (link matches Some(l)
            && l.id == id
            && l.name@ == cut_to(playlist.name@, (if nested { (crate::format::SIDEBAR - 3) as nat } else { crate::format::SIDEBAR as nat }))
            && l.owned == (playlist.kind is Owned)),
{
    match &playlist.id {
        Some(id) => {
            let budget = if nested { crate::format::SIDEBAR - 3 } else { crate::format::SIDEBAR };
            let owned = match playlist.kind {
                PlaylistKind::Owned => true,
                _ => false,
            };
            Some(SideLink { id: id.clone(), name: truncate(playlist.name.as_str(), budget), owned })
        },
        None => None,
    }
}

/// Whether `needle` stands somewhere in `hay`.
pub open spec fn holds_text(hay: Seq<char>, needle: Seq<char>) -> bool {
    exists|i: int| 0 <= i <= hay.len() - needle.len() && #[trigger] hay.subrange(i, i + needle.len()) == needle
}

/// Whether `needle` stands somewhere in `hay`.
pub fn contains_text(hay: &str, needle: &str) -> (found: bool)
    ensures
        found == holds_text(hay@, needle@),
{
    let h = crate::text::chars_of(hay);
    let n = crate::text::chars_of(needle);
    if n.len() > h.len() {
        return false;
    }
    let mut i: usize = 0;
    while i <= h.len() - n.len()
        invariant
            h@ == hay@,
            n@ == needle@,
            n@.len() <= h@.len(),
            i <= h@.len() - n@.len() + 1,
            forall|k: int| 0 <= k < i ==> #[trigger] h@.subrange(k, k + n@.len()) != n@,
        decreases h@.len() - n@.len() + 1 - i,
    {
        let mut j: usize = 0;
        let mut same = true;
        while j < n.len()
            invariant
                h@ == hay@,
                n@ == needle@,
                i + n@.len() <= h@.len(),
                h@.len() == h.len(),
                j <= n@.len(),
                same == (forall|m: int| 0 <= m < j ==> h@[i + m] == n@[m]),
            decreases n@.len() - j,
        {
            if h[i + j] != n[j] {
                same = false;
            }
            j = j + 1;
        }
        if same {
            assert(h@.subrange(i as int, i + n@.len()) =~= n@);
            return true;
        }
        proof {
            assert(!(forall|m: int| 0 <= m < n@.len() ==> h@[i + m] == n@[m]));
            let m = choose|m: int| 0 <= m < n@.len() && h@[i + m] != n@[m];
            assert(h@.subrange(i as int, i + n@.len())[m] == h@[i + m]);
        }
        i = i + 1;
    }
    false
}

/// How far a sign-in has got, as the welcome screen holds it.
#[derive(Debug, PartialEq, Eq)]
pub enum Stage {
    /// Nothing has been tried.
    Waiting,
    /// A sign-in is running, at this phase.
    Working(crate::auth::AuthPhase),
    /// The sign-in stopped, with the reason.
    Failed(String),
    /// Signed in, and whether the session connected along the way.
    Ready(bool),
}

impl Stage {
    /// Whether a sign-in is running: the button waits while one is.
    pub fn busy(&self) -> (b: bool)
        ensures
            b == (*self is Working),
    {
        match self {
            Stage::Working(_) => true,
            _ => false,
        }
    }
}

/// The line the welcome screen shows for a phase of the sign-in.
pub open spec fn phase_words(phase: crate::auth::AuthPhase) -> Seq<char> {
    match phase {
        crate::auth::AuthPhase::CheckingCache => "Looking for a login on this machine\u{2026}"@,
        crate::auth::AuthPhase::WaitingForBrowser => "Finish in the browser, then come back."@,
        crate::auth::AuthPhase::WaitingForPlayback => "Once more in the browser, to allow playback."@,
        crate::auth::AuthPhase::Connecting => "Connecting to Spotify\u{2026}"@,
        crate::auth::AuthPhase::Ready => "Connected."@,
        crate::auth::AuthPhase::Failed(_) => "That did not work."@,
    }
}

/// The line the welcome screen shows for a phase of the sign-in.
pub fn describe(phase: &crate::auth::AuthPhase) -> (line: &'static str)
    ensures
        line@ == phase_words(*phase),
{
    match phase {
        crate::auth::AuthPhase::CheckingCache => "Looking for a login on this machine\u{2026}",
        crate::auth::AuthPhase::WaitingForBrowser => "Finish in the browser, then come back.",
        crate::auth::AuthPhase::WaitingForPlayback => "Once more in the browser, to allow playback.",
        crate::auth::AuthPhase::Connecting => "Connecting to Spotify\u{2026}",
        crate::auth::AuthPhase::Ready => "Connected.",
        crate::auth::AuthPhase::Failed(_) => "That did not work.",
    }
}

/// What the welcome screen says under its button: the phase while a sign-in runs, the reason
/// once it failed, and nothing otherwise.
pub fn welcome_note(stage: &Stage) -> (note: String)
    ensures
        note@ == (match *stage {
            Stage::Working(phase) => phase_words(phase),
            Stage::Failed(reason) => reason@,
            _ => Seq::empty(),
        }),
{
    match stage {
        Stage::Working(phase) => describe(phase).to_owned(),
        Stage::Failed(reason) => reason.clone(),
        _ => String::new(),
    }
}

/// The words the welcome screen gives a failure to start: a login that came back without a code
/// says so plainly; a failed sign-in says it is one; anything else says what it is. `full` is
/// what the failure says of itself.
pub open spec fn start_words(full: Seq<char>, is_auth: bool) -> Seq<char> {
    if holds_text(full, "Auth code param not found"@) {
        "Spotify gave no code back. The login was refused or closed early."@
    } else if is_auth {
        "Cannot sign in. "@ + full
    } else {
        full
    }
}

/// The words the welcome screen gives a failure to start.
pub fn start_failure(full: &str, is_auth: bool) -> (words: String)
    ensures
        words@ == start_words(full@, is_auth),
{
    if contains_text(full, "Auth code param not found") {
        return "Spotify gave no code back. The login was refused or closed early.".to_owned();
    }
    if is_auth {
        let mut words = "Cannot sign in. ".to_owned();
        words.append(full);
        words
    } else {
        full.to_owned()
    }
}

/// Whether typing `text` into the search field takes the interface to the search: when there is
/// something to search for and it is elsewhere.
pub fn goes_to_search(text: &str, on_search: bool) -> (go: bool)
    ensures
        go == (trim(text@).len() > 0 && !on_search),
{
    let t = trimmed(text);
    !t.as_str().is_empty() && !on_search
}

/// What the mark beside the sync button says: why the account is out of reach, and how to try
/// again; nothing while it is not.
pub fn link_mark(link: &crate::library::Link) -> (why: Option<String>)
    ensures
        *link matches crate::library::Link::Broken(reason) ==> (why matches Some(w) && w@ == reason@ + ". Press to try again."@),
        !(*link is Broken) ==> why is None,
{
    match link {
        crate::library::Link::Broken(reason) => {
            let mut w = reason.clone();
            w.append(". Press to try again.");
            Some(w)
        },
        _ => None,
    }
}

/// What the account menu is called: the account's name, cut to fit, or a plain word before it
/// is known.
pub fn account_name(who: &str) -> (name: String)
    ensures
        who@.len() == 0 ==> name@ == "Account"@,
        who@.len() > 0 ==> name@ == cut_to(who@, 18),
{
    if who.is_empty() {
        "Account".to_owned()
    } else {
        truncate(who, 18)
    }
}

} // verus!
