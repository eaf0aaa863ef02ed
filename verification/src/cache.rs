//! The local copy of the library, as rows.
//!
//! Everything the interface shows is kept in a database, so a second start draws a full window
//! before it has said a word to Spotify. The database itself is the application's; this turns
//! models into the rows it stores and rows back into models. Pictures and artists are kept as one
//! JSON column each.

use vstd::prelude::*;

use crate::direct::{Entry, EntryView, id_texts};
use crate::models::{AlbumId, AlbumRef, ArtistId, ArtistRef, ImageRef, Playlist, PlaylistId, PlaylistKind, Track, TrackId, UserId, UserProfile};
use crate::text::same_text;

verus! {

/// The name the saved tracks are filed under: one no playlist can have.
pub const LIKED: &'static str = "~liked";

/// What the sidebar's own reading is filed under.
pub const LIBRARY: &'static str = "~library";

/// How long a cached list stands on its own, in seconds.
pub const FRESH_S: u64 = 900;

/// A picture as its column holds it: the address, the width and the height.
pub open spec fn image_triples(images: Seq<ImageRef>) -> Seq<(Seq<char>, Option<u32>, Option<u32>)> {
    images.map_values(|i: ImageRef| (i.url@, i.width, i.height))
}

/// An artist as its column holds it: the identifier and the name.
pub open spec fn artist_pairs(artists: Seq<ArtistRef>) -> Seq<(Seq<char>, Seq<char>)> {
    artists.map_values(|a: ArtistRef| (a.id.0@, a.name@))
}

/// What `serde_json::to_string` writes for a list of pictures as triples, or nothing where it
/// fails.
pub uninterp spec fn image_rows_json(rows: Seq<(Seq<char>, Option<u32>, Option<u32>)>) -> Option<Seq<char>>;

/// What `serde_json::from_str` reads from `text` as a list of picture triples, or nothing where
/// it fails.
pub uninterp spec fn image_rows_read(text: Seq<char>) -> Option<Seq<(Seq<char>, Option<u32>, Option<u32>)>>;

/// What `serde_json::to_string` writes for a list of artists as pairs, or nothing where it fails.
pub uninterp spec fn artist_rows_json(rows: Seq<(Seq<char>, Seq<char>)>) -> Option<Seq<char>>;

/// What `serde_json::from_str` reads from `text` as a list of artist pairs, or nothing where it
/// fails.
pub uninterp spec fn artist_rows_read(text: Seq<char>) -> Option<Seq<(Seq<char>, Seq<char>)>>;

/// The views of picture triples.
pub open spec fn triple_views(rows: Seq<(String, Option<u32>, Option<u32>)>) -> Seq<(Seq<char>, Option<u32>, Option<u32>)> {
    rows.map_values(|r: (String, Option<u32>, Option<u32>)| (r.0@, r.1, r.2))
}

/// The views of artist pairs.
pub open spec fn pair_views(rows: Seq<(String, String)>) -> Seq<(Seq<char>, Seq<char>)> {
    rows.map_values(|r: (String, String)| (r.0@, r.1@))
}

/// The text a column holds for what JSON writing gave: an empty list where it failed.
pub open spec fn or_empty_list(text: Option<Seq<char>>) -> Seq<char> {
    match text {
        Some(t) => t,
        None => "[]"@,
    }
}

/// Writes picture triples as JSON.
///
/// Calls `serde_json::to_string`, whose result depends on the rows alone; the contract names it.
#[verifier::external_body]
fn write_image_rows(rows: &Vec<(String, Option<u32>, Option<u32>)>) -> (text: Option<String>)
    ensures
        text is Some <==> image_rows_json(triple_views(rows@)) is Some,
        text matches Some(t) ==> image_rows_json(triple_views(rows@)) == Some(t@),
{
    serde_json::to_string(rows).ok()
}

/// Reads picture triples from JSON.
///
/// Calls `serde_json::from_str`, whose result depends on the text alone; the contract names it.
#[verifier::external_body]
fn read_image_rows(text: &str) -> (rows: Option<Vec<(String, Option<u32>, Option<u32>)>>)
    ensures
        rows is Some <==> image_rows_read(text@) is Some,
        rows matches Some(r) ==> image_rows_read(text@) == Some(triple_views(r@)),
{
    serde_json::from_str::<Vec<(String, Option<u32>, Option<u32>)>>(text).ok()
}

/// Writes artist pairs as JSON.
///
/// Calls `serde_json::to_string`, whose result depends on the rows alone; the contract names it.
#[verifier::external_body]
fn write_artist_rows(rows: &Vec<(String, String)>) -> (text: Option<String>)
    ensures
        text is Some <==> artist_rows_json(pair_views(rows@)) is Some,
        text matches Some(t) ==> artist_rows_json(pair_views(rows@)) == Some(t@),
{
    serde_json::to_string(rows).ok()
}

/// Reads artist pairs from JSON.
///
/// Calls `serde_json::from_str`, whose result depends on the text alone; the contract names it.
#[verifier::external_body]
fn read_artist_rows(text: &str) -> (rows: Option<Vec<(String, String)>>)
    ensures
        rows is Some <==> artist_rows_read(text@) is Some,
        rows matches Some(r) ==> artist_rows_read(text@) == Some(pair_views(r@)),
{
    serde_json::from_str::<Vec<(String, String)>>(text).ok()
}

/// Pictures, as one column.
pub fn images_to(images: &[ImageRef]) -> (text: String)
    ensures
        text@ == or_empty_list(image_rows_json(image_triples(images@))),
{
    let mut rows: Vec<(String, Option<u32>, Option<u32>)> = Vec::new();
    let mut i: usize = 0;
    while i < images.len()
        invariant
            i <= images@.len(),
            triple_views(rows@) == image_triples(images@.take(i as int)),
        decreases images@.len() - i,
    {
        let ghost before = rows@;
        rows.push((images[i].url.clone(), images[i].width, images[i].height));
        proof {
            assert(triple_views(rows@) =~= triple_views(before).push((images@[i as int].url@, images@[i as int].width, images@[i as int].height)));
            assert(image_triples(images@.take(i + 1)) =~= image_triples(images@.take(i as int)).push((images@[i as int].url@, images@[i as int].width, images@[i as int].height)));
        }
        i = i + 1;
    }
    assert(images@.take(i as int) =~= images@);
    match write_image_rows(&rows) {
        Some(t) => t,
        None => {
            proof {
                reveal_strlit("[]");
            }
            "[]".to_owned()
        },
    }
}

/// Pictures, read back: none where the column does not read.
pub fn images_from(text: &str) -> (images: Vec<ImageRef>)
    ensures
        image_triples(images@) == (match image_rows_read(text@) { Some(r) => r, None => Seq::empty() }),
{
    let rows = match read_image_rows(text) {
        Some(r) => r,
        None => {
            let empty: Vec<ImageRef> = Vec::new();
            assert(image_triples(empty@) =~= Seq::<(Seq<char>, Option<u32>, Option<u32>)>::empty());
            return empty;
        },
    };
    let mut images: Vec<ImageRef> = Vec::new();
    let mut i: usize = 0;
    while i < rows.len()
        invariant
            i <= rows@.len(),
            image_triples(images@) == triple_views(rows@.take(i as int)),
        decreases rows@.len() - i,
    {
        let ghost before = images@;
        images.push(ImageRef { url: rows[i].0.clone(), width: rows[i].1, height: rows[i].2 });
        proof {
            assert(image_triples(images@) =~= image_triples(before).push((rows@[i as int].0@, rows@[i as int].1, rows@[i as int].2)));
            assert(triple_views(rows@.take(i + 1)) =~= triple_views(rows@.take(i as int)).push((rows@[i as int].0@, rows@[i as int].1, rows@[i as int].2)));
        }
        i = i + 1;
    }
    assert(rows@.take(i as int) =~= rows@);
    images
}

/// Artists, as one column.
pub fn artists_to(artists: &[ArtistRef]) -> (text: String)
    ensures
        text@ == or_empty_list(artist_rows_json(artist_pairs(artists@))),
{
    let mut rows: Vec<(String, String)> = Vec::new();
    let mut i: usize = 0;
    while i < artists.len()
        invariant
            i <= artists@.len(),
            pair_views(rows@) == artist_pairs(artists@.take(i as int)),
        decreases artists@.len() - i,
    {
        let ghost before = rows@;
        rows.push((artists[i].id.0.clone(), artists[i].name.clone()));
        proof {
            assert(pair_views(rows@) =~= pair_views(before).push((artists@[i as int].id.0@, artists@[i as int].name@)));
            assert(artist_pairs(artists@.take(i + 1)) =~= artist_pairs(artists@.take(i as int)).push((artists@[i as int].id.0@, artists@[i as int].name@)));
        }
        i = i + 1;
    }
    assert(artists@.take(i as int) =~= artists@);
    match write_artist_rows(&rows) {
        Some(t) => t,
        None => {
            proof {
                reveal_strlit("[]");
            }
            "[]".to_owned()
        },
    }
}

/// Artists, read back: none where the column does not read.
pub fn artists_from(text: &str) -> (artists: Vec<ArtistRef>)
    ensures
        artist_pairs(artists@) == (match artist_rows_read(text@) { Some(r) => r, None => Seq::empty() }),
{
    let rows = match read_artist_rows(text) {
        Some(r) => r,
        None => {
            let empty: Vec<ArtistRef> = Vec::new();
            assert(artist_pairs(empty@) =~= Seq::<(Seq<char>, Seq<char>)>::empty());
            return empty;
        },
    };
    let mut artists: Vec<ArtistRef> = Vec::new();
    let mut i: usize = 0;
    while i < rows.len()
        invariant
            i <= rows@.len(),
            artist_pairs(artists@) == pair_views(rows@.take(i as int)),
        decreases rows@.len() - i,
    {
        let ghost before = artists@;
        artists.push(ArtistRef { id: ArtistId(rows[i].0.clone()), name: rows[i].1.clone() });
        proof {
            assert(artist_pairs(artists@) =~= artist_pairs(before).push((rows@[i as int].0@, rows@[i as int].1@)));
            assert(pair_views(rows@.take(i + 1)) =~= pair_views(rows@.take(i as int)).push((rows@[i as int].0@, rows@[i as int].1@)));
        }
        i = i + 1;
    }
    assert(rows@.take(i as int) =~= rows@);
    artists
}

/// Which list a set of tracks belongs to.
#[derive(Debug, PartialEq, Eq)]
pub enum ListKey {
    /// The saved tracks.
    Liked,
    /// One playlist, by identifier.
    Playlist(String),
    /// One album, by identifier.
    Album(String),
}

/// The text a list is filed under.
pub open spec fn key_text(key: ListKey) -> Seq<char> {
    match key {
        ListKey::Liked => "~liked"@,
        ListKey::Playlist(id) => id@,
        ListKey::Album(id) => "album:"@ + id@,
    }
}

impl ListKey {
    /// The text this list is filed under.
    pub fn as_str(&self) -> (text: String)
        ensures
            text@ == key_text(*self),
    {
        match self {
            ListKey::Liked => LIKED.to_owned(),
            ListKey::Playlist(id) => id.clone(),
            ListKey::Album(id) => {
                let mut text = "album:".to_owned();
                text.append(id.as_str());
                text
            },
        }
    }
}

/// Whether a reading at `at`, in seconds since the epoch, is recent at `now`: no older than
/// `within` seconds and not in the future. A list never read is not.
pub open spec fn recent(now: i64, at: Option<i64>, within: u64) -> bool {
    match at {
        Some(a) => {
            let age = if now - a < i64::MIN { i64::MIN as int } else if now - a > i64::MAX { i64::MAX as int } else { now - a };
            let limit = if within > i64::MAX { i64::MAX as int } else { within as int };
            age >= 0 && age < limit
        },
        None => false,
    }
}

/// Whether what was read at `at` was read within `within` seconds of `now`.
pub fn read_within(now: i64, at: Option<i64>, within: u64) -> (r: bool)
    ensures
        r == recent(now, at, within),
{
    match at {
        Some(a) => {
            let wide = now as i128 - a as i128;
            let age: i64 = if wide < -9223372036854775808i128 {
                i64::MIN
            } else if wide > 9223372036854775807i128 {
                i64::MAX
            } else {
                wide as i64
            };
            let limit: i64 = if within > 9223372036854775807u64 { i64::MAX } else { within as i64 };
            age >= 0 && age < limit
        },
        None => false,
    }
}

/// One playlist as the database keeps it.
#[derive(Debug, PartialEq, Eq)]
pub struct PlaylistRow {
    /// Which playlist.
    pub id: String,
    /// What it is called.
    pub name: String,
    /// What it says about itself.
    pub description: String,
    /// `owned` or `followed`.
    pub kind: String,
    /// Who owns it; empty for one this person owns.
    pub owner_name: String,
    /// How many tracks it holds.
    pub total_tracks: i64,
    /// Which version of it was read.
    pub snapshot_id: Option<String>,
    /// Where the sidebar shows it.
    pub position: i64,
    /// Its cover, as JSON.
    pub images: String,
}

/// Whether `row` is how the database keeps `p`, shown at `position`.
pub open spec fn is_row_of(row: PlaylistRow, p: Playlist, position: int) -> bool {
    &&& p.id matches Some(id) && row.id@ == id.0@
    &&& row.name == p.name
    &&& row.description == p.description
    &&& match p.kind {
        PlaylistKind::Owned => row.kind@ == "owned"@ && row.owner_name@.len() == 0,
        PlaylistKind::Followed { owner_name } => row.kind@ == "followed"@ && row.owner_name == owner_name,
        PlaylistKind::Liked => false,
    }
    &&& row.total_tracks == p.total_tracks
    &&& row.snapshot_id == p.snapshot_id
    &&& row.position == position
    &&& row.images@ == or_empty_list(image_rows_json(image_triples(p.images@)))
}

/// Whether the database keeps `p`: a playlist with an identifier, other than the saved tracks.
pub open spec fn is_kept(p: Playlist) -> bool {
    p.id is Some && !(p.kind is Liked)
}

/// Where the kept playlists among the first `n` stand.
pub open spec fn kept_positions(pl: Seq<Playlist>, n: int) -> Seq<int>
    decreases n,
{
    if n <= 0 {
        Seq::empty()
    } else if is_kept(pl[n - 1]) {
        kept_positions(pl, n - 1).push(n - 1)
    } else {
        kept_positions(pl, n - 1)
    }
}

/// The rows the database keeps for `playlists`: one for each with an identifier, other than the
/// saved tracks, each at the place it has in the whole list.
pub fn playlist_rows(playlists: &[Playlist]) -> (rows: Vec<PlaylistRow>)
    requires
        playlists@.len() <= i64::MAX,
    ensures
        rows@.len() == kept_positions(playlists@, playlists@.len() as int).len(),
        forall|i: int| 0 <= i < rows@.len() ==> is_row_of(#[trigger] rows@[i],
            playlists@[kept_positions(playlists@, playlists@.len() as int)[i]],
            kept_positions(playlists@, playlists@.len() as int)[i]),
{
    let mut rows: Vec<PlaylistRow> = Vec::new();
    let mut i: usize = 0;
    while i < playlists.len()
        invariant
            i <= playlists@.len() <= i64::MAX,
            rows@.len() == kept_positions(playlists@, i as int).len(),
            forall|m: int| 0 <= m < rows@.len() ==> is_row_of(#[trigger] rows@[m],
                playlists@[kept_positions(playlists@, i as int)[m]], kept_positions(playlists@, i as int)[m]),
        decreases playlists@.len() - i,
    {
        let ghost before = rows@;
        let p = &playlists[i];
        let kind_owner = match &p.kind {
            PlaylistKind::Owned => Some(("owned".to_owned(), String::new())),
            PlaylistKind::Followed { owner_name } => Some(("followed".to_owned(), owner_name.clone())),
            PlaylistKind::Liked => None,
        };
        proof {
            reveal_strlit("owned");
            reveal_strlit("followed");
        }
        match (&p.id, kind_owner) {
            (Some(id), Some((kind, owner_name))) => {
                rows.push(PlaylistRow {
                    id: id.0.clone(),
                    name: p.name.clone(),
                    description: p.description.clone(),
                    kind,
                    owner_name,
                    total_tracks: p.total_tracks as i64,
                    snapshot_id: match &p.snapshot_id {
                        Some(s) => Some(s.clone()),
                        None => None,
                    },
                    position: i as i64,
                    images: images_to(p.images.as_slice()),
                });
                proof {
                    assert forall|m: int| 0 <= m < rows@.len() implies is_row_of(#[trigger] rows@[m],
                        playlists@[kept_positions(playlists@, i + 1)[m]], kept_positions(playlists@, i + 1)[m]) by {
                        if m < before.len() {
                            assert(rows@[m] == before[m]);
                        }
                    }
                }
            },
            _ => {},
        }
        i = i + 1;
    }
    rows
}

/// Whether `p` is what the row `row` reads back as: `owned` is this person's, anything else
/// somebody else's, and the cover is what its column reads as.
pub open spec fn read_from_row(p: Playlist, row: PlaylistRow) -> bool {
    &&& p.id == Some(PlaylistId(row.id))
    &&& p.name == row.name
    &&& p.description == row.description
    &&& (row.kind@ == "owned"@ ==> p.kind is Owned)
    &&& (row.kind@ != "owned"@ ==> p.kind == (PlaylistKind::Followed { owner_name: row.owner_name }))
    &&& image_triples(p.images@) == (match image_rows_read(row.images@) { Some(r) => r, None => Seq::empty() })
    &&& p.total_tracks == row.total_tracks as u32
    &&& p.snapshot_id == row.snapshot_id
}

/// A playlist, read back from its row.
pub fn playlist_from_row(row: PlaylistRow) -> (p: Playlist)
    ensures
        read_from_row(p, row),
{
    proof {
        reveal_strlit("owned");
    }
    let kind = if same_text(row.kind.as_str(), "owned") {
        PlaylistKind::Owned
    } else {
        PlaylistKind::Followed { owner_name: row.owner_name }
    };
    let images = images_from(row.images.as_str());
    Playlist {
        id: Some(PlaylistId(row.id)),
        name: row.name,
        kind,
        description: row.description,
        images,
        total_tracks: row.total_tracks as u32,
        snapshot_id: row.snapshot_id,
    }
}

/// A playlist the cache keeps comes back as it was, when the cover's column reads back what was
/// written into it.
pub proof fn a_kept_playlist_reads_back(p: Playlist, position: int, row: PlaylistRow, back: Playlist)
    requires
        is_row_of(row, p, position),
        read_from_row(back, row),
        image_rows_read(or_empty_list(image_rows_json(image_triples(p.images@)))) == Some(image_triples(p.images@)),
    ensures
        back.id matches Some(b) && b.0@ == (p.id->0).0@,
        back.name == p.name,
        back.description == p.description,
        back.kind == p.kind,
        image_triples(back.images@) == image_triples(p.images@),
        back.total_tracks == p.total_tracks,
        back.snapshot_id == p.snapshot_id,
{
    reveal_strlit("owned");
    reveal_strlit("followed");
    if p.kind is Followed {
        assert(row.kind@ != "owned"@) by {
            assert(row.kind@[0] == 'f');
        }
    }
}

/// One entry of the arrangement as the database keeps it.
#[derive(Debug, PartialEq, Eq)]
pub struct LayoutRow {
    /// Where it stands, counting every row.
    pub position: i64,
    /// `playlist` or `folder`.
    pub kind: String,
    /// Which playlist or folder.
    pub id: String,
    /// A folder's name; empty for a playlist.
    pub name: String,
    /// The folder a playlist is in, when it is in one.
    pub folder_id: Option<String>,
}

/// A row of the arrangement, as text.
pub enum RowView {
    /// A playlist, and the folder it is in.
    Playlist(Seq<char>, Option<Seq<char>>),
    /// A folder, and its name.
    Folder(Seq<char>, Seq<char>),
}

/// What a row says: a folder where its kind says so, and a playlist otherwise.
pub open spec fn row_view(row: LayoutRow) -> RowView {
    if row.kind@ == "folder"@ {
        RowView::Folder(row.id@, row.name@)
    } else {
        RowView::Playlist(row.id@, match row.folder_id { Some(f) => Some(f@), None => None })
    }
}

/// Whether a row holds in every column what the arrangement writes: a folder with no folder
/// above it, or a playlist row, with an empty name.
pub open spec fn is_written(row: LayoutRow) -> bool {
    if row.kind@ == "folder"@ {
        row.folder_id is None
    } else {
        row.kind@ == "playlist"@ && row.name@.len() == 0
    }
}

/// What rows say.
pub open spec fn row_views(rows: Seq<LayoutRow>) -> Seq<RowView> {
    rows.map_values(|r: LayoutRow| row_view(r))
}

/// The rows one entry is kept as: a playlist's row, or a folder's row and a row for each
/// playlist in it.
pub open spec fn rows_of_entry(e: EntryView) -> Seq<RowView> {
    match e {
        EntryView::Playlist(id) => seq![RowView::Playlist(id, None)],
        EntryView::Folder(fid, name, members) => seq![RowView::Folder(fid, name)]
            + members.map_values(|m: Seq<char>| RowView::Playlist(m, Some(fid))),
    }
}

/// The rows an arrangement is kept as, in order.
pub open spec fn rows_of_entries(entries: Seq<EntryView>) -> Seq<RowView>
    decreases entries.len(),
{
    if entries.len() == 0 {
        Seq::empty()
    } else {
        rows_of_entries(entries.drop_last()) + rows_of_entry(entries.last())
    }
}

/// Where the last folder named `f` stands, or -1.
pub open spec fn last_folder(es: Seq<EntryView>, f: Seq<char>) -> int
    decreases es.len(),
{
    if es.len() == 0 {
        -1
    } else if es.last() matches EntryView::Folder(id, _, _) && id == f {
        es.len() - 1
    } else {
        last_folder(es.drop_last(), f)
    }
}

/// The arrangement `es` after reading one more row: a folder opens at the end; a playlist goes
/// into the last folder of the name its row gives, or at the end when it gives none that has
/// been read.
pub open spec fn read_row(es: Seq<EntryView>, row: RowView) -> Seq<EntryView> {
    match row {
        RowView::Folder(id, name) => es.push(EntryView::Folder(id, name, Seq::empty())),
        RowView::Playlist(id, folder) => match folder {
            Some(f) => {
                let k = last_folder(es, f);
                if k >= 0 {
                    match es[k] {
                        EntryView::Folder(fid, fname, members) => es.update(k, EntryView::Folder(fid, fname, members.push(id))),
                        _ => es,
                    }
                } else {
                    es.push(EntryView::Playlist(id))
                }
            },
            None => es.push(EntryView::Playlist(id)),
        },
    }
}

/// The arrangement `es` after reading `rows`, in order.
pub open spec fn read_rows(es: Seq<EntryView>, rows: Seq<RowView>) -> Seq<EntryView>
    decreases rows.len(),
{
    if rows.len() == 0 {
        es
    } else {
        read_row(read_rows(es, rows.drop_last()), rows.last())
    }
}

/// The rows an arrangement is kept as: a position counting every row, and each folder's
/// playlists right after it.
pub fn layout_rows(entries: &[Entry]) -> (rows: Vec<LayoutRow>)
    requires
        rows_of_entries(crate::library::entry_views(entries@)).len() <= i64::MAX,
    ensures
        row_views(rows@) == rows_of_entries(crate::library::entry_views(entries@)),
        forall|i: int| 0 <= i < rows@.len() ==> (#[trigger] rows@[i]).position == i,
        forall|i: int| 0 <= i < rows@.len() ==> is_written(#[trigger] rows@[i]),
{
    proof {
        reveal_strlit("folder");
        reveal_strlit("playlist");
    }
    let ghost ev = crate::library::entry_views(entries@);
    let mut rows: Vec<LayoutRow> = Vec::new();
    let mut e: usize = 0;
    while e < entries.len()
        invariant
            ev == crate::library::entry_views(entries@),
            rows_of_entries(ev).len() <= i64::MAX,
            e <= entries@.len(),
            row_views(rows@) == rows_of_entries(ev.take(e as int)),
            forall|i: int| 0 <= i < rows@.len() ==> (#[trigger] rows@[i]).position == i,
            forall|i: int| 0 <= i < rows@.len() ==> is_written(#[trigger] rows@[i]),
        decreases entries@.len() - e,
    {
        proof {
            assert(ev.take(e + 1).drop_last() =~= ev.take(e as int));
            assert(ev.take(e + 1).last() == ev[e as int]);
            lemma_rows_grow(ev, e + 1);
        }
        let ghost before = rows@;
        proof {
            reveal_strlit("folder");
            reveal_strlit("playlist");
            assert("playlist"@ != "folder"@) by {
                assert("playlist"@[0] == 'p');
                assert("folder"@[0] == 'f');
            }
        }
        match &entries[e] {
            Entry::Playlist(id) => {
                rows.push(LayoutRow {
                    position: rows.len() as i64,
                    kind: "playlist".to_owned(),
                    id: id.0.clone(),
                    name: String::new(),
                    folder_id: None,
                });
                proof {
                    assert(row_views(rows@) =~= row_views(before) + rows_of_entry(ev[e as int]));
                }
            },
            Entry::Folder { id, name, playlists } => {
                rows.push(LayoutRow {
                    position: rows.len() as i64,
                    kind: "folder".to_owned(),
                    id: id.clone(),
                    name: name.clone(),
                    folder_id: None,
                });
                let ghost members = id_texts(playlists@);
                let ghost head = row_views(rows@);
                proof {
                    assert(head =~= row_views(before) + seq![RowView::Folder(id@, name@)]);
                }
                let mut j: usize = 0;
                while j < playlists.len()
                    invariant
                        j <= playlists@.len(),
                        members == id_texts(playlists@),
                        rows@.len() == head.len() + j,
                        rows@.len() + playlists@.len() - j <= rows_of_entries(ev).len(),
                        rows_of_entries(ev).len() <= i64::MAX,
                        row_views(rows@) == head + members.take(j as int).map_values(|m: Seq<char>| RowView::Playlist(m, Some(id@))),
                        forall|i: int| 0 <= i < rows@.len() ==> (#[trigger] rows@[i]).position == i,
                        forall|i: int| 0 <= i < rows@.len() ==> is_written(#[trigger] rows@[i]),
                    decreases playlists@.len() - j,
                {
                    proof {
                        reveal_strlit("folder");
                        reveal_strlit("playlist");
                        assert("playlist"@ != "folder"@) by {
                            assert("playlist"@[0] == 'p');
                            assert("folder"@[0] == 'f');
                        }
                    }
                    let ghost inner = rows@;
                    rows.push(LayoutRow {
                        position: rows.len() as i64,
                        kind: "playlist".to_owned(),
                        id: playlists[j].0.clone(),
                        name: String::new(),
                        folder_id: Some(id.clone()),
                    });
                    proof {
                        assert(members.take(j + 1) =~= members.take(j as int).push(members[j as int]));
                        assert(row_views(rows@) =~= row_views(inner).push(RowView::Playlist(members[j as int], Some(id@))));
                        assert(row_views(rows@) =~= head + members.take(j + 1).map_values(|m: Seq<char>| RowView::Playlist(m, Some(id@))));
                    }
                    j = j + 1;
                }
                proof {
                    assert(members.take(j as int) =~= members);
                    assert(row_views(rows@) =~= row_views(before) + rows_of_entry(ev[e as int]));
                }
            },
        }
        e = e + 1;
    }
    assert(ev.take(e as int) =~= ev);
    rows
}

/// An arrangement keeps at least the rows of what it starts with.
proof fn lemma_rows_grow(entries: Seq<EntryView>, n: int)
    requires
        0 <= n <= entries.len(),
    ensures
        rows_of_entries(entries.take(n)).len() <= rows_of_entries(entries).len(),
        n > 0 ==> rows_of_entries(entries.take(n - 1)).len() + rows_of_entry(entries[n - 1]).len() <= rows_of_entries(entries).len(),
    decreases entries.len(),
{
    if n < entries.len() {
        assert(entries.drop_last().take(n) =~= entries.take(n));
        if n > 0 {
            assert(entries.drop_last().take(n - 1) =~= entries.take(n - 1));
            assert(entries.drop_last()[n - 1] == entries[n - 1]);
        }
        lemma_rows_grow(entries.drop_last(), n);
    } else {
        assert(entries.take(n) =~= entries);
        if n > 0 {
            assert(entries.take(n - 1) =~= entries.drop_last());
        }
    }
}

/// Where the last folder named `f` stands among `entries`.
fn find_folder(entries: &Vec<Entry>, f: &str) -> (k: Option<usize>)
    ensures
        last_folder(crate::library::entry_views(entries@), f@) < 0 ==> k is None,
        last_folder(crate::library::entry_views(entries@), f@) >= 0 ==> (k matches Some(i) && i == last_folder(crate::library::entry_views(entries@), f@)),
        last_folder(crate::library::entry_views(entries@), f@) < entries@.len(),
{
    let ghost ev = crate::library::entry_views(entries@);
    proof {
        lemma_last_folder_bounds(ev, f@);
    }
    let mut i: usize = entries.len();
    assert(ev.take(i as int) =~= ev);
    while i > 0
        invariant
            i <= ev.len(),
            ev == crate::library::entry_views(entries@),
            last_folder(ev, f@) == last_folder(ev.take(i as int), f@),
        decreases i,
    {
        proof {
            assert(ev.take(i as int).drop_last() =~= ev.take(i - 1));
            assert(ev.take(i as int).last() == ev[i - 1]);
        }
        let named = match &entries[i - 1] {
            Entry::Folder { id, .. } => same_text(id.as_str(), f),
            Entry::Playlist(_) => false,
        };
        if named {
            return Some(i - 1);
        }
        i = i - 1;
    }
    None
}

/// The last folder named `f` stands among the entries.
proof fn lemma_last_folder_bounds(es: Seq<EntryView>, f: Seq<char>)
    ensures
        -1 <= last_folder(es, f) < es.len(),
        last_folder(es, f) >= 0 ==> es[last_folder(es, f)] is Folder,
    decreases es.len(),
{
    if es.len() > 0 {
        lemma_last_folder_bounds(es.drop_last(), f);
    }
}

/// The arrangement, read back from its rows: a folder where a row says folder, and a playlist
/// into the last folder its row names, or at the top level.
pub fn layout_from_rows(rows: &[LayoutRow]) -> (entries: Vec<Entry>)
    ensures
        crate::library::entry_views(entries@) == read_rows(Seq::empty(), row_views(rows@)),
{
    proof {
        reveal_strlit("folder");
    }
    let mut entries: Vec<Entry> = Vec::new();
    let mut i: usize = 0;
    assert(crate::library::entry_views(entries@) =~= Seq::<EntryView>::empty());
    while i < rows.len()
        invariant
            i <= rows@.len(),
            crate::library::entry_views(entries@) == read_rows(Seq::empty(), row_views(rows@.take(i as int))),
        decreases rows@.len() - i,
    {
        let ghost before = crate::library::entry_views(entries@);
        proof {
            assert(row_views(rows@.take(i + 1)) =~= row_views(rows@.take(i as int)).push(row_view(rows@[i as int])));
            assert(row_views(rows@.take(i + 1)).drop_last() =~= row_views(rows@.take(i as int)));
        }
        let row = &rows[i];
        if same_text(row.kind.as_str(), "folder") {
            entries.push(Entry::Folder { id: row.id.clone(), name: row.name.clone(), playlists: Vec::new() });
            proof {
                assert(id_texts(Seq::<PlaylistId>::empty()) =~= Seq::<Seq<char>>::empty());
                assert(crate::library::entry_views(entries@) =~= read_row(before, row_view(*row)));
            }
        } else {
            let at = match &row.folder_id {
                Some(f) => find_folder(&entries, f.as_str()),
                None => None,
            };
            match at {
                Some(k) => {
                    proof {
                        lemma_last_folder_bounds(before, row.folder_id->0@);
                    }
                    let updated = match &entries[k] {
                        Entry::Folder { id, name, playlists } => {
                            let mut members = playlists.clone();
                            let ghost old_members = playlists@;
                            assert(members@ =~= old_members);
                            members.push(PlaylistId(row.id.clone()));
                            proof {
                                assert(id_texts(members@) =~= id_texts(old_members).push(row.id@));
                            }
                            Some(Entry::Folder { id: id.clone(), name: name.clone(), playlists: members })
                        },
                        Entry::Playlist(_) => None,
                    };
                    match updated {
                        Some(entry) => {
                            entries.set(k, entry);
                        },
                        None => {},
                    }
                    proof {
                        assert(crate::library::entry_views(entries@) =~= read_row(before, row_view(*row)));
                    }
                },
                None => {
                    entries.push(Entry::Playlist(PlaylistId(row.id.clone())));
                    proof {
                        assert(crate::library::entry_views(entries@) =~= read_row(before, row_view(*row)));
                    }
                },
            }
        }
        i = i + 1;
    }
    assert(rows@.take(i as int) =~= rows@);
    entries
}

/// Reading rows one run after another is reading them all.
proof fn lemma_read_rows_concat(es: Seq<EntryView>, a: Seq<RowView>, b: Seq<RowView>)
    ensures
        read_rows(es, a + b) == read_rows(read_rows(es, a), b),
    decreases b.len(),
{
    if b.len() == 0 {
        assert(a + b =~= a);
    } else {
        assert((a + b).drop_last() =~= a + b.drop_last());
        assert((a + b).last() == b.last());
        lemma_read_rows_concat(es, a, b.drop_last());
    }
}

/// Reading a folder's member rows, right after its own row, fills that folder.
proof fn lemma_read_members(es: Seq<EntryView>, fid: Seq<char>, name: Seq<char>, members: Seq<Seq<char>>, j: int)
    requires
        0 <= j <= members.len(),
    ensures
        read_rows(es.push(EntryView::Folder(fid, name, Seq::empty())),
            members.take(j).map_values(|m: Seq<char>| RowView::Playlist(m, Some(fid))))
            == es.push(EntryView::Folder(fid, name, members.take(j))),
    decreases j,
{
    let rows = members.take(j).map_values(|m: Seq<char>| RowView::Playlist(m, Some(fid)));
    if j == 0 {
        assert(members.take(0) =~= Seq::<Seq<char>>::empty());
        assert(rows.len() == 0);
    } else {
        lemma_read_members(es, fid, name, members, j - 1);
        assert(rows.drop_last() =~= members.take(j - 1).map_values(|m: Seq<char>| RowView::Playlist(m, Some(fid))));
        assert(rows.last() == RowView::Playlist(members[j - 1], Some(fid)));
        let filled = es.push(EntryView::Folder(fid, name, members.take(j - 1)));
        assert(filled.drop_last() =~= es);
        assert(last_folder(filled, fid) == es.len());
        assert(members.take(j - 1).push(members[j - 1]) =~= members.take(j));
        assert(filled.update(es.len() as int, EntryView::Folder(fid, name, members.take(j - 1).push(members[j - 1])))
            =~= es.push(EntryView::Folder(fid, name, members.take(j))));
    }
}

/// What the cache keeps of an arrangement reads back as it was.
pub proof fn the_arrangement_reads_back(entries: Seq<EntryView>)
    ensures
        read_rows(Seq::empty(), rows_of_entries(entries)) == entries,
    decreases entries.len(),
{
    if entries.len() > 0 {
        let rest = entries.drop_last();
        the_arrangement_reads_back(rest);
        lemma_read_rows_concat(Seq::empty(), rows_of_entries(rest), rows_of_entry(entries.last()));
        match entries.last() {
            EntryView::Playlist(id) => {
                let one = seq![RowView::Playlist(id, None)];
                assert(one.drop_last() =~= Seq::<RowView>::empty());
                assert(read_rows(rest, Seq::<RowView>::empty()) == rest);
                assert(read_rows(rest, one) == read_row(rest, one.last()));
                assert(rest.push(EntryView::Playlist(id)) =~= entries);
            },
            EntryView::Folder(fid, name, members) => {
                let head = seq![RowView::Folder(fid, name)];
                let tail = members.map_values(|m: Seq<char>| RowView::Playlist(m, Some(fid)));
                lemma_read_rows_concat(rest, head, tail);
                assert(head.drop_last() =~= Seq::<RowView>::empty());
                assert(read_rows(rest, Seq::<RowView>::empty()) == rest);
                assert(read_rows(rest, head) == rest.push(EntryView::Folder(fid, name, Seq::empty())));
                lemma_read_members(rest, fid, name, members, members.len() as int);
                assert(members.take(members.len() as int) =~= members);
                assert(rest.push(EntryView::Folder(fid, name, members)) =~= entries);
            },
        }
    }
}

/// One track as the database keeps it.
#[derive(Debug, PartialEq, Eq)]
pub struct TrackRow {
    /// Which track.
    pub id: String,
    /// What it is called.
    pub name: String,
    /// Who made it, as JSON.
    pub artists: String,
    /// Which album it is on, when it is on one.
    pub album_id: Option<String>,
    /// The album's name; empty with no album.
    pub album_name: String,
    /// The album's cover, as JSON.
    pub album_images: String,
    /// How long it runs, in milliseconds.
    pub duration_ms: i64,
    /// One for an explicit track, zero otherwise.
    pub explicit: i64,
    /// One for a track this market can play, zero otherwise.
    pub playable: i64,
    /// Which number it is on its album.
    pub track_number: i64,
}

/// Whether `row` is how the database keeps `t`.
pub open spec fn is_track_row(row: TrackRow, t: Track) -> bool {
    &&& row.id@ == t.id.0@
    &&& row.name == t.name
    &&& row.artists@ == or_empty_list(artist_rows_json(artist_pairs(t.artists@)))
    &&& row.album_id == (match t.album { Some(a) => Some(a.id.0), None => None })
    &&& row.album_name@ == (match t.album { Some(a) => a.name@, None => Seq::empty() })
    &&& row.album_images@ == (match t.album { Some(a) => or_empty_list(image_rows_json(image_triples(a.images@))), None => "[]"@ })
    &&& row.duration_ms == (if t.duration_ms > i64::MAX { i64::MAX as int } else { t.duration_ms as int })
    &&& row.explicit == (if t.explicit { 1int } else { 0int })
    &&& row.playable == (if t.playable { 1int } else { 0int })
    &&& row.track_number == t.track_number
}

/// The row the database keeps a track as.
pub fn track_row(t: &Track) -> (row: TrackRow)
    ensures
        is_track_row(row, *t),
{
    proof {
        reveal_strlit("[]");
    }
    let (album_id, album_name, album_images) = match &t.album {
        Some(a) => (Some(a.id.0.clone()), a.name.clone(), images_to(a.images.as_slice())),
        None => (None, String::new(), "[]".to_owned()),
    };
    TrackRow {
        id: t.id.0.clone(),
        name: t.name.clone(),
        artists: artists_to(t.artists.as_slice()),
        album_id,
        album_name,
        album_images,
        duration_ms: if t.duration_ms > 9223372036854775807u64 { i64::MAX } else { t.duration_ms as i64 },
        explicit: if t.explicit { 1 } else { 0 },
        playable: if t.playable { 1 } else { 0 },
        track_number: t.track_number as i64,
    }
}

/// Whether `t` is what `row` reads back as, with its length read by `duration` and its number
/// by `number`.
pub open spec fn read_track(t: Track, row: TrackRow, duration: u64, number: u32) -> bool {
    &&& t.id == TrackId(row.id)
    &&& t.name == row.name
    &&& artist_pairs(t.artists@) == (match artist_rows_read(row.artists@) { Some(r) => r, None => Seq::empty() })
    &&& (row.album_id is None ==> t.album is None)
    &&& (row.album_id matches Some(id) ==> (t.album matches Some(a)
        && a.id == AlbumId(id)
        && a.name == row.album_name
        && image_triples(a.images@) == (match image_rows_read(row.album_images@) { Some(r) => r, None => Seq::empty() })))
    &&& t.duration_ms == duration
    &&& t.explicit == (row.explicit != 0)
    &&& t.playable == (row.playable != 0)
    &&& t.track_number == number
}

/// A track of a list, read back from its row. The length and the number are taken as they are
/// stored, cut to their widths.
pub fn track_from_row(row: TrackRow) -> (t: Track)
    ensures
        read_track(t, row, row.duration_ms as u64, row.track_number as u32),
{
    let artists = artists_from(row.artists.as_str());
    let album = match row.album_id {
        Some(id) => Some(AlbumRef { id: AlbumId(id), name: row.album_name, images: images_from(row.album_images.as_str()) }),
        None => None,
    };
    Track {
        id: TrackId(row.id),
        name: row.name,
        artists,
        album,
        duration_ms: row.duration_ms as u64,
        explicit: row.explicit != 0,
        playable: row.playable != 0,
        track_number: row.track_number as u32,
    }
}

/// A track found by identifier, read back from its row. A length or a number out of range reads
/// as zero.
pub fn known_track_from_row(row: TrackRow) -> (t: Track)
    ensures
        read_track(t, row,
            (if 0 <= row.duration_ms { row.duration_ms as u64 } else { 0u64 }),
            (if 0 <= row.track_number <= u32::MAX { row.track_number as u32 } else { 0u32 })),
{
    let duration: u64 = if row.duration_ms >= 0 { row.duration_ms as u64 } else { 0 };
    let number: u32 = if row.track_number >= 0 && row.track_number <= 4294967295i64 { row.track_number as u32 } else { 0 };
    let artists = artists_from(row.artists.as_str());
    let album = match row.album_id {
        Some(id) => Some(AlbumRef { id: AlbumId(id), name: row.album_name, images: images_from(row.album_images.as_str()) }),
        None => None,
    };
    Track {
        id: TrackId(row.id),
        name: row.name,
        artists,
        album,
        duration_ms: duration,
        explicit: row.explicit != 0,
        playable: row.playable != 0,
        track_number: number,
    }
}

/// A track the cache keeps comes back as it was, when its length fits the column and the JSON
/// columns read back what was written into them.
pub proof fn a_kept_track_reads_back(t: Track, row: TrackRow, back: Track)
    requires
        is_track_row(row, t),
        read_track(back, row, row.duration_ms as u64, row.track_number as u32),
        t.duration_ms <= i64::MAX,
        artist_rows_read(or_empty_list(artist_rows_json(artist_pairs(t.artists@)))) == Some(artist_pairs(t.artists@)),
        t.album matches Some(a) ==> image_rows_read(or_empty_list(image_rows_json(image_triples(a.images@)))) == Some(image_triples(a.images@)),
    ensures
        back.id.0@ == t.id.0@,
        back.name == t.name,
        artist_pairs(back.artists@) == artist_pairs(t.artists@),
        back.album is Some <==> t.album is Some,
        back.album matches Some(b) ==> (t.album matches Some(a) && b.id == a.id && b.name@ == a.name@
            && image_triples(b.images@) == image_triples(a.images@)),
        back.duration_ms == t.duration_ms,
        back.explicit == t.explicit,
        back.playable == t.playable,
        back.track_number == t.track_number,
{
}

/// One entry of a list as the database keeps it: the list it is in, where it stands, and which
/// track it is.
#[derive(Debug, PartialEq, Eq)]
pub struct ListRow {
    /// The text the list is filed under.
    pub list: String,
    /// Where it stands in the list.
    pub position: i64,
    /// Which track.
    pub track_id: String,
}

/// Whether `row` is the entry at `position` of the list filed under `key`, for `t`.
pub open spec fn is_list_row(row: ListRow, key: Seq<char>, position: int, t: Track) -> bool {
    &&& row.list@ == key
    &&& row.position == position
    &&& row.track_id@ == t.id.0@
}

/// The entries a list is kept as: one per track, at positions counting from zero.
pub fn list_rows(list: &ListKey, tracks: &[Track]) -> (rows: Vec<ListRow>)
    requires
        tracks@.len() <= i64::MAX,
    ensures
        rows@.len() == tracks@.len(),
        forall|i: int| 0 <= i < rows@.len() ==> is_list_row(#[trigger] rows@[i], key_text(*list), i, tracks@[i]),
{
    let key = list.as_str();
    let mut rows: Vec<ListRow> = Vec::new();
    let mut i: usize = 0;
    while i < tracks.len()
        invariant
            i <= tracks@.len(),
            tracks@.len() <= i64::MAX,
            key@ == key_text(*list),
            rows@.len() == i,
            forall|k: int| 0 <= k < rows@.len() ==> is_list_row(#[trigger] rows@[k], key_text(*list), k, tracks@[k]),
        decreases tracks@.len() - i,
    {
        rows.push(ListRow { list: key.clone(), position: i as i64, track_id: tracks[i].id.0.clone() });
        i = i + 1;
    }
    rows
}

/// Where the last stored track row for `id` stands, or -1. Writing a track replaces what was
/// kept for it, so the last written is what a read finds.
pub open spec fn last_row_for(stored: Seq<TrackRow>, id: Seq<char>) -> int
    decreases stored.len(),
{
    if stored.len() == 0 {
        -1
    } else if stored.last().id@ == id {
        stored.len() - 1
    } else {
        last_row_for(stored.drop_last(), id)
    }
}

/// For each entry of the list filed under `key`, in the order given, where its track's row
/// stands among `stored`; entries of other lists, and entries whose track is not kept, give none.
pub open spec fn joined(key: Seq<char>, rows: Seq<ListRow>, stored: Seq<TrackRow>) -> Seq<int>
    decreases rows.len(),
{
    if rows.len() == 0 {
        Seq::empty()
    } else {
        let rest = joined(key, rows.drop_last(), stored);
        let r = rows.last();
        if r.list@ == key && last_row_for(stored, r.track_id@) >= 0 {
            rest.push(last_row_for(stored, r.track_id@))
        } else {
            rest
        }
    }
}

/// A copy of a stored row.
fn copy_row(row: &TrackRow) -> (r: TrackRow)
    ensures
        r == *row,
{
    TrackRow {
        id: row.id.clone(),
        name: row.name.clone(),
        artists: row.artists.clone(),
        album_id: match &row.album_id {
            Some(a) => Some(a.clone()),
            None => None,
        },
        album_name: row.album_name.clone(),
        album_images: row.album_images.clone(),
        duration_ms: row.duration_ms,
        explicit: row.explicit,
        playable: row.playable,
        track_number: row.track_number,
    }
}

/// Where the last of `stored` for `id` stands.
fn find_row(stored: &[TrackRow], id: &str) -> (k: Option<usize>)
    ensures
        last_row_for(stored@, id@) < 0 ==> k is None,
        last_row_for(stored@, id@) >= 0 ==> (k matches Some(i) && i == last_row_for(stored@, id@) && i < stored@.len()),
{
    let mut i: usize = stored.len();
    assert(stored@.take(i as int) =~= stored@);
    while i > 0
        invariant
            i <= stored@.len(),
            last_row_for(stored@, id@) == last_row_for(stored@.take(i as int), id@),
        decreases i,
    {
        proof {
            assert(stored@.take(i as int).drop_last() =~= stored@.take(i - 1));
            assert(stored@.take(i as int).last() == stored@[i - 1]);
        }
        if same_text(stored[i - 1].id.as_str(), id) {
            return Some(i - 1);
        }
        i = i - 1;
    }
    None
}

/// The tracks of the list filed under `list`, read from its entries, which come in position
/// order, and from the stored track rows: each entry as the row kept for its track.
pub fn list_from_rows(list: &ListKey, rows: &[ListRow], stored: &[TrackRow]) -> (tracks: Vec<Track>)
    ensures
        tracks@.len() == joined(key_text(*list), rows@, stored@).len(),
        forall|i: int| 0 <= i < tracks@.len() ==> {
            let k = #[trigger] joined(key_text(*list), rows@, stored@)[i];
            &&& 0 <= k < stored@.len()
            &&& read_track(tracks@[i], stored@[k], stored@[k].duration_ms as u64, stored@[k].track_number as u32)
        },
{
    let key = list.as_str();
    let mut tracks: Vec<Track> = Vec::new();
    let mut i: usize = 0;
    while i < rows.len()
        invariant
            i <= rows@.len(),
            key@ == key_text(*list),
            tracks@.len() == joined(key@, rows@.take(i as int), stored@).len(),
            forall|m: int| 0 <= m < tracks@.len() ==> {
                let k = #[trigger] joined(key@, rows@.take(i as int), stored@)[m];
                &&& 0 <= k < stored@.len()
                &&& read_track(tracks@[m], stored@[k], stored@[k].duration_ms as u64, stored@[k].track_number as u32)
            },
        decreases rows@.len() - i,
    {
        let ghost before = joined(key@, rows@.take(i as int), stored@);
        let ghost old_tracks = tracks@;
        proof {
            assert(rows@.take(i + 1).drop_last() =~= rows@.take(i as int));
            assert(rows@.take(i + 1).last() == rows@[i as int]);
        }
        if same_text(rows[i].list.as_str(), key.as_str()) {
            match find_row(stored, rows[i].track_id.as_str()) {
                Some(k) => {
                    let t = track_from_row(copy_row(&stored[k]));
                    tracks.push(t);
                    proof {
                        let after = joined(key@, rows@.take(i + 1), stored@);
                        assert(after == before.push(k as int));
                        assert forall|m: int| 0 <= m < tracks@.len() implies {
                            let k2 = #[trigger] after[m];
                            &&& 0 <= k2 < stored@.len()
                            &&& read_track(tracks@[m], stored@[k2], stored@[k2].duration_ms as u64, stored@[k2].track_number as u32)
                        } by {
                            if m < old_tracks.len() {
                                assert(after[m] == before[m]);
                                assert(tracks@[m] == old_tracks[m]);
                            }
                        }
                    }
                },
                None => {},
            }
        }
        i = i + 1;
    }
    assert(rows@.take(i as int) =~= rows@);
    tracks
}

/// Whether no two of `tracks` share an identifier.
pub open spec fn distinct_ids(tracks: Seq<Track>) -> bool {
    forall|a: int, b: int| 0 <= a < b < tracks.len() ==> tracks[a].id.0@ != tracks[b].id.0@
}

/// With the rows of distinct tracks stored in their order, the track at `i` is found at `i`.
proof fn lemma_found_at(tracks: Seq<Track>, stored: Seq<TrackRow>, i: int)
    requires
        distinct_ids(tracks),
        stored.len() == tracks.len(),
        forall|j: int| 0 <= j < stored.len() ==> (#[trigger] stored[j]).id@ == tracks[j].id.0@,
        0 <= i < tracks.len(),
    ensures
        last_row_for(stored, tracks[i].id.0@) == i,
    decreases stored.len(),
{
    if i < stored.len() - 1 {
        assert(stored.last().id@ == tracks[stored.len() - 1].id.0@);
        let ts = tracks.drop_last();
        let ss = stored.drop_last();
        assert forall|j: int| 0 <= j < ss.len() implies (#[trigger] ss[j]).id@ == ts[j].id.0@ by {
            assert(ss[j] == stored[j]);
        }
        assert(ts[i] == tracks[i]);
        lemma_found_at(ts, ss, i);
    }
}

/// A list of distinct tracks the cache keeps reads back in its order: its entries, stored with
/// each track's row, give each track from the row written for it, the one at its position.
pub proof fn a_kept_list_reads_back(key: Seq<char>, tracks: Seq<Track>, rows: Seq<ListRow>, stored: Seq<TrackRow>)
    requires
        distinct_ids(tracks),
        rows.len() == tracks.len(),
        forall|i: int| 0 <= i < rows.len() ==> is_list_row(#[trigger] rows[i], key, i, tracks[i]),
        stored.len() == tracks.len(),
        forall|i: int| 0 <= i < stored.len() ==> is_track_row(#[trigger] stored[i], tracks[i]),
    ensures
        joined(key, rows, stored) == Seq::new(tracks.len(), |i: int| i),
{
    assert forall|j: int| 0 <= j < stored.len() implies (#[trigger] stored[j]).id@ == tracks[j].id.0@ by {
        assert(is_track_row(stored[j], tracks[j]));
    }
    lemma_joined_prefix(key, tracks, rows, stored, rows.len() as int);
    assert(rows.take(rows.len() as int) =~= rows);
}

/// The first `m` entries of a kept list join to the positions `0..m`.
proof fn lemma_joined_prefix(key: Seq<char>, tracks: Seq<Track>, rows: Seq<ListRow>, stored: Seq<TrackRow>, m: int)
    requires
        distinct_ids(tracks),
        rows.len() == tracks.len(),
        forall|i: int| 0 <= i < rows.len() ==> is_list_row(#[trigger] rows[i], key, i, tracks[i]),
        stored.len() == tracks.len(),
        forall|j: int| 0 <= j < stored.len() ==> (#[trigger] stored[j]).id@ == tracks[j].id.0@,
        0 <= m <= rows.len(),
    ensures
        joined(key, rows.take(m), stored) == Seq::new(m as nat, |i: int| i),
    decreases m,
{
    if m == 0 {
        assert(rows.take(0) =~= Seq::<ListRow>::empty());
        assert(Seq::new(0nat, |i: int| i) =~= Seq::<int>::empty());
    } else {
        lemma_joined_prefix(key, tracks, rows, stored, m - 1);
        assert(rows.take(m).drop_last() =~= rows.take(m - 1));
        assert(rows.take(m).last() == rows[m - 1]);
        assert(is_list_row(rows[m - 1], key, m - 1, tracks[m - 1]));
        lemma_found_at(tracks, stored, m - 1);
        assert(Seq::new(m as nat, |i: int| i) =~= Seq::new((m - 1) as nat, |i: int| i).push(m - 1));
    }
}

/// Who is signed in, as the database keeps it.
#[derive(Debug, PartialEq, Eq)]
pub struct ProfileRow {
    /// Which account.
    pub id: String,
    /// What they are called.
    pub display_name: String,
    /// Which plan they are on.
    pub product: String,
    /// Their picture, as JSON.
    pub images: String,
}

/// The row the database keeps the account as.
pub fn profile_row(profile: &UserProfile) -> (row: ProfileRow)
    ensures
        row.id@ == profile.id.0@,
        row.display_name == profile.display_name,
        row.product == profile.product,
        row.images@ == or_empty_list(image_rows_json(image_triples(profile.images@))),
{
    ProfileRow {
        id: profile.id.0.clone(),
        display_name: profile.display_name.clone(),
        product: profile.product.clone(),
        images: images_to(profile.images.as_slice()),
    }
}

/// The account, read back from its row.
pub fn profile_from_row(row: ProfileRow) -> (profile: UserProfile)
    ensures
        profile.id == UserId(row.id),
        profile.display_name == row.display_name,
        profile.product == row.product,
        image_triples(profile.images@) == (match image_rows_read(row.images@) { Some(r) => r, None => Seq::empty() }),
{
    let images = images_from(row.images.as_str());
    UserProfile { id: UserId(row.id), display_name: row.display_name, images, product: row.product }
}

} // verus!
