//! What the interface shows.
//!
//! These types hold what the Web API returns, in the shape the interface reads. Identifiers are
//! newtypes: a playlist identifier and a track identifier are both text, and the type system keeps
//! them apart. Lengths of time are whole milliseconds.

use vstd::prelude::*;
use vstd::std_specs::cmp::PartialEqSpecImpl;
use vstd::std_specs::convert::FromSpecImpl;

verus! {

/// A track.
#[derive(Debug, Hash, PartialOrd, Ord)]
pub struct TrackId(pub String);

impl TrackId {
    /// The identifier as text.
    pub fn as_str(&self) -> (s: &str)
        ensures
            s@ == self.0@,
    {
        self.0.as_str()
    }

    /// The Spotify URI for this identifier.
    pub fn uri(&self) -> (u: String)
        ensures
            u@ == "spotify:track:"@ + self.0@,
    {
        let mut u = "spotify:track:".to_owned();
        u.append(self.0.as_str());
        u
    }
}

impl Clone for TrackId {
    fn clone(&self) -> (r: Self)
        ensures
            r == *self,
    {
        TrackId(self.0.clone())
    }
}

impl PartialEq for TrackId {
    fn eq(&self, other: &Self) -> (r: bool) {
        self.0 == other.0
    }
}

impl Eq for TrackId {}

impl PartialEqSpecImpl for TrackId {
    open spec fn obeys_eq_spec() -> bool {
        true
    }

    open spec fn eq_spec(&self, other: &Self) -> bool {
        self.0@ == other.0@
    }
}

impl From<String> for TrackId {
    fn from(value: String) -> (r: Self) {
        TrackId(value)
    }
}

impl FromSpecImpl<String> for TrackId {
    open spec fn obeys_from_spec() -> bool {
        true
    }

    open spec fn from_spec(v: String) -> Self {
        TrackId(v)
    }
}

/// An album.
#[derive(Debug, Hash, PartialOrd, Ord)]
pub struct AlbumId(pub String);

impl AlbumId {
    /// The identifier as text.
    pub fn as_str(&self) -> (s: &str)
        ensures
            s@ == self.0@,
    {
        self.0.as_str()
    }

    /// The Spotify URI for this identifier.
    pub fn uri(&self) -> (u: String)
        ensures
            u@ == "spotify:album:"@ + self.0@,
    {
        let mut u = "spotify:album:".to_owned();
        u.append(self.0.as_str());
        u
    }
}

impl Clone for AlbumId {
    fn clone(&self) -> (r: Self)
        ensures
            r == *self,
    {
        AlbumId(self.0.clone())
    }
}

impl PartialEq for AlbumId {
    fn eq(&self, other: &Self) -> (r: bool) {
        self.0 == other.0
    }
}

impl Eq for AlbumId {}

impl PartialEqSpecImpl for AlbumId {
    open spec fn obeys_eq_spec() -> bool {
        true
    }

    open spec fn eq_spec(&self, other: &Self) -> bool {
        self.0@ == other.0@
    }
}

impl From<String> for AlbumId {
    fn from(value: String) -> (r: Self) {
        AlbumId(value)
    }
}

impl FromSpecImpl<String> for AlbumId {
    open spec fn obeys_from_spec() -> bool {
        true
    }

    open spec fn from_spec(v: String) -> Self {
        AlbumId(v)
    }
}

/// An artist.
#[derive(Debug, Hash, PartialOrd, Ord)]
pub struct ArtistId(pub String);

impl ArtistId {
    /// The identifier as text.
    pub fn as_str(&self) -> (s: &str)
        ensures
            s@ == self.0@,
    {
        self.0.as_str()
    }

    /// The Spotify URI for this identifier.
    pub fn uri(&self) -> (u: String)
        ensures
            u@ == "spotify:artist:"@ + self.0@,
    {
        let mut u = "spotify:artist:".to_owned();
        u.append(self.0.as_str());
        u
    }
}

impl Clone for ArtistId {
    fn clone(&self) -> (r: Self)
        ensures
            r == *self,
    {
        ArtistId(self.0.clone())
    }
}

impl PartialEq for ArtistId {
    fn eq(&self, other: &Self) -> (r: bool) {
        self.0 == other.0
    }
}

impl Eq for ArtistId {}

impl PartialEqSpecImpl for ArtistId {
    open spec fn obeys_eq_spec() -> bool {
        true
    }

    open spec fn eq_spec(&self, other: &Self) -> bool {
        self.0@ == other.0@
    }
}

impl From<String> for ArtistId {
    fn from(value: String) -> (r: Self) {
        ArtistId(value)
    }
}

impl FromSpecImpl<String> for ArtistId {
    open spec fn obeys_from_spec() -> bool {
        true
    }

    open spec fn from_spec(v: String) -> Self {
        ArtistId(v)
    }
}

/// A playlist.
#[derive(Debug, Hash, PartialOrd, Ord)]
pub struct PlaylistId(pub String);

impl PlaylistId {
    /// The identifier as text.
    pub fn as_str(&self) -> (s: &str)
        ensures
            s@ == self.0@,
    {
        self.0.as_str()
    }

    /// The Spotify URI for this identifier.
    pub fn uri(&self) -> (u: String)
        ensures
            u@ == "spotify:playlist:"@ + self.0@,
    {
        let mut u = "spotify:playlist:".to_owned();
        u.append(self.0.as_str());
        u
    }
}

impl Clone for PlaylistId {
    fn clone(&self) -> (r: Self)
        ensures
            r == *self,
    {
        PlaylistId(self.0.clone())
    }
}

impl PartialEq for PlaylistId {
    fn eq(&self, other: &Self) -> (r: bool) {
        self.0 == other.0
    }
}

impl Eq for PlaylistId {}

impl PartialEqSpecImpl for PlaylistId {
    open spec fn obeys_eq_spec() -> bool {
        true
    }

    open spec fn eq_spec(&self, other: &Self) -> bool {
        self.0@ == other.0@
    }
}

impl From<String> for PlaylistId {
    fn from(value: String) -> (r: Self) {
        PlaylistId(value)
    }
}

impl FromSpecImpl<String> for PlaylistId {
    open spec fn obeys_from_spec() -> bool {
        true
    }

    open spec fn from_spec(v: String) -> Self {
        PlaylistId(v)
    }
}

/// A person.
#[derive(Debug, Hash, PartialOrd, Ord)]
pub struct UserId(pub String);

impl UserId {
    /// The identifier as text.
    pub fn as_str(&self) -> (s: &str)
        ensures
            s@ == self.0@,
    {
        self.0.as_str()
    }

    /// The Spotify URI for this identifier.
    pub fn uri(&self) -> (u: String)
        ensures
            u@ == "spotify:user:"@ + self.0@,
    {
        let mut u = "spotify:user:".to_owned();
        u.append(self.0.as_str());
        u
    }
}

impl Clone for UserId {
    fn clone(&self) -> (r: Self)
        ensures
            r == *self,
    {
        UserId(self.0.clone())
    }
}

impl PartialEq for UserId {
    fn eq(&self, other: &Self) -> (r: bool) {
        self.0 == other.0
    }
}

impl Eq for UserId {}

impl PartialEqSpecImpl for UserId {
    open spec fn obeys_eq_spec() -> bool {
        true
    }

    open spec fn eq_spec(&self, other: &Self) -> bool {
        self.0@ == other.0@
    }
}

impl From<String> for UserId {
    fn from(value: String) -> (r: Self) {
        UserId(value)
    }
}

impl FromSpecImpl<String> for UserId {
    open spec fn obeys_from_spec() -> bool {
        true
    }

    open spec fn from_spec(v: String) -> Self {
        UserId(v)
    }
}

/// One picture, at one size.
#[derive(Debug, PartialEq, Eq)]
pub struct ImageRef {
    /// Where to fetch it.
    pub url: String,
    /// How wide it is, when the API says.
    pub width: Option<u32>,
    /// How tall it is, when the API says.
    pub height: Option<u32>,
}

impl Clone for ImageRef {
    fn clone(&self) -> (r: Self)
        ensures
            r == *self,
    {
        ImageRef { url: self.url.clone(), width: self.width, height: self.height }
    }
}

/// The width a picture is judged by: the one the API gave, or 640 when it gave none.
pub open spec fn judged_width(image: ImageRef) -> int {
    match image.width {
        Some(w) => w as int,
        None => 640,
    }
}

/// How far a picture is from the width wanted.
pub open spec fn width_distance(image: ImageRef, want: u32) -> int {
    let w = judged_width(image);
    if w >= want { w - want } else { want - w }
}

/// Whether `k` is the first index of a picture nearest `want`.
pub open spec fn is_first_nearest(images: Seq<ImageRef>, want: u32, k: int) -> bool {
    &&& 0 <= k < images.len()
    &&& forall|j: int| 0 <= j < images.len() ==> width_distance(images[k], want) <= width_distance(#[trigger] images[j], want)
    &&& forall|j: int| 0 <= j < k ==> width_distance(images[k], want) < width_distance(#[trigger] images[j], want)
}

/// Picks the picture nearest `want` pixels wide.
///
/// A list wants a small picture and a header wants a large one. Of pictures equally near, the
/// first is taken. A picture with no stated width counts as 640 wide.
pub fn pick_image(images: &[ImageRef], want: u32) -> (picked: Option<&ImageRef>)
    ensures
        images@.len() == 0 <==> picked.is_none(),
        picked matches Some(p) ==> exists|k: int| is_first_nearest(images@, want, k) && *p == images@[k],
{
    if images.len() == 0 {
        return None;
    }
    let mut best: usize = 0;
    let mut best_distance: u32 = distance(&images[0], want);
    let mut i: usize = 1;
    while i < images.len()
        invariant
            1 <= i <= images@.len(),
            best < i,
            best_distance as int == width_distance(images@[best as int], want),
            forall|j: int| 0 <= j < i ==> width_distance(images@[best as int], want) <= width_distance(#[trigger] images@[j], want),
            forall|j: int| 0 <= j < best ==> width_distance(images@[best as int], want) < width_distance(#[trigger] images@[j], want),
        decreases images@.len() - i,
    {
        let d = distance(&images[i], want);
        if d < best_distance {
            best = i;
            best_distance = d;
        }
        i = i + 1;
    }
    assert(is_first_nearest(images@, want, best as int));
    Some(&images[best])
}

/// The distance of one picture from `want`.
fn distance(image: &ImageRef, want: u32) -> (d: u32)
    ensures
        d as int == width_distance(*image, want),
{
    let width: u32 = match image.width {
        Some(w) => w,
        None => 640,
    };
    if width >= want { width - want } else { want - width }
}

/// An artist, as named by something else.
#[derive(Debug, PartialEq, Eq)]
pub struct ArtistRef {
    /// Which artist.
    pub id: ArtistId,
    /// What they are called.
    pub name: String,
}

impl Clone for ArtistRef {
    fn clone(&self) -> (r: Self)
        ensures
            r == *self,
    {
        ArtistRef { id: self.id.clone(), name: self.name.clone() }
    }
}

/// An album, as named by something else.
#[derive(Debug, PartialEq, Eq)]
pub struct AlbumRef {
    /// Which album.
    pub id: AlbumId,
    /// What it is called.
    pub name: String,
    /// Its cover.
    pub images: Vec<ImageRef>,
}

impl AlbumRef {
    /// Whether two references say the same thing.
    pub open spec fn same(&self, other: &AlbumRef) -> bool {
        &&& self.id == other.id
        &&& self.name == other.name
        &&& self.images@ == other.images@
    }
}

impl Clone for AlbumRef {
    fn clone(&self) -> (r: Self)
        ensures
            r.same(self),
    {
        let images = self.images.clone();
        assert(images@ =~= self.images@);
        AlbumRef { id: self.id.clone(), name: self.name.clone(), images }
    }
}

/// Whether two optional album references say the same thing.
pub open spec fn same_album(a: Option<AlbumRef>, b: Option<AlbumRef>) -> bool {
    match (a, b) {
        (Some(x), Some(y)) => x.same(&y),
        (None, None) => true,
        _ => false,
    }
}

/// One track.
#[derive(Debug, PartialEq, Eq)]
pub struct Track {
    /// Which track.
    pub id: TrackId,
    /// What it is called.
    pub name: String,
    /// Who made it.
    pub artists: Vec<ArtistRef>,
    /// Which album it is on. A local file has none.
    pub album: Option<AlbumRef>,
    /// How long it runs, in milliseconds.
    pub duration_ms: u64,
    /// Whether it carries an explicit-content mark.
    pub explicit: bool,
    /// Whether this market can play it.
    pub playable: bool,
    /// Which number it is on its album.
    pub track_number: u32,
}

impl Track {
    /// Whether two tracks say the same thing, field by field.
    pub open spec fn same(&self, other: &Track) -> bool {
        &&& self.id == other.id
        &&& self.name == other.name
        &&& self.artists@ == other.artists@
        &&& same_album(self.album, other.album)
        &&& self.duration_ms == other.duration_ms
        &&& self.explicit == other.explicit
        &&& self.playable == other.playable
        &&& self.track_number == other.track_number
    }

    /// Every artist, in one line.
    pub fn artist_line(&self) -> (line: String)
        ensures
            line@ == join(artist_names(self.artists@), ", "@),
    {
        let mut line = String::new();
        let mut i: usize = 0;
        while i < self.artists.len()
            invariant
                i <= self.artists@.len(),
                line@ == join(artist_names(self.artists@.take(i as int)), ", "@),
            decreases self.artists@.len() - i,
        {
            let ghost before = artist_names(self.artists@.take(i as int));
            proof {
                assert(artist_names(self.artists@.take(i + 1)) =~= before.push(self.artists@[i as int].name@));
                assert(before.push(self.artists@[i as int].name@).drop_last() =~= before);
            }
            if i > 0 {
                line.append(", ");
            }
            line.append(self.artists[i].name.as_str());
            i = i + 1;
        }
        assert(self.artists@.take(i as int) =~= self.artists@);
        line
    }
}

impl Clone for Track {
    fn clone(&self) -> (r: Self)
        ensures
            r.same(self),
    {
        let artists = self.artists.clone();
        assert(artists@ =~= self.artists@);
        let album = match &self.album {
            Some(a) => Some(a.clone()),
            None => None,
        };
        Track {
            id: self.id.clone(),
            name: self.name.clone(),
            artists,
            album,
            duration_ms: self.duration_ms,
            explicit: self.explicit,
            playable: self.playable,
            track_number: self.track_number,
        }
    }
}

/// The names of these artists.
pub open spec fn artist_names(artists: Seq<ArtistRef>) -> Seq<Seq<char>> {
    artists.map_values(|a: ArtistRef| a.name@)
}

/// `parts` with `sep` between each two of them.
pub open spec fn join(parts: Seq<Seq<char>>, sep: Seq<char>) -> Seq<char>
    decreases parts.len(),
{
    if parts.len() == 0 {
        Seq::empty()
    } else if parts.len() == 1 {
        parts[0]
    } else {
        join(parts.drop_last(), sep) + sep + parts.last()
    }
}

/// What kind of release an album is.
#[derive(Debug, Clone, Copy, PartialEq, Eq, Structural)]
pub enum AlbumKind {
    /// A full album.
    Album,
    /// A single or an EP.
    Single,
    /// A compilation.
    Compilation,
}

impl Default for AlbumKind {
    fn default() -> (k: Self)
        ensures
            k == AlbumKind::Album,
    {
        AlbumKind::Album
    }
}

/// One album.
#[derive(Debug, PartialEq, Eq)]
pub struct Album {
    /// Which album.
    pub id: AlbumId,
    /// What it is called.
    pub name: String,
    /// Who made it.
    pub artists: Vec<ArtistRef>,
    /// Its cover, at every size offered.
    pub images: Vec<ImageRef>,
    /// The year it came out.
    pub year: Option<u16>,
    /// How many tracks it holds.
    pub total_tracks: u32,
    /// What kind of release it is.
    pub kind: AlbumKind,
}

/// One artist.
#[derive(Debug, PartialEq, Eq)]
pub struct Artist {
    /// Which artist.
    pub id: ArtistId,
    /// What they are called.
    pub name: String,
    /// Their picture, at every size offered.
    pub images: Vec<ImageRef>,
    /// What they are filed under.
    pub genres: Vec<String>,
    /// How many people follow them.
    pub followers: Option<u64>,
}

/// What kind of playlist this is, and what may be done to it.
#[derive(Debug, PartialEq, Eq)]
pub enum PlaylistKind {
    /// Saved tracks. Spotify builds this one and the API reaches it through its own endpoints.
    Liked,
    /// A playlist this person owns. Everything may be edited.
    Owned,
    /// A playlist somebody else owns, including the ones Spotify makes. Read it only.
    Followed {
        /// Who owns it.
        owner_name: String,
    },
}

impl Clone for PlaylistKind {
    fn clone(&self) -> (r: Self)
        ensures
            r == *self,
    {
        match self {
            PlaylistKind::Liked => PlaylistKind::Liked,
            PlaylistKind::Owned => PlaylistKind::Owned,
            PlaylistKind::Followed { owner_name } => PlaylistKind::Followed { owner_name: owner_name.clone() },
        }
    }
}

impl PlaylistKind {
    /// Whether this person may change the tracks in it.
    pub fn is_editable(&self) -> (editable: bool)
        ensures
            editable <==> *self is Owned,
    {
        match self {
            PlaylistKind::Owned => true,
            _ => false,
        }
    }
}

/// One playlist.
#[derive(Debug, PartialEq, Eq)]
pub struct Playlist {
    /// Which playlist. Saved tracks have no identifier.
    pub id: Option<PlaylistId>,
    /// What it is called.
    pub name: String,
    /// What kind it is.
    pub kind: PlaylistKind,
    /// What it says about itself.
    pub description: String,
    /// Its cover, at every size offered.
    pub images: Vec<ImageRef>,
    /// How many tracks it holds.
    pub total_tracks: u32,
    /// Which version of it was read. Send this back with an edit.
    pub snapshot_id: Option<String>,
}

impl Playlist {
    /// Whether two playlists say the same thing, field by field.
    pub open spec fn same(&self, other: &Playlist) -> bool {
        &&& self.id == other.id
        &&& self.name == other.name
        &&& self.kind == other.kind
        &&& self.description == other.description
        &&& self.images@ == other.images@
        &&& self.total_tracks == other.total_tracks
        &&& self.snapshot_id == other.snapshot_id
    }
}

impl Clone for Playlist {
    fn clone(&self) -> (r: Self)
        ensures
            r.same(self),
    {
        let images = self.images.clone();
        assert(images@ =~= self.images@);
        let id = match &self.id {
            Some(id) => Some(id.clone()),
            None => None,
        };
        let snapshot_id = match &self.snapshot_id {
            Some(s) => Some(s.clone()),
            None => None,
        };
        Playlist {
            id,
            name: self.name.clone(),
            kind: self.kind.clone(),
            description: self.description.clone(),
            images,
            total_tracks: self.total_tracks,
            snapshot_id,
        }
    }
}

/// One row of the sidebar.
///
/// The account arranges its playlists, sometimes in folders. This is that arrangement, with the
/// playlists themselves rather than their identifiers.
#[derive(Debug, PartialEq, Eq)]
pub enum LibraryNode {
    /// A playlist at the top level.
    Playlist(Playlist),
    /// A folder, and what is inside it.
    Folder {
        /// What the account calls it.
        id: String,
        /// What it is named.
        name: String,
        /// What it holds, in order.
        playlists: Vec<Playlist>,
    },
}

/// One page of a list the API hands out in parts.
#[derive(Debug, PartialEq, Eq)]
pub struct Page<T> {
    /// What this page holds.
    pub items: Vec<T>,
    /// How many items there are in total.
    pub total: u32,
    /// Where this page starts.
    pub offset: u32,
    /// Whether everything in this range was actually read.
    ///
    /// False when Spotify rate limited part of it. The items are still worth showing, and they are
    /// not worth keeping.
    pub whole: bool,
    /// How much of the list this page got through.
    ///
    /// This is larger than `items` whenever something in the range could not be read. What pages
    /// through a list must count this rather than the items, or a list holding one unreadable
    /// track never reaches its end.
    pub covered: u32,
}

/// Where the page after one at `offset` that covered `covered` starts: their sum, held at the
/// largest `u32`.
pub open spec fn next_offset_of(offset: u32, covered: u32) -> u32 {
    if offset + covered > u32::MAX { u32::MAX } else { (offset + covered) as u32 }
}

impl<T> Page<T> {
    /// Where the page after this one starts.
    pub fn next_offset(&self) -> (next: u32)
        ensures
            next == next_offset_of(self.offset, self.covered),
    {
        self.offset.saturating_add(self.covered)
    }

    /// Whether another page follows this one.
    ///
    /// A page that covered nothing is the end, whatever the total says.
    pub fn has_more(&self) -> (more: bool)
        ensures
            more <==> self.covered > 0 && next_offset_of(self.offset, self.covered) < self.total,
    {
        self.covered > 0 && self.next_offset() < self.total
    }
}

/// Who is signed in.
#[derive(Debug, PartialEq, Eq)]
pub struct UserProfile {
    /// Which account.
    pub id: UserId,
    /// What they are called.
    pub display_name: String,
    /// Their picture.
    pub images: Vec<ImageRef>,
    /// Which plan they are on.
    pub product: String,
}

/// What a search returned.
#[derive(Debug, PartialEq, Eq)]
pub struct SearchResults {
    /// Tracks that matched.
    pub tracks: Vec<Track>,
    /// Artists that matched.
    pub artists: Vec<Artist>,
    /// Albums that matched.
    pub albums: Vec<Album>,
    /// Playlists that matched.
    pub playlists: Vec<Playlist>,
}

impl SearchResults {
    /// Whether nothing matched.
    pub fn is_empty(&self) -> (empty: bool)
        ensures
            empty <==> self.tracks@.len() == 0 && self.artists@.len() == 0 && self.albums@.len() == 0
                && self.playlists@.len() == 0,
    {
        self.tracks.len() == 0 && self.artists.len() == 0 && self.albums.len() == 0
            && self.playlists.len() == 0
    }
}

} // verus!
