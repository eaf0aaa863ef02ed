//! The shapes the Web API sends, and how they become the types the interface reads.
//!
//! Every field the application does not draw is left out. A field Spotify may omit is an
//! [`Option`], because a missing field must not fail a whole page of tracks. Reading JSON into
//! these shapes is the application's business; this module turns them into models.

use vstd::prelude::*;

use crate::models::{
    Album, AlbumId, AlbumKind, AlbumRef, Artist, ArtistId, ArtistRef, ImageRef, Page, Playlist,
    PlaylistId, PlaylistKind, SearchResults, Track, TrackId, UserId, UserProfile,
};
use crate::text::same_text;
use vstd::std_specs::convert::FromSpecImpl;

verus! {

/// One page of anything.
#[derive(Debug)]
pub struct Paged<T> {
    /// What the reply held, with `None` where it held `null`.
    pub items: Vec<Option<T>>,
    /// How many items there are in total.
    pub total: u32,
    /// Where this page starts.
    pub offset: u32,
}

/// The items that are there, in order.
pub open spec fn present<T>(items: Seq<Option<T>>) -> Seq<T>
    decreases items.len(),
{
    if items.len() == 0 {
        Seq::empty()
    } else {
        match items.last() {
            Some(t) => present(items.drop_last()).push(t),
            None => present(items.drop_last()),
        }
    }
}

/// Whether `out` is what `convert` made of `inputs`, one call each, keeping what came back as
/// `Some`, in order.
pub open spec fn kept_from<T, U, F: Fn(T) -> Option<U>>(convert: F, inputs: Seq<T>, out: Seq<U>) -> bool
    decreases inputs.len(),
{
    if inputs.len() == 0 {
        out.len() == 0
    } else {
        exists|r: Option<U>|
            #[trigger] call_ensures(convert, (inputs.last(),), r) && match r {
                Some(u) => out.len() > 0 && out.last() == u && kept_from(convert, inputs.drop_last(), out.drop_last()),
                None => kept_from(convert, inputs.drop_last(), out),
            }
    }
}

/// The count `n`, held at the largest `u32`.
pub open spec fn capped(n: nat) -> u32 {
    if n > u32::MAX { u32::MAX } else { n as u32 }
}

impl<T> Paged<T> {
    /// This page, with whatever the API left out dropped.
    ///
    /// The page covers what the reply held before anything was dropped: that is how far the list
    /// was read, and the caller pages by it.
    pub fn map_into<U, F: Fn(T) -> Option<U>>(self, convert: F) -> (page: Page<U>)
        requires
            forall|t: T| #[trigger] convert.requires((t,)),
        ensures
            page.total == self.total,
            page.offset == self.offset,
            page.whole,
            page.covered == capped(self.items@.len()),
            kept_from(convert, present(self.items@), page.items@),
    {
        let total = self.total;
        let offset = self.offset;
        let n = self.items.len();
        let covered: u32 = if n > 4294967295usize { 4294967295u32 } else { n as u32 };
        let ghost all = self.items@;
        let mut source = self.items;
        let mut backwards: Vec<Option<T>> = Vec::new();
        // Take the entries off the back, so that they can be handed out from the front.
        while source.len() > 0
            invariant
                source@.len() <= all.len(),
                source@ == all.take(source@.len() as int),
                backwards@ == all.skip(source@.len() as int).reverse(),
            decreases source@.len(),
        {
            let ghost before = source@;
            let entry = source.pop().unwrap();
            let ghost back = backwards@;
            backwards.push(entry);
            proof {
                let m = source@.len() as int;
                assert(source@ =~= all.take(m));
                assert(backwards@ =~= all.skip(m).reverse()) by {
                    assert(all.skip(m) =~= seq![entry].add(all.skip(m + 1)));
                    assert(all.skip(m + 1).reverse() =~= back);
                }
            }
        }
        proof {
            assert(all.skip(0) =~= all);
            assert(all.take(0) =~= Seq::<Option<T>>::empty());
            assert(kept_from(convert, present(all.take(0)), Seq::<U>::empty()));
        }
        let mut items: Vec<U> = Vec::new();
        let ghost mut k: int = 0;
        while backwards.len() > 0
            invariant
                0 <= k <= all.len(),
                backwards@ == all.skip(k).reverse(),
                forall|t: T| #[trigger] convert.requires((t,)),
                kept_from(convert, present(all.take(k)), items@),
            decreases backwards@.len(),
        {
            let ghost back = backwards@;
            let entry = backwards.pop().unwrap();
            proof {
                assert(entry == all[k]);
                assert(backwards@ =~= all.skip(k + 1).reverse());
                assert(all.take(k + 1).drop_last() =~= all.take(k));
                assert(all.take(k + 1).last() == all[k]);
            }
            let ghost kept = present(all.take(k));
            let ghost before = items@;
            if let Some(t) = entry {
                let ghost t0 = t;
                let r = convert(t);
                if let Some(u) = r {
                    items.push(u);
                    proof {
                        assert(items@.drop_last() =~= before);
                        assert(kept.push(t0).drop_last() =~= kept);
                        assert(call_ensures(convert, (kept.push(t0).last(),), r));
                    }
                } else {
                    proof {
                        assert(kept.push(t0).drop_last() =~= kept);
                        assert(call_ensures(convert, (kept.push(t0).last(),), r));
                    }
                }
            }
            proof {
                k = k + 1;
            }
        }
        proof {
            assert(all.skip(k).reverse().len() == 0);
            assert(all.take(k) =~= all);
        }
        Page { items, total, offset, whole: true, covered }
    }
}

/// A picture.
#[derive(Debug)]
pub struct Image {
    /// Where to fetch it.
    pub url: String,
    /// How wide it is, when the API says.
    pub width: Option<u32>,
    /// How tall it is, when the API says.
    pub height: Option<u32>,
}

/// The picture `image` describes.
pub open spec fn image_ref_of(image: Image) -> ImageRef {
    ImageRef { url: image.url, width: image.width, height: image.height }
}

impl From<Image> for ImageRef {
    fn from(image: Image) -> (r: Self) {
        ImageRef { url: image.url, width: image.width, height: image.height }
    }
}

impl FromSpecImpl<Image> for ImageRef {
    open spec fn obeys_from_spec() -> bool {
        true
    }

    open spec fn from_spec(image: Image) -> ImageRef {
        image_ref_of(image)
    }
}

/// The pictures these describe, in order.
pub open spec fn image_refs(images: Seq<Image>) -> Seq<ImageRef> {
    images.map_values(|i: Image| image_ref_of(i))
}

/// These pictures, as the interface reads them.
fn convert_images(images: Vec<Image>) -> (out: Vec<ImageRef>)
    ensures
        out@ == image_refs(images@),
{
    let ghost all = images@;
    let mut source = images;
    let mut out: Vec<ImageRef> = Vec::new();
    let mut backwards: Vec<Image> = Vec::new();
    while source.len() > 0
        invariant
            source@.len() <= all.len(),
            source@ == all.take(source@.len() as int),
            backwards@ == all.skip(source@.len() as int).reverse(),
        decreases source@.len(),
    {
        let ghost back = backwards@;
        let image = source.pop().unwrap();
        backwards.push(image);
        proof {
            let m = source@.len() as int;
            assert(source@ =~= all.take(m));
            assert(all.skip(m) =~= seq![image].add(all.skip(m + 1)));
            assert(backwards@ =~= all.skip(m).reverse());
        }
    }
    proof {
        assert(all.skip(0) =~= all);
    }
    let ghost mut k: int = 0;
    while backwards.len() > 0
        invariant
            0 <= k <= all.len(),
            backwards@ == all.skip(k).reverse(),
            out@ == image_refs(all.take(k)),
        decreases backwards@.len(),
    {
        let image = backwards.pop().unwrap();
        proof {
            assert(image == all[k]);
            assert(backwards@ =~= all.skip(k + 1).reverse());
        }
        out.push(ImageRef { url: image.url, width: image.width, height: image.height });
        proof {
            assert(out@ =~= image_refs(all.take(k + 1)));
            k = k + 1;
        }
    }
    proof {
        assert(all.take(k) =~= all);
    }
    out
}

/// An artist, as named by something else.
#[derive(Debug)]
pub struct SimpleArtist {
    /// Which artist, when the API says.
    pub id: Option<String>,
    /// What they are called.
    pub name: String,
}

/// The artist `a` names, when the API gave an identifier for them.
pub open spec fn artist_ref_of(a: SimpleArtist) -> Option<ArtistRef> {
    match a.id {
        Some(id) => Some(ArtistRef { id: ArtistId(id), name: a.name }),
        None => None,
    }
}

/// The artists these name, leaving out the ones with no identifier.
pub open spec fn artist_refs(artists: Seq<SimpleArtist>) -> Seq<ArtistRef>
    decreases artists.len(),
{
    if artists.len() == 0 {
        Seq::empty()
    } else {
        match artist_ref_of(artists.last()) {
            Some(r) => artist_refs(artists.drop_last()).push(r),
            None => artist_refs(artists.drop_last()),
        }
    }
}

impl SimpleArtist {
    /// This artist, if the API gave an identifier for them.
    pub fn into_ref(self) -> (r: Option<ArtistRef>)
        ensures
            r == artist_ref_of(self),
    {
        match self.id {
            Some(id) => Some(ArtistRef { id: ArtistId(id), name: self.name }),
            None => None,
        }
    }
}

/// These artists, leaving out the ones with no identifier.
fn convert_artists(artists: Vec<SimpleArtist>) -> (out: Vec<ArtistRef>)
    ensures
        out@ == artist_refs(artists@),
{
    let ghost all = artists@;
    let mut source = artists;
    let mut out: Vec<ArtistRef> = Vec::new();
    let mut backwards: Vec<SimpleArtist> = Vec::new();
    while source.len() > 0
        invariant
            source@.len() <= all.len(),
            source@ == all.take(source@.len() as int),
            backwards@ == all.skip(source@.len() as int).reverse(),
        decreases source@.len(),
    {
        let artist = source.pop().unwrap();
        backwards.push(artist);
        proof {
            let m = source@.len() as int;
            assert(source@ =~= all.take(m));
            assert(all.skip(m) =~= seq![artist].add(all.skip(m + 1)));
            assert(backwards@ =~= all.skip(m).reverse());
        }
    }
    proof {
        assert(all.skip(0) =~= all);
        assert(all.take(0) =~= Seq::<SimpleArtist>::empty());
    }
    let ghost mut k: int = 0;
    while backwards.len() > 0
        invariant
            0 <= k <= all.len(),
            backwards@ == all.skip(k).reverse(),
            out@ == artist_refs(all.take(k)),
        decreases backwards@.len(),
    {
        let artist = backwards.pop().unwrap();
        proof {
            assert(artist == all[k]);
            assert(backwards@ =~= all.skip(k + 1).reverse());
            assert(all.take(k + 1).drop_last() =~= all.take(k));
            assert(all.take(k + 1).last() == all[k]);
        }
        match artist.into_ref() {
            Some(r) => out.push(r),
            None => {},
        }
        proof {
            k = k + 1;
        }
    }
    proof {
        assert(all.take(k) =~= all);
    }
    out
}

/// An album, as named by something else.
#[derive(Debug)]
pub struct SimpleAlbum {
    /// Which album, when the API says.
    pub id: Option<String>,
    /// What it is called.
    pub name: String,
    /// Its cover, at every size offered.
    pub images: Vec<Image>,
    /// When it came out, as the API writes it.
    pub release_date: Option<String>,
    /// How many tracks it holds.
    pub total_tracks: u32,
    /// What kind of release it is, as the API writes it.
    pub album_type: Option<String>,
    /// Who made it.
    pub artists: Vec<SimpleArtist>,
}

/// Whether `b` is an ASCII decimal digit.
pub open spec fn is_decimal_digit(b: u8) -> bool {
    48 <= b <= 57
}

/// The year at the start of a date: its first four bytes read as a number, as `str::parse` reads
/// one: four digits, or a plus sign and three.
pub open spec fn year_of(date: Seq<char>) -> Option<u16> {
    let b = vstd::utf8::encode_utf8(date);
    if b.len() < 4 {
        None
    } else if is_decimal_digit(b[0]) && is_decimal_digit(b[1]) && is_decimal_digit(b[2]) && is_decimal_digit(b[3]) {
        Some(((b[0] - 48) * 1000 + (b[1] - 48) * 100 + (b[2] - 48) * 10 + (b[3] - 48)) as u16)
    } else if b[0] == 43 && is_decimal_digit(b[1]) && is_decimal_digit(b[2]) && is_decimal_digit(b[3]) {
        Some(((b[1] - 48) * 100 + (b[2] - 48) * 10 + (b[3] - 48)) as u16)
    } else {
        None
    }
}

/// The year a release date starts with.
fn year(date: &str) -> (y: Option<u16>)
    ensures
        y == year_of(date@),
{
    let b = date.as_bytes();
    if b.len() < 4 {
        return None;
    }
    let d1 = b[1];
    let d2 = b[2];
    let d3 = b[3];
    if !(48 <= d1 && d1 <= 57 && 48 <= d2 && d2 <= 57 && 48 <= d3 && d3 <= 57) {
        return None;
    }
    let low: u16 = ((d1 - 48) as u16) * 100 + ((d2 - 48) as u16) * 10 + ((d3 - 48) as u16);
    let d0 = b[0];
    if 48 <= d0 && d0 <= 57 {
        Some(((d0 - 48) as u16) * 1000 + low)
    } else if d0 == 43 {
        Some(low)
    } else {
        None
    }
}

/// What kind of release `album_type` names: a single, a compilation, or else an album.
pub open spec fn kind_of(album_type: Option<String>) -> AlbumKind {
    match album_type {
        Some(t) => if t@ == "single"@ {
            AlbumKind::Single
        } else if t@ == "compilation"@ {
            AlbumKind::Compilation
        } else {
            AlbumKind::Album
        },
        None => AlbumKind::Album,
    }
}

/// Whether `album` is what the interface reads of `simple`.
pub open spec fn is_album_of(album: Album, simple: SimpleAlbum) -> bool {
    &&& simple.id is Some
    &&& album.id == AlbumId(simple.id->0)
    &&& album.name == simple.name
    &&& album.artists@ == artist_refs(simple.artists@)
    &&& album.images@ == image_refs(simple.images@)
    &&& album.year == (match simple.release_date { Some(d) => year_of(d@), None => None })
    &&& album.total_tracks == simple.total_tracks
    &&& album.kind == kind_of(simple.album_type)
}

/// Whether `r` is the reference to `simple`.
pub open spec fn is_album_ref_of(r: AlbumRef, simple: SimpleAlbum) -> bool {
    &&& simple.id is Some
    &&& r.id == AlbumId(simple.id->0)
    &&& r.name == simple.name
    &&& r.images@ == image_refs(simple.images@)
}

impl SimpleAlbum {
    /// This album as a reference, if the API gave an identifier for it.
    pub fn into_ref(self) -> (r: Option<AlbumRef>)
        ensures
            r is Some <==> self.id is Some,
            r matches Some(a) ==> is_album_ref_of(a, self),
    {
        match self.id {
            Some(id) => Some(AlbumRef { id: AlbumId(id), name: self.name, images: convert_images(self.images) }),
            None => None,
        }
    }

    /// This album in full, if the API gave an identifier for it.
    pub fn into_album(self) -> (r: Option<Album>)
        ensures
            r is Some <==> self.id is Some,
            r matches Some(a) ==> is_album_of(a, self),
    {
        let kind = match &self.album_type {
            Some(t) => if same_text(t.as_str(), "single") {
                AlbumKind::Single
            } else if same_text(t.as_str(), "compilation") {
                AlbumKind::Compilation
            } else {
                AlbumKind::Album
            },
            None => AlbumKind::Album,
        };
        let year = match &self.release_date {
            Some(date) => year(date.as_str()),
            None => None,
        };
        match self.id {
            Some(id) => Some(Album {
                id: AlbumId(id),
                name: self.name,
                artists: convert_artists(self.artists),
                images: convert_images(self.images),
                year,
                total_tracks: self.total_tracks,
                kind,
            }),
            None => None,
        }
    }
}

/// An artist in full.
#[derive(Debug)]
pub struct FullArtist {
    /// Which artist, when the API says.
    pub id: Option<String>,
    /// What they are called.
    pub name: String,
    /// Their picture, at every size offered.
    pub images: Vec<Image>,
    /// What they are filed under.
    pub genres: Vec<String>,
    /// Who follows them.
    pub followers: Option<Followers>,
}

/// How many people follow something.
#[derive(Debug)]
pub struct Followers {
    /// How many, when the API says.
    pub total: Option<u64>,
}

impl FullArtist {
    /// This artist, if the API gave an identifier for them.
    pub fn into_artist(self) -> (r: Option<Artist>)
        ensures
            r is Some <==> self.id is Some,
            r matches Some(a) ==> {
                &&& a.id == ArtistId(self.id->0)
                &&& a.name == self.name
                &&& a.images@ == image_refs(self.images@)
                &&& a.genres == self.genres
                &&& a.followers == (match self.followers { Some(f) => f.total, None => None })
            },
    {
        let followers = match self.followers {
            Some(f) => f.total,
            None => None,
        };
        match self.id {
            Some(id) => Some(Artist {
                id: ArtistId(id),
                name: self.name,
                images: convert_images(self.images),
                genres: self.genres,
                followers,
            }),
            None => None,
        }
    }
}

/// A track.
#[derive(Debug)]
pub struct FullTrack {
    /// Which track, when the API says. A local file has none.
    pub id: Option<String>,
    /// What it is called.
    pub name: String,
    /// Who made it.
    pub artists: Vec<SimpleArtist>,
    /// Which album it is on.
    pub album: Option<SimpleAlbum>,
    /// How long it runs, in milliseconds.
    pub duration_ms: u64,
    /// Whether it carries an explicit-content mark.
    pub explicit: bool,
    /// Whether this market can play it, when the API says.
    pub is_playable: Option<bool>,
    /// Which number it is on its album.
    pub track_number: u32,
}

/// Whether `track` is what the interface reads of `full`.
///
/// The album is the reference to the album the track names, when that album has an identifier.
/// A track whose playability the API does not state counts as playable.
pub open spec fn is_track_of(track: Track, full: FullTrack) -> bool {
    &&& full.id is Some
    &&& track.id == TrackId(full.id->0)
    &&& track.name == full.name
    &&& track.artists@ == artist_refs(full.artists@)
    &&& match full.album {
        Some(a) => if a.id is Some {
            track.album matches Some(r) && is_album_ref_of(r, a)
        } else {
            track.album is None
        },
        None => track.album is None,
    }
    &&& track.duration_ms == full.duration_ms
    &&& track.explicit == full.explicit
    &&& track.playable == (match full.is_playable { Some(p) => p, None => true })
    &&& track.track_number == full.track_number
}

impl FullTrack {
    /// This track, if the API gave an identifier for it.
    ///
    /// A local file has no identifier and cannot be played from here, so it is dropped.
    pub fn into_track(self) -> (r: Option<Track>)
        ensures
            r is Some <==> self.id is Some,
            r matches Some(t) ==> is_track_of(t, self),
    {
        let playable = match self.is_playable {
            Some(p) => p,
            None => true,
        };
        let album = match self.album {
            Some(a) => a.into_ref(),
            None => None,
        };
        match self.id {
            Some(id) => Some(Track {
                id: TrackId(id),
                name: self.name,
                artists: convert_artists(self.artists),
                album,
                duration_ms: self.duration_ms,
                explicit: self.explicit,
                playable,
                track_number: self.track_number,
            }),
            None => None,
        }
    }
}

/// One entry of a playlist.
///
/// The endpoint calls this field `item`. It held `track` before the 2026 migration; the
/// application reads either one.
#[derive(Debug)]
pub struct PlaylistItem {
    /// The track, when the entry holds one.
    pub item: Option<FullTrack>,
}

impl PlaylistItem {
    /// The track in this entry, if it holds one with an identifier.
    pub fn into_track(self) -> (r: Option<Track>)
        ensures
            r is Some <==> (self.item matches Some(t) && t.id is Some),
            r matches Some(t) ==> is_track_of(t, self.item->0),
    {
        match self.item {
            Some(t) => t.into_track(),
            None => None,
        }
    }
}

/// A playlist.
#[derive(Debug)]
pub struct SimplePlaylist {
    /// Which playlist, when the API says.
    pub id: Option<String>,
    /// What it is called.
    pub name: String,
    /// What it says about itself.
    pub description: Option<String>,
    /// Its cover, at every size offered.
    pub images: Vec<Image>,
    /// Who owns it.
    pub owner: Option<Owner>,
    /// How many tracks it holds.
    pub tracks: Option<TrackCount>,
    /// Which version of it was read.
    pub snapshot_id: Option<String>,
}

/// Who owns a playlist.
#[derive(Debug)]
pub struct Owner {
    /// Which account.
    pub id: Option<String>,
    /// What they are called.
    pub display_name: Option<String>,
}

/// How many tracks something holds.
#[derive(Debug)]
pub struct TrackCount {
    /// How many.
    pub total: u32,
}

/// Whether `owner` owns the playlist for the person whose identifier is `me`.
pub open spec fn owned_by(owner: Option<Owner>, me: Seq<char>) -> bool {
    owner matches Some(o) && o.id matches Some(id) && id@ == me
}

/// The name a followed playlist is filed under: its owner's, or "Spotify" when the API names
/// nobody.
pub open spec fn owner_name_of(owner: Option<Owner>) -> Seq<char> {
    match owner {
        Some(o) => match o.display_name {
            Some(n) => n@,
            None => "Spotify"@,
        },
        None => "Spotify"@,
    }
}

/// Whether `kind` is what `owner` makes a playlist for the person whose identifier is `me`.
///
/// Ownership decides what the interface offers. A playlist Spotify builds, such as Discover
/// Weekly, is owned by Spotify and is read-only here.
pub open spec fn is_kind_for(kind: PlaylistKind, owner: Option<Owner>, me: Seq<char>) -> bool {
    if owned_by(owner, me) {
        kind == PlaylistKind::Owned
    } else {
        kind matches PlaylistKind::Followed { owner_name } && owner_name@ == owner_name_of(owner)
    }
}

impl SimplePlaylist {
    /// This playlist, seen by the person whose identifier is `me`, if the API gave an identifier
    /// for it.
    pub fn into_playlist(self, me: &str) -> (r: Option<Playlist>)
        ensures
            r is Some <==> self.id is Some,
            r matches Some(p) ==> {
                &&& p.id == Some(PlaylistId(self.id->0))
                &&& p.name == self.name
                &&& is_kind_for(p.kind, self.owner, me@)
                &&& p.description@ == (match self.description { Some(d) => d@, None => Seq::empty() })
                &&& p.images@ == image_refs(self.images@)
                &&& p.total_tracks == (match self.tracks { Some(t) => t.total, None => 0 })
                &&& p.snapshot_id == self.snapshot_id
            },
    {
        let owned = match &self.owner {
            Some(o) => match &o.id {
                Some(id) => same_text(id.as_str(), me),
                None => false,
            },
            None => false,
        };
        let kind = if owned {
            PlaylistKind::Owned
        } else {
            let owner_name = match self.owner {
                Some(o) => match o.display_name {
                    Some(n) => n,
                    None => "Spotify".to_owned(),
                },
                None => "Spotify".to_owned(),
            };
            PlaylistKind::Followed { owner_name }
        };
        let description = match self.description {
            Some(d) => d,
            None => String::new(),
        };
        let total_tracks = match self.tracks {
            Some(t) => t.total,
            None => 0,
        };
        match self.id {
            Some(id) => Some(Playlist {
                id: Some(PlaylistId(id)),
                name: self.name,
                kind,
                description,
                images: convert_images(self.images),
                total_tracks,
                snapshot_id: self.snapshot_id,
            }),
            None => None,
        }
    }
}

/// Who is signed in.
#[derive(Debug)]
pub struct PrivateUser {
    /// Which account.
    pub id: String,
    /// What they are called, when the API says.
    pub display_name: Option<String>,
    /// Their picture.
    pub images: Vec<Image>,
    /// Which plan they are on, when the API says.
    pub product: Option<String>,
}

impl PrivateUser {
    /// Whether `profile` is what the interface reads of this account: a missing name is the
    /// account's identifier, and a missing plan is empty.
    pub open spec fn is_profile(&self, profile: UserProfile) -> bool {
        &&& profile.id == UserId(self.id)
        &&& profile.display_name@ == (match self.display_name { Some(n) => n@, None => self.id@ })
        &&& profile.images@ == image_refs(self.images@)
        &&& profile.product@ == (match self.product { Some(p) => p@, None => Seq::empty() })
    }

    /// The profile of this account.
    pub fn into_profile(self) -> (profile: UserProfile)
        ensures
            self.is_profile(profile),
    {
        let display_name = match self.display_name {
            Some(n) => n,
            None => self.id.clone(),
        };
        let product = match self.product {
            Some(p) => p,
            None => String::new(),
        };
        UserProfile { id: UserId(self.id), display_name, images: convert_images(self.images), product }
    }
}

/// What an edit returns.
#[derive(Debug)]
pub struct SnapshotReply {
    /// The playlist's new version mark.
    pub snapshot_id: String,
}

/// What a search returns.
#[derive(Debug)]
pub struct SearchReply {
    /// Tracks that matched.
    pub tracks: Option<Paged<FullTrack>>,
    /// Artists that matched.
    pub artists: Option<Paged<FullArtist>>,
    /// Albums that matched.
    pub albums: Option<Paged<SimpleAlbum>>,
    /// Playlists that matched.
    pub playlists: Option<Paged<SimplePlaylist>>,
}

/// What the top-tracks endpoint returns.
#[derive(Debug)]
pub struct TopTracks {
    /// The tracks.
    pub tracks: Vec<FullTrack>,
}

/// What the recommendations endpoint returns.
#[derive(Debug)]
pub struct Recommendations {
    /// The tracks.
    pub tracks: Vec<FullTrack>,
}

/// An album with its tracks attached.
#[derive(Debug)]
pub struct FullAlbum {
    /// Which album, when the API says.
    pub id: Option<String>,
    /// What it is called.
    pub name: String,
    /// Its cover, at every size offered.
    pub images: Vec<Image>,
    /// When it came out, as the API writes it.
    pub release_date: Option<String>,
    /// How many tracks it holds.
    pub total_tracks: u32,
    /// What kind of release it is, as the API writes it.
    pub album_type: Option<String>,
    /// Who made it.
    pub artists: Vec<SimpleArtist>,
    /// The tracks on it.
    pub tracks: Option<Paged<FullTrack>>,
}

impl FullAlbum {
    /// The album part of this reply, as the API names an album elsewhere.
    pub open spec fn simple(&self) -> SimpleAlbum {
        SimpleAlbum {
            id: self.id,
            name: self.name,
            images: self.images,
            release_date: self.release_date,
            total_tracks: self.total_tracks,
            album_type: self.album_type,
            artists: self.artists,
        }
    }
}

/// The tracks among `tracks` that have an identifier, in order.
pub open spec fn with_ids(tracks: Seq<FullTrack>) -> Seq<FullTrack>
    decreases tracks.len(),
{
    if tracks.len() == 0 {
        Seq::empty()
    } else if tracks.last().id is Some {
        with_ids(tracks.drop_last()).push(tracks.last())
    } else {
        with_ids(tracks.drop_last())
    }
}

/// Whether `converted` is what the interface reads of `tracks`: one track for each that has an
/// identifier, in order.
pub open spec fn are_tracks_of(converted: Seq<Track>, tracks: Seq<FullTrack>) -> bool {
    &&& converted.len() == with_ids(tracks).len()
    &&& forall|i: int| 0 <= i < converted.len() ==> is_track_of(#[trigger] converted[i], with_ids(tracks)[i])
}

/// These tracks, leaving out the ones with no identifier.
pub fn convert_tracks(tracks: Vec<FullTrack>) -> (out: Vec<Track>)
    ensures
        are_tracks_of(out@, tracks@),
{
    let ghost all = tracks@;
    let mut source = tracks;
    let mut out: Vec<Track> = Vec::new();
    let mut backwards: Vec<FullTrack> = Vec::new();
    while source.len() > 0
        invariant
            source@.len() <= all.len(),
            source@ == all.take(source@.len() as int),
            backwards@ == all.skip(source@.len() as int).reverse(),
        decreases source@.len(),
    {
        let track = source.pop().unwrap();
        backwards.push(track);
        proof {
            let m = source@.len() as int;
            assert(source@ =~= all.take(m));
            assert(all.skip(m) =~= seq![track].add(all.skip(m + 1)));
            assert(backwards@ =~= all.skip(m).reverse());
        }
    }
    proof {
        assert(all.skip(0) =~= all);
        assert(all.take(0) =~= Seq::<FullTrack>::empty());
    }
    let ghost mut k: int = 0;
    while backwards.len() > 0
        invariant
            0 <= k <= all.len(),
            backwards@ == all.skip(k).reverse(),
            are_tracks_of(out@, all.take(k)),
        decreases backwards@.len(),
    {
        let track = backwards.pop().unwrap();
        proof {
            assert(track == all[k]);
            assert(backwards@ =~= all.skip(k + 1).reverse());
            assert(all.take(k + 1).drop_last() =~= all.take(k));
            assert(all.take(k + 1).last() == all[k]);
        }
        let ghost t0 = track;
        let ghost before = out@;
        match track.into_track() {
            Some(t) => {
                out.push(t);
                proof {
                    assert forall|i: int| 0 <= i < out@.len() implies is_track_of(#[trigger] out@[i], with_ids(all.take(k + 1))[i]) by {
                        if i < before.len() {
                            assert(out@[i] == before[i]);
                        }
                    }
                }
            },
            None => {},
        }
        proof {
            k = k + 1;
        }
    }
    proof {
        assert(all.take(k) =~= all);
    }
    out
}

/// Whether `track` is what the interface reads of `full` when it stands on `album`'s page: the
/// track, carrying a reference to that album.
pub open spec fn is_track_on(track: Track, full: FullTrack, album: Album) -> bool {
    &&& full.id is Some
    &&& track.id == TrackId(full.id->0)
    &&& track.name == full.name
    &&& track.artists@ == artist_refs(full.artists@)
    &&& track.album matches Some(r) && r.id == album.id && r.name == album.name && r.images@ == album.images@
    &&& track.duration_ms == full.duration_ms
    &&& track.explicit == full.explicit
    &&& track.playable == (match full.is_playable { Some(p) => p, None => true })
    &&& track.track_number == full.track_number
}

/// The tracks an album reply lists, with the ones that are `null` and the ones with no identifier
/// left out.
pub open spec fn album_tracks(paged: Option<Paged<FullTrack>>) -> Seq<FullTrack> {
    match paged {
        Some(p) => with_ids(present(p.items@)),
        None => Seq::empty(),
    }
}

impl FullAlbum {
    /// The album, and the tracks on it.
    ///
    /// The tracks an album lists carry no album of their own, so this album goes on each one. The
    /// interface reads the cover through the track.
    pub fn split(self) -> (r: Option<(Album, Vec<Track>)>)
        ensures
            r is Some <==> self.id is Some,
            r matches Some(pair) ==> {
                &&& is_album_of(pair.0, self.simple())
                &&& pair.1@.len() == album_tracks(self.tracks).len()
                &&& forall|i: int| 0 <= i < pair.1@.len() ==> is_track_on(#[trigger] pair.1@[i], album_tracks(self.tracks)[i], pair.0)
            },
    {
        let ghost whole = self;
        let listed = self.tracks;
        let simple = SimpleAlbum {
            id: self.id,
            name: self.name,
            images: self.images,
            release_date: self.release_date,
            total_tracks: self.total_tracks,
            album_type: self.album_type,
            artists: self.artists,
        };
        let album = match simple.into_album() {
            Some(a) => a,
            None => {
                return None;
            },
        };
        let images = album.images.clone();
        assert(images@ =~= album.images@);
        let reference = AlbumRef { id: album.id.clone(), name: album.name.clone(), images };
        let mut out: Vec<Track> = Vec::new();
        match listed {
            Some(paged) => {
                let present_tracks = present_items(paged.items);
                let tracks = convert_tracks(present_tracks);
                let mut i: usize = 0;
                while i < tracks.len()
                    invariant
                        i <= tracks@.len(),
                        out@.len() == i,
                        reference.id == album.id,
                        reference.name == album.name,
                        reference.images@ == album.images@,
                        forall|j: int| 0 <= j < i ==> is_track_on(#[trigger] out@[j], with_ids(present(paged.items@))[j], album),
                        are_tracks_of(tracks@, present(paged.items@)),
                    decreases tracks@.len() - i,
                {
                    let mut track = tracks[i].clone();
                    track.album = Some(reference.clone());
                    out.push(track);
                    i = i + 1;
                }
            },
            None => {},
        }
        Some((album, out))
    }
}

/// The entries in reverse order.
fn reversed<T>(items: Vec<T>) -> (out: Vec<T>)
    ensures
        out@ == items@.reverse(),
{
    let ghost all = items@;
    let mut source = items;
    let mut out: Vec<T> = Vec::new();
    while source.len() > 0
        invariant
            source@.len() <= all.len(),
            source@ == all.take(source@.len() as int),
            out@ == all.skip(source@.len() as int).reverse(),
        decreases source@.len(),
    {
        let entry = source.pop().unwrap();
        out.push(entry);
        proof {
            let m = source@.len() as int;
            assert(source@ =~= all.take(m));
            assert(all.skip(m) =~= seq![entry].add(all.skip(m + 1)));
            assert(out@ =~= all.skip(m).reverse());
        }
    }
    proof {
        assert(all.skip(0) =~= all);
    }
    out
}

/// Whether `a` is what the interface reads of `full`.
pub open spec fn is_artist_of(a: Artist, full: FullArtist) -> bool {
    &&& full.id is Some
    &&& a.id == ArtistId(full.id->0)
    &&& a.name == full.name
    &&& a.images@ == image_refs(full.images@)
    &&& a.genres == full.genres
    &&& a.followers == (match full.followers { Some(f) => f.total, None => None })
}

/// Whether `p` is what the interface reads of `simple`, for the person whose identifier is `me`.
pub open spec fn is_playlist_of(p: Playlist, simple: SimplePlaylist, me: Seq<char>) -> bool {
    &&& simple.id is Some
    &&& p.id == Some(PlaylistId(simple.id->0))
    &&& p.name == simple.name
    &&& is_kind_for(p.kind, simple.owner, me)
    &&& p.description@ == (match simple.description { Some(d) => d@, None => Seq::empty() })
    &&& p.images@ == image_refs(simple.images@)
    &&& p.total_tracks == (match simple.tracks { Some(t) => t.total, None => 0 })
    &&& p.snapshot_id == simple.snapshot_id
}

/// The entries of a reply's list, with the `null` ones left out, or nothing when the reply has
/// no such list.
pub open spec fn listed<T>(paged: Option<Paged<T>>) -> Seq<T> {
    match paged {
        Some(p) => present(p.items@),
        None => Seq::empty(),
    }
}

/// The entries of a reply's list, with the `null` ones left out.
fn listed_items<T>(paged: Option<Paged<T>>) -> (out: Vec<T>)
    ensures
        out@ == listed(paged),
{
    match paged {
        Some(p) => present_items(p.items),
        None => Vec::new(),
    }
}

/// What a search returned, as the interface reads it: of each kind, the entries that have an
/// identifier, in order.
pub fn search_results(reply: SearchReply, me: &str) -> (r: SearchResults)
    ensures
        are_tracks_of(r.tracks@, listed(reply.tracks)),
        r.artists@.len() == listed(reply.artists).filter(|a: FullArtist| a.id is Some).len(),
        forall|i: int| 0 <= i < r.artists@.len() ==> is_artist_of(#[trigger] r.artists@[i], listed(reply.artists).filter(|a: FullArtist| a.id is Some)[i]),
        r.albums@.len() == listed(reply.albums).filter(|a: SimpleAlbum| a.id is Some).len(),
        forall|i: int| 0 <= i < r.albums@.len() ==> is_album_of(#[trigger] r.albums@[i], listed(reply.albums).filter(|a: SimpleAlbum| a.id is Some)[i]),
        r.playlists@.len() == listed(reply.playlists).filter(|p: SimplePlaylist| p.id is Some).len(),
        forall|i: int| 0 <= i < r.playlists@.len() ==> is_playlist_of(#[trigger] r.playlists@[i], listed(reply.playlists).filter(|p: SimplePlaylist| p.id is Some)[i], me@),
{
    let tracks = convert_tracks(listed_items(reply.tracks));

    let ghost arts = listed(reply.artists);
    let mut back = reversed(listed_items(reply.artists));
    let mut artists: Vec<Artist> = Vec::new();
    let ghost mut k: int = 0;
    while back.len() > 0
        invariant
            0 <= k <= arts.len(),
            back@ == arts.skip(k).reverse(),
            artists@.len() == arts.take(k).filter(|a: FullArtist| a.id is Some).len(),
            forall|i: int| 0 <= i < artists@.len() ==> is_artist_of(#[trigger] artists@[i], arts.take(k).filter(|a: FullArtist| a.id is Some)[i]),
        decreases back@.len(),
    {
        let a = back.pop().unwrap();
        proof {
            assert(back@ =~= arts.skip(k + 1).reverse());
            assert(a == arts[k]);
            assert(arts.take(k + 1) =~= arts.take(k).push(arts[k]));
            arts.take(k).lemma_filter_push(arts[k], |a: FullArtist| a.id is Some);
        }
        let ghost before = artists@;
        let ghost full = a;
        match a.into_artist() {
            Some(x) => {
                artists.push(x);
                proof {
                    assert forall|i: int| 0 <= i < artists@.len() implies is_artist_of(#[trigger] artists@[i], arts.take(k + 1).filter(|a: FullArtist| a.id is Some)[i]) by {
                        if i < before.len() {
                            assert(artists@[i] == before[i]);
                        }
                    }
                }
            },
            None => {},
        }
        proof {
            k = k + 1;
        }
    }
    proof {
        assert(arts.take(k) =~= arts);
    }

    let ghost alb = listed(reply.albums);
    let mut back_albums = reversed(listed_items(reply.albums));
    let mut albums: Vec<Album> = Vec::new();
    let ghost mut k2: int = 0;
    while back_albums.len() > 0
        invariant
            0 <= k2 <= alb.len(),
            back_albums@ == alb.skip(k2).reverse(),
            albums@.len() == alb.take(k2).filter(|a: SimpleAlbum| a.id is Some).len(),
            forall|i: int| 0 <= i < albums@.len() ==> is_album_of(#[trigger] albums@[i], alb.take(k2).filter(|a: SimpleAlbum| a.id is Some)[i]),
        decreases back_albums@.len(),
    {
        let a = back_albums.pop().unwrap();
        proof {
            assert(back_albums@ =~= alb.skip(k2 + 1).reverse());
            assert(a == alb[k2]);
            assert(alb.take(k2 + 1) =~= alb.take(k2).push(alb[k2]));
            alb.take(k2).lemma_filter_push(alb[k2], |a: SimpleAlbum| a.id is Some);
        }
        let ghost before = albums@;
        match a.into_album() {
            Some(x) => {
                albums.push(x);
                proof {
                    assert forall|i: int| 0 <= i < albums@.len() implies is_album_of(#[trigger] albums@[i], alb.take(k2 + 1).filter(|a: SimpleAlbum| a.id is Some)[i]) by {
                        if i < before.len() {
                            assert(albums@[i] == before[i]);
                        }
                    }
                }
            },
            None => {},
        }
        proof {
            k2 = k2 + 1;
        }
    }
    proof {
        assert(alb.take(k2) =~= alb);
    }

    let ghost pls = listed(reply.playlists);
    let mut back_playlists = reversed(listed_items(reply.playlists));
    let mut playlists: Vec<Playlist> = Vec::new();
    let ghost mut k3: int = 0;
    while back_playlists.len() > 0
        invariant
            0 <= k3 <= pls.len(),
            back_playlists@ == pls.skip(k3).reverse(),
            playlists@.len() == pls.take(k3).filter(|p: SimplePlaylist| p.id is Some).len(),
            forall|i: int| 0 <= i < playlists@.len() ==> is_playlist_of(#[trigger] playlists@[i], pls.take(k3).filter(|p: SimplePlaylist| p.id is Some)[i], me@),
        decreases back_playlists@.len(),
    {
        let p = back_playlists.pop().unwrap();
        proof {
            assert(back_playlists@ =~= pls.skip(k3 + 1).reverse());
            assert(p == pls[k3]);
            assert(pls.take(k3 + 1) =~= pls.take(k3).push(pls[k3]));
            pls.take(k3).lemma_filter_push(pls[k3], |p: SimplePlaylist| p.id is Some);
        }
        let ghost before = playlists@;
        match p.into_playlist(me) {
            Some(x) => {
                playlists.push(x);
                proof {
                    assert forall|i: int| 0 <= i < playlists@.len() implies is_playlist_of(#[trigger] playlists@[i], pls.take(k3 + 1).filter(|p: SimplePlaylist| p.id is Some)[i], me@) by {
                        if i < before.len() {
                            assert(playlists@[i] == before[i]);
                        }
                    }
                }
            },
            None => {},
        }
        proof {
            k3 = k3 + 1;
        }
    }
    proof {
        assert(pls.take(k3) =~= pls);
    }
    SearchResults { tracks, artists, albums, playlists }
}

/// The entries that are there, in order.
fn present_items<T>(items: Vec<Option<T>>) -> (out: Vec<T>)
    ensures
        out@ == present(items@),
{
    let ghost all = items@;
    let mut source = items;
    let mut backwards: Vec<Option<T>> = Vec::new();
    while source.len() > 0
        invariant
            source@.len() <= all.len(),
            source@ == all.take(source@.len() as int),
            backwards@ == all.skip(source@.len() as int).reverse(),
        decreases source@.len(),
    {
        let entry = source.pop().unwrap();
        backwards.push(entry);
        proof {
            let m = source@.len() as int;
            assert(source@ =~= all.take(m));
            assert(all.skip(m) =~= seq![entry].add(all.skip(m + 1)));
            assert(backwards@ =~= all.skip(m).reverse());
        }
    }
    proof {
        assert(all.skip(0) =~= all);
        assert(all.take(0) =~= Seq::<Option<T>>::empty());
    }
    let mut out: Vec<T> = Vec::new();
    let ghost mut k: int = 0;
    while backwards.len() > 0
        invariant
            0 <= k <= all.len(),
            backwards@ == all.skip(k).reverse(),
            out@ == present(all.take(k)),
        decreases backwards@.len(),
    {
        let entry = backwards.pop().unwrap();
        proof {
            assert(entry == all[k]);
            assert(backwards@ =~= all.skip(k + 1).reverse());
            assert(all.take(k + 1).drop_last() =~= all.take(k));
            assert(all.take(k + 1).last() == all[k]);
        }
        match entry {
            Some(t) => out.push(t),
            None => {},
        }
        proof {
            k = k + 1;
        }
    }
    proof {
        assert(all.take(k) =~= all);
    }
    out
}

} // verus!
