//! The Spotify Web API, in the shape the interface reads.
//!
//! The requests themselves are the application's. This holds what it decides around them: what a
//! refused request means, when a request goes again, how a batch of tracks comes back in the
//! order it was asked for, and how a station's reply becomes a queue.

use vstd::prelude::*;

use crate::direct::Listing;
use crate::format::{trim, trimmed};
use crate::models::{Page, Playlist, PlaylistId, PlaylistKind, Track, TrackId, join};
use crate::text::{decimal, push_decimal, same_text};

verus! {

/// How many items an endpoint returns at once. Fifty is the most Spotify allows.
pub const PAGE: u32 = 50;

/// How many identifiers go in one batch request.
pub const BATCH: usize = 50;

/// How many tracks a radio queue holds.
pub const WANTED: usize = 50;

/// How many times a rate-limited request goes again.
pub const RATE_LIMIT_TRIES: u8 = 2;

/// The longest wait, in seconds, a rate limit is obeyed for before it is reported instead. A long
/// wait leaves the interface looking broken.
pub const MAX_BACKOFF_S: u64 = 10;

/// What stopped a request.
#[derive(Debug, PartialEq, Eq)]
pub enum ApiError {
    /// The request never reached Spotify, and why.
    Transport(String),
    /// Spotify refused the request.
    Status {
        /// What it answered with.
        status: u16,
        /// What it said.
        message: String,
    },
    /// Too many requests went out.
    RateLimited {
        /// How long Spotify asks for, in seconds.
        retry_after_s: Option<u64>,
    },
    /// This account or this application may not do that.
    Forbidden {
        /// What Spotify said, when it said anything.
        reason: String,
    },
    /// There is no such thing.
    NotFound,
    /// No token could be taken from the session, and why.
    Token(String),
    /// The token could not be refreshed, and why.
    Auth(String),
    /// The reply was not what this application reads, and why.
    Decode(String),
}

/// What an error says of itself.
pub open spec fn error_words(error: ApiError) -> Seq<char> {
    match error {
        ApiError::Transport(m) => "network: "@ + m@,
        ApiError::Status { status, message } => "Spotify said "@ + decimal(status as nat) + ": "@ + message@,
        ApiError::RateLimited { .. } => "too many requests"@,
        ApiError::Forbidden { reason } => if reason@.len() == 0 { "not allowed"@ } else { "not allowed: "@ + reason@ },
        ApiError::NotFound => "not found"@,
        ApiError::Token(m) => "cannot get an access token: "@ + m@,
        ApiError::Auth(m) => "cannot refresh the access token: "@ + m@,
        ApiError::Decode(m) => "cannot read the reply: "@ + m@,
    }
}

impl ApiError {
    /// What the error says of itself.
    pub fn describe(&self) -> (text: String)
        ensures
            text@ == error_words(*self),
    {
        match self {
            ApiError::Transport(m) => {
                let mut t = "network: ".to_owned();
                t.append(m.as_str());
                t
            },
            ApiError::Status { status, message } => {
                let mut t = "Spotify said ".to_owned();
                push_decimal(&mut t, *status as u64);
                t.append(": ");
                t.append(message.as_str());
                t
            },
            ApiError::RateLimited { .. } => "too many requests".to_owned(),
            ApiError::Forbidden { reason } => {
                if reason.as_str().is_empty() {
                    "not allowed".to_owned()
                } else {
                    let mut t = "not allowed: ".to_owned();
                    t.append(reason.as_str());
                    t
                }
            },
            ApiError::NotFound => "not found".to_owned(),
            ApiError::Token(m) => {
                let mut t = "cannot get an access token: ".to_owned();
                t.append(m.as_str());
                t
            },
            ApiError::Auth(m) => {
                let mut t = "cannot refresh the access token: ".to_owned();
                t.append(m.as_str());
                t
            },
            ApiError::Decode(m) => {
                let mut t = "cannot read the reply: ".to_owned();
                t.append(m.as_str());
                t
            },
        }
    }

    /// Whether this is Spotify refusing an edit, rather than a fault. A read-only playlist
    /// answers this way.
    pub fn is_forbidden(&self) -> (f: bool)
        ensures
            f == (*self is Forbidden),
    {
        match self {
            ApiError::Forbidden { .. } => true,
            _ => false,
        }
    }

    /// Whether the Web API keeps this from an application like this one. Spotify's own playlists
    /// answer `404`, and some of them `403`; both mean: ask the session instead.
    pub fn is_hidden(&self) -> (h: bool)
        ensures
            h == (*self is NotFound || *self is Forbidden),
    {
        match self {
            ApiError::NotFound => true,
            ApiError::Forbidden { .. } => true,
            _ => false,
        }
    }

    /// Whether Spotify refused because an endpoint is closed, rather than because of a fault.
    pub fn is_closed(&self) -> (c: bool)
        ensures
            c == (*self is NotFound || *self is Forbidden || (*self matches ApiError::Status { status, .. } && status == 400)),
    {
        match self {
            ApiError::NotFound => true,
            ApiError::Forbidden { .. } => true,
            ApiError::Status { status, .. } => *status == 400,
            _ => false,
        }
    }
}

/// What a request carries, beyond the address.
#[derive(Debug, Clone, Copy, PartialEq, Eq, Structural)]
pub enum Method {
    /// Read.
    Get,
    /// Create.
    Post,
    /// Replace.
    Put,
    /// Remove.
    Delete,
}

/// The method a name asks for: `PUT`, `POST` and `DELETE` as written, and a read otherwise.
pub open spec fn method_of(name: Seq<char>) -> Method {
    if name == "PUT"@ {
        Method::Put
    } else if name == "POST"@ {
        Method::Post
    } else if name == "DELETE"@ {
        Method::Delete
    } else {
        Method::Get
    }
}

/// The method a name asks for, for a request made by hand.
pub fn method_named(name: &str) -> (m: Method)
    ensures
        m == method_of(name@),
{
    if same_text(name, "PUT") {
        Method::Put
    } else if same_text(name, "POST") {
        Method::Post
    } else if same_text(name, "DELETE") {
        Method::Delete
    } else {
        Method::Get
    }
}

/// The URI of each of these tracks.
pub open spec fn track_uris(ids: Seq<TrackId>) -> Seq<Seq<char>> {
    ids.map_values(|id: TrackId| "spotify:track:"@ + id.0@)
}

/// These tracks as URIs, separated by commas.
pub fn join_uris(ids: &[TrackId]) -> (text: String)
    ensures
        text@ == join(track_uris(ids@), ","@),
{
    let mut text = String::new();
    let mut i: usize = 0;
    while i < ids.len()
        invariant
            i <= ids@.len(),
            text@ == join(track_uris(ids@.take(i as int)), ","@),
        decreases ids@.len() - i,
    {
        let ghost before = track_uris(ids@.take(i as int));
        proof {
            assert(track_uris(ids@.take(i + 1)) =~= before.push("spotify:track:"@ + ids@[i as int].0@));
            assert(before.push("spotify:track:"@ + ids@[i as int].0@).drop_last() =~= before);
        }
        if i > 0 {
            text.append(",");
        }
        let uri = ids[i].uri();
        text.append(uri.as_str());
        i = i + 1;
    }
    assert(ids@.take(i as int) =~= ids@);
    text
}

/// These tracks as URIs, as a list for a request's body.
pub fn uri_list(ids: &[TrackId]) -> (uris: Vec<String>)
    ensures
        uris@.map_values(|u: String| u@) == track_uris(ids@),
{
    let mut uris: Vec<String> = Vec::new();
    let mut i: usize = 0;
    while i < ids.len()
        invariant
            i <= ids@.len(),
            uris@.map_values(|u: String| u@) == track_uris(ids@.take(i as int)),
        decreases ids@.len() - i,
    {
        let ghost before = uris@;
        uris.push(ids[i].uri());
        proof {
            assert(uris@.map_values(|u: String| u@) =~= before.map_values(|u: String| u@).push("spotify:track:"@ + ids@[i as int].0@));
            assert(track_uris(ids@.take(i + 1)) =~= track_uris(ids@.take(i as int)).push("spotify:track:"@ + ids@[i as int].0@));
        }
        i = i + 1;
    }
    assert(ids@.take(i as int) =~= ids@);
    uris
}

/// Whether `j` is the number `n`, written in decimal.
pub open spec fn is_number(j: Json, n: nat) -> bool {
    j matches Json::Number(t) && t@ == decimal(n)
}

/// Whether `j` is the text `text`.
pub open spec fn is_text(j: Json, text: Seq<char>) -> bool {
    j matches Json::Text(t) && t@ == text
}

/// Whether `j` is a list of these texts, in order.
pub open spec fn texts_are(j: Json, texts: Seq<Seq<char>>) -> bool {
    j matches Json::List(items) && items@.len() == texts.len()
        && forall|i: int| 0 <= i < texts.len() ==> is_text(#[trigger] items@[i], texts[i])
}

/// Whether `j` is an object of one entry, `uri`, that holds `uri`.
pub open spec fn is_uri_entry(j: Json, uri: Seq<char>) -> bool {
    j matches Json::Object(e) && e@.len() == 1 && e@[0].0@ == "uri"@ && is_text(e@[0].1, uri)
}

/// Whether `body` asks to add these tracks, at `position` when it names one.
pub open spec fn is_add_body(body: Json, tracks: Seq<TrackId>, position: Option<u32>) -> bool {
    match body {
        Json::Object(entries) => {
            &&& entries@.len() == (if position is Some { 2int } else { 1int })
            &&& entries@[0].0@ == "uris"@
            &&& texts_are(entries@[0].1, track_uris(tracks))
            &&& (position matches Some(p) ==> entries@[1].0@ == "position"@ && is_number(entries@[1].1, p as nat))
        },
        _ => false,
    }
}

/// Whether `body` asks to remove these tracks from the version `snapshot`, when it names one.
pub open spec fn is_remove_body(body: Json, tracks: Seq<TrackId>, snapshot: Option<Seq<char>>) -> bool {
    match body {
        Json::Object(entries) => {
            &&& entries@.len() == (if snapshot is Some { 2int } else { 1int })
            &&& entries@[0].0@ == "items"@
            &&& entries@[0].1 matches Json::List(items) && items@.len() == tracks.len()
                && forall|i: int| 0 <= i < tracks.len() ==> is_uri_entry(#[trigger] items@[i], track_uris(tracks)[i])
            &&& (snapshot matches Some(s) ==> entries@[1].0@ == "snapshot_id"@ && is_text(entries@[1].1, s))
        },
        _ => false,
    }
}

/// `n` as a number in a request's body.
fn number(n: u64) -> (j: Json)
    ensures
        is_number(j, n as nat),
{
    let mut t = String::new();
    push_decimal(&mut t, n);
    proof {
        reveal_strlit("");
    }
    assert(t@ =~= decimal(n as nat));
    Json::Number(t)
}

/// The URIs of these tracks, as a list of texts.
fn uri_texts(ids: &[TrackId]) -> (j: Json)
    ensures
        texts_are(j, track_uris(ids@)),
{
    let mut items: Vec<Json> = Vec::new();
    let mut i: usize = 0;
    while i < ids.len()
        invariant
            i <= ids@.len(),
            items@.len() == i,
            forall|k: int| 0 <= k < i ==> is_text(#[trigger] items@[k], track_uris(ids@)[k]),
        decreases ids@.len() - i,
    {
        items.push(Json::Text(ids[i].uri()));
        i = i + 1;
    }
    Json::List(items)
}

/// The body of a request that adds tracks to a playlist: their URIs, and where they go when the
/// caller says.
pub fn add_body(tracks: &[TrackId], position: Option<u32>) -> (body: Json)
    ensures
        is_add_body(body, tracks@, position),
{
    let mut entries: Vec<(String, Json)> = vec![("uris".to_owned(), uri_texts(tracks))];
    if let Some(p) = position {
        entries.push(("position".to_owned(), number(p as u64)));
    }
    Json::Object(entries)
}

/// The body of a request that removes tracks from a playlist: an entry per track, and the
/// version the removal applies to when the caller knows it.
pub fn remove_body(tracks: &[TrackId], snapshot_id: Option<&str>) -> (body: Json)
    ensures
        is_remove_body(body, tracks@, match snapshot_id { Some(s) => Some(s@), None => None }),
{
    let mut items: Vec<Json> = Vec::new();
    let mut i: usize = 0;
    while i < tracks.len()
        invariant
            i <= tracks@.len(),
            items@.len() == i,
            forall|k: int| 0 <= k < i ==> is_uri_entry(#[trigger] items@[k], track_uris(tracks@)[k]),
        decreases tracks@.len() - i,
    {
        let entry: Vec<(String, Json)> = vec![("uri".to_owned(), Json::Text(tracks[i].uri()))];
        items.push(Json::Object(entry));
        i = i + 1;
    }
    let mut entries: Vec<(String, Json)> = vec![("items".to_owned(), Json::List(items))];
    if let Some(s) = snapshot_id {
        entries.push(("snapshot_id".to_owned(), Json::Text(s.to_owned())));
    }
    Json::Object(entries)
}

/// The body of a request that makes a playlist: its name, and private.
pub fn created_body(name: &str) -> (body: Json)
    ensures
        body matches Json::Object(e) && e@.len() == 2 && e@[0].0@ == "name"@ && is_text(e@[0].1, name@)
            && e@[1].0@ == "public"@ && e@[1].1 == Json::Bool(false),
{
    Json::Object(vec![("name".to_owned(), Json::Text(name.to_owned())), ("public".to_owned(), Json::Bool(false))])
}

/// The body of a request that renames a playlist.
pub fn renamed_body(name: &str) -> (body: Json)
    ensures
        body matches Json::Object(e) && e@.len() == 1 && e@[0].0@ == "name"@ && is_text(e@[0].1, name@),
{
    Json::Object(vec![("name".to_owned(), Json::Text(name.to_owned()))])
}

/// The body of a request that moves `range_length` tracks from `range_start` to before
/// `insert_before`.
pub fn reorder_body(range_start: u32, range_length: u32, insert_before: u32) -> (body: Json)
    ensures
        body matches Json::Object(e) && e@.len() == 3
            && e@[0].0@ == "range_start"@ && is_number(e@[0].1, range_start as nat)
            && e@[1].0@ == "range_length"@ && is_number(e@[1].1, range_length as nat)
            && e@[2].0@ == "insert_before"@ && is_number(e@[2].1, insert_before as nat),
{
    Json::Object(vec![
        ("range_start".to_owned(), number(range_start as u64)),
        ("range_length".to_owned(), number(range_length as u64)),
        ("insert_before".to_owned(), number(insert_before as u64)),
    ])
}

/// The track identifier in a `spotify:track:` URI: what follows the prefix, when anything does.
pub open spec fn track_id_in(uri: Seq<char>) -> Option<Seq<char>> {
    let prefix = "spotify:track:"@;
    if uri.len() > prefix.len() && uri.take(prefix.len() as int) == prefix {
        Some(uri.skip(prefix.len() as int))
    } else {
        None
    }
}

/// The track identifier in a `spotify:track:` URI.
pub fn track_id_from_uri(uri: &str) -> (id: Option<TrackId>)
    ensures
        id is Some <==> track_id_in(uri@) is Some,
        id matches Some(t) ==> track_id_in(uri@) == Some(t.0@),
{
    let chars = crate::text::chars_of(uri);
    let prefix = crate::text::chars_of("spotify:track:");
    proof {
        reveal_strlit("spotify:track:");
    }
    if chars.len() <= prefix.len() || !crate::text::starts_with(chars.as_slice(), prefix.as_slice()) {
        return None;
    }
    let rest = crate::text::chars_between(chars.as_slice(), prefix.len(), chars.len());
    let id = crate::text::string_from(rest.as_slice());
    proof {
        assert(id@ =~= uri@.skip(prefix@.len() as int));
    }
    Some(TrackId(id))
}

/// `ids` with each run of one identifier kept once.
pub open spec fn dedup_runs(ids: Seq<Seq<char>>) -> Seq<Seq<char>>
    decreases ids.len(),
{
    if ids.len() == 0 {
        Seq::empty()
    } else {
        let rest = dedup_runs(ids.drop_last());
        if ids.len() > 1 && ids[ids.len() - 2] == ids.last() { rest } else { rest.push(ids.last()) }
    }
}

/// The identifiers, as text.
pub open spec fn id_keys(ids: Seq<TrackId>) -> Seq<Seq<char>> {
    ids.map_values(|id: TrackId| id.0@)
}

/// A station, from the identifiers its reply lists: without the seed, each run of one track kept
/// once, and no longer than a queue holds.
pub open spec fn station_of(ids: Seq<Seq<char>>, seed: Seq<char>) -> Seq<Seq<char>> {
    let d = dedup_runs(ids.filter(|id: Seq<char>| id != seed));
    if d.len() > WANTED { d.take(WANTED as int) } else { d }
}

/// A station, from the identifiers its reply lists.
pub fn station_ids(ids: Vec<TrackId>, seed: &TrackId) -> (station: Vec<TrackId>)
    ensures
        id_keys(station@) == station_of(id_keys(ids@), seed.0@),
{
    let ghost keys = id_keys(ids@);
    let ghost others = keys.filter(|id: Seq<char>| id != seed.0@);
    let mut kept: Vec<TrackId> = Vec::new();
    let ghost mut seen: Seq<Seq<char>> = Seq::empty();
    let mut i: usize = 0;
    while i < ids.len()
        invariant
            i <= ids@.len(),
            keys == id_keys(ids@),
            others == keys.filter(|id: Seq<char>| id != seed.0@),
            seen == keys.take(i as int).filter(|id: Seq<char>| id != seed.0@),
            id_keys(kept@) == dedup_runs(seen),
            kept@.len() > 0 ==> seen.len() > 0 && kept@.last().0@ == seen.last(),
            seen.len() > 0 ==> kept@.len() > 0,
        decreases ids@.len() - i,
    {
        proof {
            assert(keys.take(i + 1) =~= keys.take(i as int).push(keys[i as int]));
            keys.take(i as int).lemma_filter_push(keys[i as int], |id: Seq<char>| id != seed.0@);
        }
        if !(ids[i].0 == seed.0) {
            let ghost before = kept@;
            let ghost old_seen = seen;
            let repeat = kept.len() > 0 && kept[kept.len() - 1].0 == ids[i].0;
            if !repeat {
                kept.push(ids[i].clone());
                proof {
                    assert(id_keys(kept@) =~= id_keys(before).push(ids@[i as int].0@));
                }
            }
            proof {
                seen = old_seen.push(keys[i as int]);
                assert(seen.drop_last() =~= old_seen);
                assert(seen.last() == keys[i as int]);
                assert(keys[i as int] == ids@[i as int].0@);
                if old_seen.len() > 0 {
                    assert(seen[seen.len() - 2] == old_seen.last());
                    assert(before.last().0@ == old_seen.last());
                }
            }
        }
        i = i + 1;
    }
    proof {
        assert(keys.take(i as int) =~= keys);
    }
    if kept.len() > WANTED {
        kept.truncate(WANTED);
        assert(id_keys(kept@) =~= dedup_runs(others).take(WANTED as int));
    }
    kept
}

/// The tracks that are not the seed, in order.
pub open spec fn others(tracks: Seq<Track>, seed: Seq<char>) -> Seq<Track> {
    tracks.filter(|t: Track| t.id.0@ != seed)
}

/// A station's queue, led by its seed: the seed, when it could be read, then the station without
/// it.
pub fn seed_first(seed_read: Vec<Track>, station: Vec<Track>, seed: &TrackId) -> (queue: Vec<Track>)
    ensures
        queue@.len() == seed_read@.len() + others(station@, seed.0@).len(),
        forall|i: int| 0 <= i < seed_read@.len() ==> #[trigger] queue@[i] == seed_read@[i],
        forall|i: int| seed_read@.len() <= i < queue@.len() ==> (#[trigger] queue@[i]).same(&others(station@, seed.0@)[i - seed_read@.len()]),
{
    let ghost all = station@;
    let ghost rest = all.filter(|t: Track| t.id.0@ != seed.0@);
    let mut queue = seed_read;
    let ghost lead = queue@;
    let mut i: usize = 0;
    while i < station.len()
        invariant
            all == station@,
            rest == all.filter(|t: Track| t.id.0@ != seed.0@),
            i <= all.len(),
            queue@.len() == lead.len() + all.take(i as int).filter(|t: Track| t.id.0@ != seed.0@).len(),
            forall|m: int| 0 <= m < lead.len() ==> #[trigger] queue@[m] == lead[m],
            forall|m: int| lead.len() <= m < queue@.len() ==> (#[trigger] queue@[m]).same(
                &all.take(i as int).filter(|t: Track| t.id.0@ != seed.0@)[m - lead.len()]),
        decreases all.len() - i,
    {
        let ghost before = queue@;
        proof {
            assert(all.take(i + 1) =~= all.take(i as int).push(all[i as int]));
            all.take(i as int).lemma_filter_push(all[i as int], |t: Track| t.id.0@ != seed.0@);
        }
        if !(station[i].id.0 == seed.0) {
            queue.push(station[i].clone());
            proof {
                assert forall|m: int| lead.len() <= m < queue@.len() implies (#[trigger] queue@[m]).same(
                    &all.take(i + 1).filter(|t: Track| t.id.0@ != seed.0@)[m - lead.len()]) by {
                    if m < before.len() {
                        assert(queue@[m] == before[m]);
                    }
                }
                assert forall|m: int| 0 <= m < lead.len() implies #[trigger] queue@[m] == lead[m] by {
                    assert(queue@[m] == before[m]);
                }
            }
        }
        i = i + 1;
    }
    proof {
        assert(all.take(i as int) =~= all);
    }
    queue
}

/// What song radio does after asking for recommendations.
#[derive(Debug)]
pub enum RadioNext {
    /// The recommendations are the station.
    Use(Vec<Track>),
    /// The endpoint gave nothing, or is closed to this application: ask the session instead.
    AskSession,
    /// A fault: the station fails with it.
    Fail(ApiError),
}

/// What song radio does with the recommendations endpoint's answer.
pub fn after_recommendations(answer: Result<Vec<Track>, ApiError>) -> (next: RadioNext)
    ensures
        match answer {
            Ok(tracks) => if tracks@.len() > 0 { next matches RadioNext::Use(t) && t == tracks } else { next is AskSession },
            Err(e) => if e is NotFound || e is Forbidden || (e matches ApiError::Status { status, .. } && status == 400) {
                next is AskSession
            } else {
                next matches RadioNext::Fail(f) && f == e
            },
        },
{
    match answer {
        Ok(tracks) => {
            if tracks.len() > 0 {
                RadioNext::Use(tracks)
            } else {
                RadioNext::AskSession
            }
        },
        Err(error) => {
            if error.is_closed() {
                RadioNext::AskSession
            } else {
                RadioNext::Fail(error)
            }
        },
    }
}

/// The tracks an artist's top-tracks answer gives: those with an identifier, in order. The
/// endpoint closed to this application gives none rather than failing the page; any other fault
/// stands.
pub fn top_tracks_after(reply: Result<crate::wire::TopTracks, ApiError>) -> (r: Result<Vec<Track>, ApiError>)
    ensures
        match reply {
            Ok(t) => r matches Ok(out) && crate::wire::are_tracks_of(out@, t.tracks@),
            Err(e) => if e is Forbidden {
                r matches Ok(out) && out@.len() == 0
            } else {
                r matches Err(f) && f == e
            },
        },
{
    match reply {
        Ok(t) => Ok(crate::wire::convert_tracks(t.tracks)),
        Err(error) => {
            if error.is_forbidden() {
                Ok(Vec::new())
            } else {
                Err(error)
            }
        },
    }
}

/// What reading one playlist from the Web API leads to.
#[derive(Debug)]
pub enum PlaylistNext {
    /// The playlist, as the person reading it sees it.
    Found(Playlist),
    /// The Web API keeps it from this application: ask the session instead.
    AskSession,
    /// The read fails with this.
    Fail(ApiError),
}

/// What a playlist's answer leads to, for the person whose identifier is `me`: the playlist, when
/// the answer names it; asking the session, when the Web API keeps it hidden; and otherwise the
/// fault, with an answer that carries no identifier read as not found.
pub fn after_playlist(reply: Result<crate::wire::SimplePlaylist, ApiError>, me: &str) -> (next: PlaylistNext)
    ensures
        match reply {
            Ok(p) => match p.id {
                Some(id) => next matches PlaylistNext::Found(found) && found.id == Some(PlaylistId(id))
                    && found.name == p.name && crate::wire::is_kind_for(found.kind, p.owner, me@)
                    && found.description@ == (match p.description { Some(d) => d@, None => Seq::empty() })
                    && found.images@ == crate::wire::image_refs(p.images@)
                    && found.total_tracks == (match p.tracks { Some(t) => t.total, None => 0 })
                    && found.snapshot_id == p.snapshot_id,
                None => next matches PlaylistNext::Fail(e) && e is NotFound,
            },
            Err(e) => if e is NotFound || e is Forbidden {
                next is AskSession
            } else {
                next matches PlaylistNext::Fail(f) && f == e
            },
        },
{
    match reply {
        Ok(p) => match p.into_playlist(me) {
            Some(found) => PlaylistNext::Found(found),
            None => PlaylistNext::Fail(ApiError::NotFound),
        },
        Err(error) => {
            if error.is_hidden() {
                PlaylistNext::AskSession
            } else {
                PlaylistNext::Fail(error)
            }
        },
    }
}

/// Whether `s` is all decimal digits.
pub open spec fn all_digits(s: Seq<char>) -> bool {
    forall|i: int| 0 <= i < s.len() ==> '0' <= #[trigger] s[i] <= '9'
}

/// The number the decimal digits `s` write.
pub open spec fn digits_value(s: Seq<char>) -> nat
    decreases s.len(),
{
    if s.len() == 0 {
        0
    } else {
        digits_value(s.drop_last()) * 10 + ((s.last() as u32) - 48) as nat
    }
}

/// The whole number `s` writes, as the standard library reads one: an optional `+`, then at least
/// one digit, and nothing past the largest `u64`.
pub open spec fn parsed_u64(s: Seq<char>) -> Option<u64> {
    let digits = if s.len() > 0 && s[0] == '+' { s.drop_first() } else { s };
    if digits.len() > 0 && all_digits(digits) && digits_value(digits) <= u64::MAX {
        Some(digits_value(digits) as u64)
    } else {
        None
    }
}

/// The whole number a text writes, as the standard library reads one.
pub fn parse_u64(text: &str) -> (n: Option<u64>)
    ensures
        n == parsed_u64(text@),
{
    let chars = crate::text::chars_of(text);
    let start: usize = if chars.len() > 0 && chars[0] == '+' { 1 } else { 0 };
    let ghost digits = if chars@.len() > 0 && chars@[0] == '+' { chars@.drop_first() } else { chars@ };
    assert(digits =~= chars@.skip(start as int));
    if start >= chars.len() {
        return None;
    }
    let mut j: usize = start;
    while j < chars.len()
        invariant
            start <= j <= chars@.len(),
            chars@ == text@,
            digits == (if chars@.len() > 0 && chars@[0] == '+' { chars@.drop_first() } else { chars@ }),
            digits == chars@.skip(start as int),
            forall|k: int| 0 <= k < j - start ==> '0' <= #[trigger] digits[k] <= '9',
        decreases chars@.len() - j,
    {
        if chars[j] < '0' || chars[j] > '9' {
            assert(digits[j - start] == chars@[j as int]);
            assert(!all_digits(digits));
            return None;
        }
        assert(digits[j - start] == chars@[j as int]);
        j = j + 1;
    }
    assert(all_digits(digits));
    let mut value: u64 = 0;
    let mut i: usize = start;
    while i < chars.len()
        invariant
            start <= i <= chars@.len(),
            chars@ == text@,
            digits == (if chars@.len() > 0 && chars@[0] == '+' { chars@.drop_first() } else { chars@ }),
            digits == chars@.skip(start as int),
            all_digits(digits),
            value == digits_value(digits.take(i - start)),
        decreases chars@.len() - i,
    {
        let c = chars[i];
        let k: usize = i - start;
        proof {
            assert(digits[k as int] == c);
            assert(digits.take(k + 1).drop_last() =~= digits.take(k as int));
            assert(digits.take(k + 1).last() == c);
        }
        let d = (c as u32 - 48) as u64;
        if value > 1844674407370955161u64 || (value == 1844674407370955161u64 && d > 5) {
            proof {
                assert(digits_value(digits.take(k + 1)) == value * 10 + d);
                lemma_digits_value_grows(digits, k + 1);
            }
            return None;
        }
        value = value * 10 + d;
        i = i + 1;
    }
    proof {
        assert(digits.take(i - start) =~= digits);
    }
    Some(value)
}

/// A number does not shrink as digits follow it.
proof fn lemma_digits_value_grows(s: Seq<char>, n: int)
    requires
        0 <= n <= s.len(),
        all_digits(s),
    ensures
        digits_value(s.take(n)) <= digits_value(s),
    decreases s.len(),
{
    if n < s.len() {
        assert(s.drop_last().take(n) =~= s.take(n));
        assert(all_digits(s.drop_last())) by {
            assert forall|i: int| 0 <= i < s.drop_last().len() implies '0' <= #[trigger] s.drop_last()[i] <= '9' by {
                assert(s.drop_last()[i] == s[i]);
            }
        }
        lemma_digits_value_grows(s.drop_last(), n);
    } else {
        assert(s.take(n) =~= s);
    }
}

/// How long Spotify asks a rate-limited caller to wait, in seconds, from its `Retry-After`
/// header: the number it gives, and one second when it gives none that reads.
pub fn retry_after_s(header: Option<&str>) -> (wait: u64)
    ensures
        wait == (match header {
            Some(h) => match parsed_u64(h@) { Some(n) => n, None => 1 },
            None => 1,
        }),
{
    match header {
        Some(h) => match parse_u64(h) {
            Some(n) => n,
            None => 1,
        },
        None => 1,
    }
}

/// The text a reply is read from: an empty reply stands for `null`, which is what a call with
/// nothing to answer reads.
pub fn reply_text(text: String) -> (read: String)
    ensures
        trim(text@).len() == 0 ==> read@ == "null"@,
        trim(text@).len() > 0 ==> read == text,
{
    let t = trimmed(text.as_str());
    if t.as_str().is_empty() {
        "null".to_owned()
    } else {
        text
    }
}

/// Where a request stands in its tries.
#[derive(Debug, Clone, Copy, PartialEq, Eq, Structural)]
pub struct Sending {
    /// Whether the token was replaced after a refusal. It is, once.
    pub refreshed: bool,
    /// How many times a rate limit sent the request again.
    pub rate_limited: u8,
}

/// What to do after an answer.
#[derive(Debug, PartialEq, Eq)]
pub enum SendStep {
    /// The request succeeded: read the body.
    Done,
    /// The token was refused: drop it, take a new one, and go again.
    RenewToken,
    /// Rate limited: wait this many seconds and go again.
    Wait(u64),
    /// The request failed with this.
    Fail(ApiError),
}

/// How many tries a request has left, which each step that goes again uses up.
pub open spec fn tries_left(s: Sending) -> int {
    (if s.refreshed { 0int } else { 1int }) + (RATE_LIMIT_TRIES - s.rate_limited)
}

impl Sending {
    /// A request that has not been answered.
    pub fn new() -> (s: Self)
        ensures
            !s.refreshed,
            s.rate_limited == 0,
    {
        Sending { refreshed: false, rate_limited: 0 }
    }

    /// What to do with an answer: its status, the wait its `Retry-After` asks for, the message
    /// its body carries when it carries one, and the status's own name.
    pub fn answered(&mut self, status: u16, wait_s: u64, message: Option<String>, status_name: String) -> (step: SendStep)
        requires
            old(self).rate_limited <= RATE_LIMIT_TRIES,
        ensures
            final(self).rate_limited <= RATE_LIMIT_TRIES,
            200 <= status <= 299 ==> step is Done && *final(self) == *old(self),
            status == 401 && !old(self).refreshed ==> step is RenewToken && final(self).refreshed
                && final(self).rate_limited == old(self).rate_limited,
            status == 429 && old(self).rate_limited < RATE_LIMIT_TRIES && wait_s > MAX_BACKOFF_S
                ==> step == SendStep::Fail(ApiError::RateLimited { retry_after_s: Some(wait_s) }),
            status == 429 && old(self).rate_limited < RATE_LIMIT_TRIES && wait_s <= MAX_BACKOFF_S
                ==> step == SendStep::Wait(wait_s) && final(self).rate_limited == old(self).rate_limited + 1
                && final(self).refreshed == old(self).refreshed,
            status == 429 && old(self).rate_limited >= RATE_LIMIT_TRIES
                ==> step == SendStep::Fail(ApiError::RateLimited { retry_after_s: Some(wait_s) }),
            status == 403 ==> (step matches SendStep::Fail(ApiError::Forbidden { reason })
                && reason@ == (match message { Some(m) => m@, None => Seq::empty() })),
            status == 404 ==> step == SendStep::Fail(ApiError::NotFound),
            !(200 <= status <= 299) && !(status == 401 && !old(self).refreshed) && status != 429 && status != 403 && status != 404
                ==> (step matches SendStep::Fail(ApiError::Status { status: s, message: m })
                && s == status && m == (match message { Some(t) => t, None => status_name })),
            step is RenewToken || step is Wait ==> tries_left(*final(self)) < tries_left(*old(self)),
            step is Fail ==> *final(self) == *old(self),
    {
        if 200 <= status && status <= 299 {
            return SendStep::Done;
        }
        if status == 401 && !self.refreshed {
            self.refreshed = true;
            return SendStep::RenewToken;
        }
        if status == 429 {
            if self.rate_limited < RATE_LIMIT_TRIES {
                if wait_s > MAX_BACKOFF_S {
                    return SendStep::Fail(ApiError::RateLimited { retry_after_s: Some(wait_s) });
                }
                self.rate_limited = self.rate_limited + 1;
                return SendStep::Wait(wait_s);
            }
            return SendStep::Fail(ApiError::RateLimited { retry_after_s: Some(wait_s) });
        }
        if status == 403 {
            let reason = match message {
                Some(m) => m,
                None => String::new(),
            };
            return SendStep::Fail(ApiError::Forbidden { reason });
        }
        if status == 404 {
            return SendStep::Fail(ApiError::NotFound);
        }
        let message = match message {
            Some(m) => m,
            None => status_name,
        };
        SendStep::Fail(ApiError::Status { status, message })
    }
}

/// A request goes out at most four times: once, once more with a new token, and twice more after
/// a rate limit.
pub proof fn a_request_ends(s: Sending)
    requires
        s.rate_limited <= RATE_LIMIT_TRIES,
    ensures
        0 <= tries_left(s) <= 3,
{
}

/// One playlist Spotify makes, as the session describes it: Spotify owns it.
pub fn made_playlist(id: &PlaylistId, listing: Listing) -> (p: Playlist)
    ensures
        p.id == Some(*id),
        p.name == listing.name,
        (p.kind matches PlaylistKind::Followed { owner_name } && owner_name@ == "Spotify"@),
        p.description == listing.description,
        p.images@ == listing.images@,
        p.total_tracks == (if listing.tracks@.len() > u32::MAX { u32::MAX as int } else { listing.tracks@.len() as int }),
        p.snapshot_id is None,
{
    let total = if listing.tracks.len() > 4294967295usize { u32::MAX } else { listing.tracks.len() as u32 };
    let owner_name = "Spotify".to_owned();
    proof {
        reveal_strlit("Spotify");
    }
    Playlist {
        id: Some(id.clone()),
        name: listing.name,
        kind: PlaylistKind::Followed { owner_name },
        description: listing.description,
        images: listing.images,
        total_tracks: total,
        snapshot_id: None,
    }
}

/// Which of a made playlist's `len` tracks a page at `offset` reads: from the offset, or the end,
/// up to a page's worth.
pub fn made_range(offset: u32, len: usize) -> (range: (usize, usize))
    ensures
        range.0 == (if offset as int <= len { offset as int } else { len as int }),
        range.1 == (if range.0 + PAGE <= len { range.0 + PAGE } else { len as int }),
        range.0 <= range.1 <= len,
{
    let from: usize = if (offset as usize) <= len { offset as usize } else { len };
    let to: usize = if len - from >= 50 { from + 50 } else { len };
    (from, to)
}

/// The page a made playlist's tracks `from..to` make, of `len` in all, once read back: it covers
/// the whole range, so that a track the catalogue will not serve still moves the reader along.
pub fn made_page(items: Vec<Track>, whole: bool, offset: u32, len: usize, from: usize, to: usize) -> (page: Page<Track>)
    requires
        from <= to <= len,
    ensures
        page.items@ == items@,
        page.whole == whole,
        page.offset == offset,
        page.total == (if len > u32::MAX { u32::MAX as int } else { len as int }),
        page.covered == (if to - from > u32::MAX { u32::MAX as int } else { (to - from) as int }),
{
    let total = if len > 4294967295usize { u32::MAX } else { len as u32 };
    let span = to - from;
    let covered = if span > 4294967295usize { u32::MAX } else { span as u32 };
    Page { items, total, offset, whole, covered }
}

/// A JSON document, as the library reads one. Reading the text into this shape is the
/// application's.
#[derive(Debug, PartialEq, Eq)]
pub enum Json {
    /// `null`.
    Null,
    /// `true` or `false`.
    Bool(bool),
    /// A number, as written.
    Number(String),
    /// A string.
    Text(String),
    /// An array.
    List(Vec<Json>),
    /// An object: its keys and values, in the order the reader gives them.
    Object(Vec<(String, Json)>),
}

/// Every string in a document, in the order the walk meets them.
pub open spec fn texts_in(v: Json) -> Seq<Seq<char>>
    decreases v, 0nat,
{
    match v {
        Json::Text(t) => seq![t@],
        Json::List(items) => texts_in_list(items@),
        Json::Object(entries) => texts_in_entries(entries@),
        _ => Seq::empty(),
    }
}

/// Every string in a run of documents, in order.
pub open spec fn texts_in_list(items: Seq<Json>) -> Seq<Seq<char>>
    decreases items, 1nat,
{
    if items.len() == 0 {
        Seq::empty()
    } else {
        texts_in_list(items.subrange(0, items.len() - 1)) + texts_in(items[items.len() - 1])
    }
}

/// Every string in the values of a run of entries, in order.
pub open spec fn texts_in_entries(entries: Seq<(String, Json)>) -> Seq<Seq<char>>
    decreases entries, 1nat,
{
    if entries.len() == 0 {
        Seq::empty()
    } else {
        texts_in_entries(entries.subrange(0, entries.len() - 1)) + texts_in(entries[entries.len() - 1].1)
    }
}

/// `acc` after meeting the text `t`: its track identifier joins, when it has one not yet there.
pub open spec fn met(acc: Seq<Seq<char>>, t: Seq<char>) -> Seq<Seq<char>> {
    match track_id_in(t) {
        Some(id) => if acc.contains(id) { acc } else { acc.push(id) },
        None => acc,
    }
}

/// `acc` after meeting each of `texts`, in order.
pub open spec fn gathered(acc: Seq<Seq<char>>, texts: Seq<Seq<char>>) -> Seq<Seq<char>>
    decreases texts.len(),
{
    if texts.len() == 0 {
        acc
    } else {
        met(gathered(acc, texts.drop_last()), texts.last())
    }
}

/// Meeting two runs of texts is meeting one, then the other.
proof fn lemma_gathered_concat(acc: Seq<Seq<char>>, a: Seq<Seq<char>>, b: Seq<Seq<char>>)
    ensures
        gathered(acc, a + b) == gathered(gathered(acc, a), b),
    decreases b.len(),
{
    if b.len() == 0 {
        assert(a + b =~= a);
    } else {
        assert((a + b).drop_last() =~= a + b.drop_last());
        assert((a + b).last() == b.last());
        lemma_gathered_concat(acc, a, b.drop_last());
    }
}

/// Adds every track identifier anywhere in `value` to `out`, in the order they appear, each
/// once. A station's reply nests its list under keys this application does not pin down; this is
/// how it is read when its shape is not the expected one.
pub fn collect_track_ids(value: &Json, out: &mut Vec<TrackId>)
    ensures
        id_keys(final(out)@) == gathered(id_keys(old(out)@), texts_in(*value)),
    decreases value,
{
    match value {
        Json::Text(text) => {
            proof {
                assert(seq![text@].drop_last() =~= Seq::<Seq<char>>::empty());
                assert(seq![text@].last() == text@);
                assert(gathered(id_keys(old(out)@), Seq::<Seq<char>>::empty()) == id_keys(old(out)@));
                assert(texts_in(*value) == seq![text@]);
                assert(gathered(id_keys(old(out)@), seq![text@]) == met(id_keys(old(out)@), text@));
            }
            match track_id_from_uri(text.as_str()) {
                Some(id) => {
                    let mut seen = false;
                    let mut i: usize = 0;
                    while i < out.len()
                        invariant
                            i <= out@.len(),
                            seen == id_keys(out@.take(i as int)).contains(id.0@),
                        decreases out@.len() - i,
                    {
                        proof {
                            assert(id_keys(out@.take(i + 1)) =~= id_keys(out@.take(i as int)).push(out@[i as int].0@));
                            let ghost a = id_keys(out@.take(i as int));
                            let ghost b = id_keys(out@.take(i + 1));
                            assert(b.contains(id.0@) == (a.contains(id.0@) || out@[i as int].0@ == id.0@)) by {
                                if b.contains(id.0@) {
                                    let m = choose|m: int| 0 <= m < b.len() && b[m] == id.0@;
                                    if m < a.len() {
                                        assert(a[m] == b[m]);
                                    }
                                }
                                if a.contains(id.0@) {
                                    let m = choose|m: int| 0 <= m < a.len() && a[m] == id.0@;
                                    assert(b[m] == a[m]);
                                }
                                if out@[i as int].0@ == id.0@ {
                                    assert(b[i as int] == id.0@);
                                }
                            }
                        }
                        if out[i].0 == id.0 {
                            seen = true;
                        }
                        i = i + 1;
                    }
                    proof {
                        assert(out@.take(i as int) =~= out@);
                    }
                    if !seen {
                        let ghost before = out@;
                        out.push(id);
                        proof {
                            assert(id_keys(out@) =~= id_keys(before).push(track_id_in(text@)->0));
                        }
                    }
                },
                None => {},
            }
        },
        Json::List(items) => {
            assert(decreases_to!(*value => *items));
            let mut i: usize = 0;
            while i < items.len()
                invariant
                    decreases_to!(*value => *items),
                    i <= items@.len(),
                    id_keys(out@) == gathered(id_keys(old(out)@), texts_in_list(items@.take(i as int))),
                decreases items@.len() - i,
            {
                proof {
                    assert(items@.take(i + 1).subrange(0, i as int) =~= items@.take(i as int));
                    assert(items@.take(i + 1)[i as int] == items@[i as int]);
                    lemma_gathered_concat(id_keys(old(out)@), texts_in_list(items@.take(i as int)), texts_in(items@[i as int]));
                }
                proof {
                    vstd::std_specs::vec::axiom_vec_index_decreases(*items, i as int);
                }
                collect_track_ids(&items[i], out);
                i = i + 1;
            }
            proof {
                assert(items@.take(i as int) =~= items@);
            }
        },
        Json::Object(entries) => {
            assert(decreases_to!(*value => *entries));
            let mut i: usize = 0;
            while i < entries.len()
                invariant
                    decreases_to!(*value => *entries),
                    i <= entries@.len(),
                    id_keys(out@) == gathered(id_keys(old(out)@), texts_in_entries(entries@.take(i as int))),
                decreases entries@.len() - i,
            {
                proof {
                    assert(entries@.take(i + 1).subrange(0, i as int) =~= entries@.take(i as int));
                    assert(entries@.take(i + 1)[i as int] == entries@[i as int]);
                    lemma_gathered_concat(id_keys(old(out)@), texts_in_entries(entries@.take(i as int)), texts_in(entries@[i as int].1));
                }
                proof {
                    vstd::std_specs::vec::axiom_vec_index_decreases(*entries, i as int);
                    assert(decreases_to!(entries[i as int] => entries[i as int].1));
                }
                collect_track_ids(&entries[i].1, out);
                i = i + 1;
            }
            proof {
                assert(entries@.take(i as int) =~= entries@);
            }
        },
        _ => {},
    }
}

/// The message in an error reply: the text at `error.message`, when the body is an object that
/// has one.
pub open spec fn message_in(body: Json) -> Option<Seq<char>> {
    match body {
        Json::Object(entries) => match value_at(entries@, "error"@) {
            Some(Json::Object(inner)) => match value_at(inner@, "message"@) {
                Some(Json::Text(m)) => Some(m@),
                _ => None,
            },
            _ => None,
        },
        _ => None,
    }
}

/// The value of the first entry under `key`.
pub open spec fn value_at(entries: Seq<(String, Json)>, key: Seq<char>) -> Option<Json>
    decreases entries.len(),
{
    if entries.len() == 0 {
        None
    } else if entries[0].0@ == key {
        Some(entries[0].1)
    } else {
        value_at(entries.drop_first(), key)
    }
}

/// The value of the first entry under `key`.
fn entry<'a>(entries: &'a Vec<(String, Json)>, key: &str) -> (v: Option<&'a Json>)
    ensures
        v == (match value_at(entries@, key@) { Some(j) => Some(&j), None => None::<&Json> }),
{
    let mut i: usize = 0;
    assert(entries@.skip(0) =~= entries@);
    while i < entries.len()
        invariant
            i <= entries@.len(),
            value_at(entries@, key@) == value_at(entries@.skip(i as int), key@),
        decreases entries@.len() - i,
    {
        proof {
            assert(entries@.skip(i as int)[0] == entries@[i as int]);
            assert(entries@.skip(i as int).drop_first() =~= entries@.skip(i + 1));
        }
        if same_text(entries[i].0.as_str(), key) {
            return Some(&entries[i].1);
        }
        i = i + 1;
    }
    None
}

/// The message out of an error body, when there is one.
pub fn spotify_message(body: &Json) -> (m: Option<String>)
    ensures
        m is Some <==> message_in(*body) is Some,
        m matches Some(text) ==> message_in(*body) == Some(text@),
{
    proof {
        reveal_strlit("error");
        reveal_strlit("message");
    }
    match body {
        Json::Object(entries) => match entry(entries, "error") {
            Some(Json::Object(inner)) => match entry(inner, "message") {
                Some(Json::Text(m)) => Some(m.clone()),
                _ => None,
            },
            _ => None,
        },
        _ => None,
    }
}

/// What came back for one track.
#[derive(Debug)]
pub enum TrackReply {
    /// The track, read.
    Read(Track),
    /// Spotify will not serve it. Leave it out.
    Gone,
    /// Spotify asked for a pause. Leave it out, and say the list is short.
    Later,
}

/// What one track's answer means: a track read, one gone, or a rate limit, which means *ask
/// later* rather than *there is no such track*.
pub fn reply_for(answer: Result<crate::wire::FullTrack, ApiError>) -> (reply: TrackReply)
    ensures
        match answer {
            Ok(full) => if full.id is Some {
                reply matches TrackReply::Read(t) && crate::wire::is_track_of(t, full)
            } else {
                reply is Gone
            },
            Err(ApiError::RateLimited { .. }) => reply is Later,
            Err(_) => reply is Gone,
        },
{
    match answer {
        Ok(full) => match full.into_track() {
            Some(t) => TrackReply::Read(t),
            None => TrackReply::Gone,
        },
        Err(ApiError::RateLimited { .. }) => TrackReply::Later,
        Err(_) => TrackReply::Gone,
    }
}

/// The tracks read among `replies`, in order.
pub open spec fn read_among(replies: Seq<TrackReply>) -> Seq<Track>
    decreases replies.len(),
{
    if replies.len() == 0 {
        Seq::empty()
    } else {
        match replies.last() {
            TrackReply::Read(t) => read_among(replies.drop_last()).push(t),
            _ => read_among(replies.drop_last()),
        }
    }
}

/// The tracks the replies read, and whether no reply asked to wait.
pub fn tally(replies: Vec<TrackReply>) -> (result: (Vec<Track>, bool))
    ensures
        result.0@ == read_among(replies@),
        result.1 == (forall|i: int| 0 <= i < replies@.len() ==> !(#[trigger] replies@[i] is Later)),
{
    let ghost all = replies@;
    let mut source = replies;
    let mut backwards: Vec<TrackReply> = Vec::new();
    while source.len() > 0
        invariant
            source@.len() <= all.len(),
            source@ == all.take(source@.len() as int),
            backwards@ == all.skip(source@.len() as int).reverse(),
        decreases source@.len(),
    {
        let r = source.pop().unwrap();
        backwards.push(r);
        proof {
            let m = source@.len() as int;
            assert(source@ =~= all.take(m));
            assert(all.skip(m) =~= seq![r].add(all.skip(m + 1)));
            assert(backwards@ =~= all.skip(m).reverse());
        }
    }
    proof {
        assert(all.skip(0) =~= all);
        assert(all.take(0) =~= Seq::<TrackReply>::empty());
    }
    let mut fetched: Vec<Track> = Vec::new();
    let mut whole = true;
    let ghost mut k: int = 0;
    while backwards.len() > 0
        invariant
            0 <= k <= all.len(),
            backwards@ == all.skip(k).reverse(),
            fetched@ == read_among(all.take(k)),
            whole == (forall|i: int| 0 <= i < k ==> !(#[trigger] all[i] is Later)),
        decreases backwards@.len(),
    {
        let r = backwards.pop().unwrap();
        proof {
            assert(r == all[k]);
            assert(backwards@ =~= all.skip(k + 1).reverse());
            assert(all.take(k + 1).drop_last() =~= all.take(k));
            assert(all.take(k + 1).last() == all[k]);
        }
        match r {
            TrackReply::Read(t) => fetched.push(t),
            TrackReply::Later => {
                whole = false;
            },
            TrackReply::Gone => {},
        }
        proof {
            k = k + 1;
        }
    }
    proof {
        assert(all.take(k) =~= all);
    }
    (fetched, whole)
}

/// Where the last track of `pool` that is `id` stands, or -1.
pub open spec fn last_track(pool: Seq<Track>, id: Seq<char>) -> int
    decreases pool.len(),
{
    if pool.len() == 0 {
        -1
    } else if pool.last().id.0@ == id {
        pool.len() - 1
    } else {
        last_track(pool.drop_last(), id)
    }
}

/// The answer to a request for `ids`, from what is in hand: for each identifier, in the order
/// asked, where the track stands in `pool`, the later of two copies winning. An identifier asked
/// for twice is answered once.
pub open spec fn in_asked_order(ids: Seq<Seq<char>>, pool: Seq<Track>) -> Seq<int>
    decreases ids.len(),
{
    if ids.len() == 0 {
        Seq::empty()
    } else {
        let rest = in_asked_order(ids.drop_last(), pool);
        let k = last_track(pool, ids.last());
        if k >= 0 && !ids.drop_last().contains(ids.last()) { rest.push(k) } else { rest }
    }
}

/// Of `ids`, the ones no track of `known` is, in order: what has to be read.
pub fn wanted_ids(ids: &[TrackId], known: &[Track]) -> (wanted: Vec<TrackId>)
    ensures
        id_keys(wanted@) == id_keys(ids@).filter(|id: Seq<char>| last_track(known@, id) < 0),
{
    let mut wanted: Vec<TrackId> = Vec::new();
    let mut i: usize = 0;
    while i < ids.len()
        invariant
            i <= ids@.len(),
            id_keys(wanted@) == id_keys(ids@.take(i as int)).filter(|id: Seq<char>| last_track(known@, id) < 0),
        decreases ids@.len() - i,
    {
        proof {
            assert(id_keys(ids@.take(i + 1)) =~= id_keys(ids@.take(i as int)).push(ids@[i as int].0@));
            id_keys(ids@.take(i as int)).lemma_filter_push(ids@[i as int].0@, |id: Seq<char>| last_track(known@, id) < 0);
        }
        let ghost before = wanted@;
        if last_track_index(known, &ids[i]).is_none() {
            wanted.push(ids[i].clone());
            assert(id_keys(wanted@) =~= id_keys(before).push(ids@[i as int].0@));
        }
        i = i + 1;
    }
    assert(ids@.take(i as int) =~= ids@);
    wanted
}

/// Where the last track of `pool` that is `id` stands.
fn last_track_index(pool: &[Track], id: &TrackId) -> (k: Option<usize>)
    ensures
        last_track(pool@, id.0@) < 0 ==> k is None,
        last_track(pool@, id.0@) >= 0 ==> (k matches Some(i) && i == last_track(pool@, id.0@)),
        last_track(pool@, id.0@) < pool@.len(),
{
    proof {
        lemma_last_track_bounds(pool@, id.0@);
    }
    let mut i: usize = pool.len();
    assert(pool@.take(i as int) =~= pool@);
    while i > 0
        invariant
            i <= pool@.len(),
            last_track(pool@, id.0@) == last_track(pool@.take(i as int), id.0@),
        decreases i,
    {
        proof {
            assert(pool@.take(i as int).drop_last() =~= pool@.take(i - 1));
            assert(pool@.take(i as int).last() == pool@[i - 1]);
        }
        if pool[i - 1].id.0 == id.0 {
            return Some(i - 1);
        }
        i = i - 1;
    }
    None
}

/// The last track that is `id` stands in the pool.
proof fn lemma_last_track_bounds(pool: Seq<Track>, id: Seq<char>)
    ensures
        -1 <= last_track(pool, id) < pool.len(),
    decreases pool.len(),
{
    if pool.len() > 0 {
        lemma_last_track_bounds(pool.drop_last(), id);
    }
}

/// The tracks asked for as `ids`, back in the order asked: from the ones the cache held and the
/// ones just read, a track read winning over a kept copy. One that neither holds is left out.
pub fn in_order(ids: &[TrackId], known: Vec<Track>, fetched: Vec<Track>) -> (found: Vec<Track>)
    ensures
        found@.len() == in_asked_order(id_keys(ids@), known@ + fetched@).len(),
        forall|i: int| 0 <= i < found@.len() ==> (#[trigger] found@[i]).same(
            &(known@ + fetched@)[in_asked_order(id_keys(ids@), known@ + fetched@)[i]]),
{
    let mut pool = known;
    let mut more = fetched;
    let ghost all = pool@ + more@;
    pool.append(&mut more);
    proof {
        lemma_in_asked_order_bounds(id_keys(ids@), all);
    }
    let mut found: Vec<Track> = Vec::new();
    let mut i: usize = 0;
    while i < ids.len()
        invariant
            pool@ == all,
            i <= ids@.len(),
            found@.len() == in_asked_order(id_keys(ids@.take(i as int)), all).len(),
            forall|m: int| 0 <= m < found@.len() ==> (#[trigger] found@[m]).same(&all[in_asked_order(id_keys(ids@.take(i as int)), all)[m]]),
            forall|m: int| 0 <= m < in_asked_order(id_keys(ids@.take(i as int)), all).len()
                ==> 0 <= #[trigger] in_asked_order(id_keys(ids@.take(i as int)), all)[m] < all.len(),
        decreases ids@.len() - i,
    {
        let ghost keys = id_keys(ids@.take(i as int));
        let ghost next = id_keys(ids@.take(i + 1));
        proof {
            assert(next =~= keys.push(ids@[i as int].0@));
            assert(next.drop_last() =~= keys);
        }
        let mut earlier = false;
        let mut j: usize = 0;
        while j < i
            invariant
                j <= i < ids@.len(),
                keys == id_keys(ids@.take(i as int)),
                earlier == id_keys(ids@.take(j as int)).contains(ids@[i as int].0@),
            decreases i - j,
        {
            proof {
                let ghost a = id_keys(ids@.take(j as int));
                let ghost b = id_keys(ids@.take(j + 1));
                assert(b =~= a.push(ids@[j as int].0@));
                assert(b.contains(ids@[i as int].0@) == (a.contains(ids@[i as int].0@) || ids@[j as int].0@ == ids@[i as int].0@)) by {
                    if b.contains(ids@[i as int].0@) {
                        let m = choose|m: int| 0 <= m < b.len() && b[m] == ids@[i as int].0@;
                        if m < a.len() {
                            assert(a[m] == b[m]);
                        }
                    }
                    if a.contains(ids@[i as int].0@) {
                        let m = choose|m: int| 0 <= m < a.len() && a[m] == ids@[i as int].0@;
                        assert(b[m] == a[m]);
                    }
                    if ids@[j as int].0@ == ids@[i as int].0@ {
                        assert(b[j as int] == ids@[i as int].0@);
                    }
                }
            }
            if ids[j].0 == ids[i].0 {
                earlier = true;
            }
            j = j + 1;
        }
        let ghost before = found@;
        if !earlier {
            match last_track_index(pool.as_slice(), &ids[i]) {
                Some(k) => {
                    found.push(pool[k].clone());
                    proof {
                        assert forall|m: int| 0 <= m < found@.len() implies (#[trigger] found@[m]).same(&all[in_asked_order(next, all)[m]]) by {
                            if m < before.len() {
                                assert(found@[m] == before[m]);
                            }
                        }
                    }
                },
                None => {},
            }
        }
        i = i + 1;
    }
    assert(ids@.take(i as int) =~= ids@);
    found
}

/// Every place the answer names stands in the pool.
proof fn lemma_in_asked_order_bounds(ids: Seq<Seq<char>>, pool: Seq<Track>)
    ensures
        forall|m: int| 0 <= m < in_asked_order(ids, pool).len() ==> 0 <= #[trigger] in_asked_order(ids, pool)[m] < pool.len(),
    decreases ids.len(),
{
    if ids.len() > 0 {
        lemma_in_asked_order_bounds(ids.drop_last(), pool);
        lemma_last_track_bounds(pool, ids.last());
        let rest = in_asked_order(ids.drop_last(), pool);
        let all = in_asked_order(ids, pool);
        assert forall|m: int| 0 <= m < all.len() implies 0 <= #[trigger] all[m] < pool.len() by {
            if m < rest.len() {
                assert(all[m] == rest[m]);
            }
        }
    }
}

} // verus!
