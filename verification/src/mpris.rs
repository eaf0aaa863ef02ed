//! What a Linux desktop sees of the player.
//!
//! MPRIS is the interface a desktop reads to show a media player in its shell and to answer the
//! keys on a keyboard. The engine reports what it does to one place, so this holds a copy of that
//! and answers from it. The bus itself is the application's.

use vstd::prelude::*;

use crate::models::{Track, is_first_nearest, pick_image};
use crate::playback::{Loudness, PlayStatus, PlaybackEvent};
use crate::queue::RepeatMode;
use crate::text::{chars_of, push_char, string_from};

verus! {

/// What the desktop shows the player doing.
#[derive(Debug, Clone, Copy, PartialEq, Eq, Structural)]
pub enum BusStatus {
    /// Audio runs.
    Playing,
    /// Audio is held, or a track is on its way.
    Paused,
    /// Nothing is loaded.
    Stopped,
}

/// What the desktop shows happening at the end of the queue.
#[derive(Debug, Clone, Copy, PartialEq, Eq, Structural)]
pub enum LoopStatus {
    /// Stop.
    Off,
    /// Start again from the top.
    Playlist,
    /// Play the same track again.
    Track,
}

/// What the desktop shows about a track.
#[derive(Debug, PartialEq, Eq)]
pub struct TrackMetadata {
    /// The track's object path on the bus; nothing for a track with no identifier, which no
    /// path can name.
    pub object_path: Option<String>,
    /// What it is called.
    pub title: String,
    /// Who made it.
    pub artists: Vec<String>,
    /// Which album it is on.
    pub album: Option<String>,
    /// The cover, at the size nearest 640 pixels.
    pub art_url: Option<String>,
    /// How long it runs, in microseconds.
    pub length_us: i64,
}

/// One property the desktop is told changed.
#[derive(Debug, PartialEq, Eq)]
pub enum Property {
    /// What it shows about the track; nothing when no track plays.
    Metadata(Option<TrackMetadata>),
    /// Whether it offers seeking.
    CanSeek(bool),
    /// Whether it offers play.
    CanPlay(bool),
    /// Whether it offers pause.
    CanPause(bool),
    /// Whether it offers going back.
    CanGoPrevious(bool),
    /// What the player is doing.
    PlaybackStatus(BusStatus),
    /// How loud it is.
    Volume(Loudness),
    /// Whether the order is shuffled.
    Shuffle(bool),
    /// What happens at the end.
    LoopStatus(LoopStatus),
    /// Whether anything follows.
    CanGoNext(bool),
}

/// What the desktop shows for the player's status.
pub open spec fn bus_status_of(status: PlayStatus) -> BusStatus {
    match status {
        PlayStatus::Playing => BusStatus::Playing,
        PlayStatus::Paused | PlayStatus::Loading => BusStatus::Paused,
        PlayStatus::Stopped => BusStatus::Stopped,
    }
}

/// What the desktop shows for the player's status.
pub fn bus_status(status: PlayStatus) -> (s: BusStatus)
    ensures
        s == bus_status_of(status),
{
    match status {
        PlayStatus::Playing => BusStatus::Playing,
        PlayStatus::Paused | PlayStatus::Loading => BusStatus::Paused,
        PlayStatus::Stopped => BusStatus::Stopped,
    }
}

/// What the desktop shows for a repeat mode.
pub open spec fn loop_status_of(mode: RepeatMode) -> LoopStatus {
    match mode {
        RepeatMode::Off => LoopStatus::Off,
        RepeatMode::All => LoopStatus::Playlist,
        RepeatMode::One => LoopStatus::Track,
    }
}

/// What the desktop shows for a repeat mode.
pub fn loop_status(mode: RepeatMode) -> (s: LoopStatus)
    ensures
        s == loop_status_of(mode),
{
    match mode {
        RepeatMode::Off => LoopStatus::Off,
        RepeatMode::All => LoopStatus::Playlist,
        RepeatMode::One => LoopStatus::Track,
    }
}

/// The repeat mode a desktop asks for with a loop status.
pub fn repeat_for(status: LoopStatus) -> (mode: RepeatMode)
    ensures
        loop_status_of(mode) == status,
{
    match status {
        LoopStatus::Off => RepeatMode::Off,
        LoopStatus::Playlist => RepeatMode::All,
        LoopStatus::Track => RepeatMode::One,
    }
}

/// Whether `c` is an ASCII letter or digit.
pub open spec fn is_ascii_alphanumeric(c: char) -> bool {
    ('0' <= c <= '9') || ('a' <= c <= 'z') || ('A' <= c <= 'Z')
}

/// `id` with each character a bus path does not allow made an underscore.
pub open spec fn bus_safe(id: Seq<char>) -> Seq<char> {
    id.map_values(|c: char| if is_ascii_alphanumeric(c) { c } else { '_' })
}

/// Only what a D-Bus object path allows.
pub fn sanitise(id: &str) -> (safe: String)
    ensures
        safe@ == bus_safe(id@),
{
    let chars = chars_of(id);
    let mut out = String::new();
    let mut i: usize = 0;
    while i < chars.len()
        invariant
            chars@ == id@,
            i <= chars@.len(),
            out@ == bus_safe(chars@.take(i as int)),
        decreases chars@.len() - i,
    {
        let c = chars[i];
        let kept = ('0' <= c && c <= '9') || ('a' <= c && c <= 'z') || ('A' <= c && c <= 'Z');
        push_char(&mut out, if kept { c } else { '_' });
        i = i + 1;
        proof {
            assert(out@ =~= bus_safe(chars@.take(i as int)));
        }
    }
    proof {
        assert(chars@.take(i as int) =~= chars@);
    }
    out
}

/// A length in milliseconds as microseconds, held at the largest `i64`.
pub open spec fn micros_of(millis: u64) -> i64 {
    if millis * 1000 > i64::MAX { i64::MAX } else { (millis * 1000) as i64 }
}

/// A length in milliseconds as microseconds, held at the largest `i64`.
pub fn micros(millis: u64) -> (us: i64)
    ensures
        us == micros_of(millis),
{
    if millis > 9223372036854775u64 {
        9223372036854775807i64
    } else {
        (millis * 1000) as i64
    }
}

/// The names of these artists.
pub open spec fn artist_name_texts(track: Track) -> Seq<Seq<char>> {
    track.artists@.map_values(|a: crate::models::ArtistRef| a.name@)
}

/// Whether `m` is what the desktop shows about `track`.
pub open spec fn is_metadata_of(m: TrackMetadata, track: Track) -> bool {
    &&& (m.object_path is Some <==> track.id.0@.len() > 0)
    &&& (m.object_path matches Some(p) ==> p@ == "/dev/canora/track/"@ + bus_safe(track.id.0@))
    &&& m.title == track.name
    &&& m.artists@.map_values(|s: String| s@) == artist_name_texts(track)
    &&& m.album == (match track.album { Some(a) => Some(a.name), None => None })
    &&& (m.art_url is Some <==> (track.album matches Some(a) && a.images@.len() > 0))
    &&& (m.art_url matches Some(u) ==> track.album matches Some(a)
        && exists|k: int| is_first_nearest(a.images@, 640, k) && u == a.images@[k].url)
    &&& m.length_us == micros_of(track.duration_ms)
}

/// What the desktop is told about.
#[derive(Debug)]
pub struct Snapshot {
    /// The track that is playing.
    pub track: Option<Track>,
    /// What the player is doing.
    pub status: PlayStatus,
    /// Where the track is, in milliseconds.
    pub position_ms: u64,
    /// How loud it is.
    pub volume: Loudness,
    /// Whether the order is shuffled.
    pub shuffle: bool,
    /// What happens at the end of the queue.
    pub repeat: RepeatMode,
    /// Whether anything follows the track that is playing.
    pub has_next: bool,
}

impl Snapshot {
    /// Nothing playing.
    pub fn new() -> (s: Self)
        ensures
            s.track is None,
            s.status == PlayStatus::Stopped,
            s.position_ms == 0,
            s.volume == Loudness::Level(0),
            !s.shuffle,
            s.repeat == RepeatMode::Off,
            !s.has_next,
    {
        Snapshot {
            track: None,
            status: PlayStatus::Stopped,
            position_ms: 0,
            volume: Loudness::Level(0),
            shuffle: false,
            repeat: RepeatMode::Off,
            has_next: false,
        }
    }

    /// What the desktop shows about the track; nothing when none plays.
    pub fn metadata(&self) -> (m: Option<TrackMetadata>)
        ensures
            self.track is None ==> m is None,
            self.track matches Some(t) ==> m matches Some(md) && is_metadata_of(md, t),
    {
        let track = match &self.track {
            Some(t) => t,
            None => {
                return None;
            },
        };
        // A track identifier is a D-Bus object path, and a path has no empty element.
        let object_path = if track.id.0.as_str().is_empty() {
            None
        } else {
            let mut path = String::new();
            path.append("/dev/canora/track/");
            let safe = sanitise(track.id.0.as_str());
            path.append(safe.as_str());
            Some(path)
        };
        let mut artists: Vec<String> = Vec::new();
        let mut i: usize = 0;
        while i < track.artists.len()
            invariant
                i <= track.artists@.len(),
                artists@.map_values(|s: String| s@) == artist_name_texts(*track).take(i as int),
            decreases track.artists@.len() - i,
        {
            let ghost before = artists@;
            artists.push(track.artists[i].name.clone());
            proof {
                assert(artists@.map_values(|s: String| s@) =~= before.map_values(|s: String| s@).push(track.artists@[i as int].name@));
                assert(artist_name_texts(*track).take(i + 1) =~= artist_name_texts(*track).take(i as int).push(track.artists@[i as int].name@));
            }
            i = i + 1;
        }
        proof {
            assert(artist_name_texts(*track).take(i as int) =~= artist_name_texts(*track));
        }
        let (album, art_url) = match &track.album {
            Some(a) => {
                let art = match pick_image(a.images.as_slice(), 640) {
                    Some(image) => Some(image.url.clone()),
                    None => None,
                };
                (Some(a.name.clone()), art)
            },
            None => (None, None),
        };
        Some(TrackMetadata {
            object_path,
            title: track.name.clone(),
            artists,
            album,
            art_url,
            length_us: micros(track.duration_ms),
        })
    }

    /// Writes one event, and says which properties it changed.
    ///
    /// A desktop that is told nothing shows a stale track, and one that is told everything on
    /// every position report wakes for no reason twice a second.
    pub fn apply(&mut self, event: &PlaybackEvent) -> (changed: Vec<Property>)
        ensures
            match *event {
                PlaybackEvent::TrackStarted { track, .. } => {
                    &&& final(self).track matches Some(t) && t.same(&track)
                    &&& final(self).position_ms == 0
                    &&& changed@.len() == 5
                    &&& changed@[0] matches Property::Metadata(Some(m)) && is_metadata_of(m, final(self).track->0)
                    &&& changed@[1] == Property::CanSeek(true)
                    &&& changed@[2] == Property::CanPlay(true)
                    &&& changed@[3] == Property::CanPause(true)
                    &&& changed@[4] == Property::CanGoPrevious(true)
                },
                PlaybackEvent::Playing { position_ms } => {
                    &&& final(self).status == PlayStatus::Playing
                    &&& final(self).position_ms == position_ms
                    &&& changed@ == seq![Property::PlaybackStatus(BusStatus::Playing)]
                },
                PlaybackEvent::Paused { position_ms } => {
                    &&& final(self).status == PlayStatus::Paused
                    &&& final(self).position_ms == position_ms
                    &&& changed@ == seq![Property::PlaybackStatus(BusStatus::Paused)]
                },
                PlaybackEvent::Moved { position_ms } => {
                    &&& final(self).position_ms == position_ms
                    &&& changed@.len() == 0
                },
                PlaybackEvent::Stopped => {
                    &&& final(self).status == PlayStatus::Stopped
                    &&& final(self).position_ms == 0
                    &&& changed@ == seq![Property::PlaybackStatus(BusStatus::Stopped)]
                },
                PlaybackEvent::VolumeChanged { volume } => {
                    &&& final(self).volume == volume
                    &&& changed@ == seq![Property::Volume(volume)]
                },
                PlaybackEvent::ShuffleChanged(on) => {
                    &&& final(self).shuffle == on
                    &&& changed@ == seq![Property::Shuffle(on)]
                },
                PlaybackEvent::RepeatChanged(mode) => {
                    &&& final(self).repeat == mode
                    &&& changed@ == seq![Property::LoopStatus(loop_status_of(mode))]
                },
                PlaybackEvent::QueueChanged { upcoming } => {
                    &&& final(self).has_next == (upcoming@.len() > 0)
                    &&& changed@ == seq![Property::CanGoNext(upcoming@.len() > 0)]
                },
                _ => changed@.len() == 0,
            },
            !(event is TrackStarted) ==> final(self).track == old(self).track,
            !(event is Playing || event is Paused || event is Stopped) ==> final(self).status == old(self).status,
            !(event is TrackStarted || event is Playing || event is Paused || event is Moved || event is Stopped)
                ==> final(self).position_ms == old(self).position_ms,
            !(event is VolumeChanged) ==> final(self).volume == old(self).volume,
            !(event is ShuffleChanged) ==> final(self).shuffle == old(self).shuffle,
            !(event is RepeatChanged) ==> final(self).repeat == old(self).repeat,
            !(event is QueueChanged) ==> final(self).has_next == old(self).has_next,
    {
        let mut changed: Vec<Property> = Vec::new();
        match event {
            PlaybackEvent::TrackStarted { track, .. } => {
                self.track = Some(track.clone());
                self.position_ms = 0;
                let metadata = self.metadata();
                changed.push(Property::Metadata(metadata));
                changed.push(Property::CanSeek(true));
                changed.push(Property::CanPlay(true));
                changed.push(Property::CanPause(true));
                changed.push(Property::CanGoPrevious(true));
            },
            PlaybackEvent::Playing { position_ms } => {
                self.status = PlayStatus::Playing;
                self.position_ms = *position_ms;
                changed.push(Property::PlaybackStatus(BusStatus::Playing));
            },
            PlaybackEvent::Paused { position_ms } => {
                self.status = PlayStatus::Paused;
                self.position_ms = *position_ms;
                changed.push(Property::PlaybackStatus(BusStatus::Paused));
            },
            PlaybackEvent::Moved { position_ms } => {
                self.position_ms = *position_ms;
            },
            PlaybackEvent::Loading => {},
            PlaybackEvent::Stopped => {
                self.status = PlayStatus::Stopped;
                self.position_ms = 0;
                changed.push(Property::PlaybackStatus(BusStatus::Stopped));
            },
            PlaybackEvent::Unavailable { .. } => {},
            PlaybackEvent::VolumeChanged { volume } => {
                self.volume = *volume;
                changed.push(Property::Volume(*volume));
            },
            PlaybackEvent::ShuffleChanged(on) => {
                self.shuffle = *on;
                changed.push(Property::Shuffle(*on));
            },
            PlaybackEvent::RepeatChanged(mode) => {
                self.repeat = *mode;
                changed.push(Property::LoopStatus(loop_status(*mode)));
            },
            PlaybackEvent::QueueChanged { upcoming } => {
                self.has_next = upcoming.len() > 0;
                changed.push(Property::CanGoNext(self.has_next));
            },
            // The desktop reads the state of the connection from the playback status.
            PlaybackEvent::Connection(_) => {},
        }
        proof {
            if changed@.len() == 1 {
                assert(changed@ =~= seq![changed@[0]]);
            }
        }
        changed
    }

    /// Whether a pause from the desktop toggles the player: only while audio runs.
    pub fn pause_toggles(&self) -> (t: bool)
        ensures
            t == (self.status == PlayStatus::Playing),
    {
        self.status.is_playing()
    }

    /// Whether a play from the desktop toggles the player: only while audio does not run.
    pub fn play_toggles(&self) -> (t: bool)
        ensures
            t == (self.status != PlayStatus::Playing),
    {
        !self.status.is_playing()
    }

    /// Whether the desktop may go back, play, pause or seek: whenever a track is there.
    pub fn has_track(&self) -> (t: bool)
        ensures
            t == self.track is Some,
    {
        self.track.is_some()
    }

    /// Where a relative seek of `offset_us` microseconds from the desktop lands, in milliseconds:
    /// never before the start.
    pub fn seek_target(&self, offset_us: i64) -> (target_ms: u64)
        ensures
            target_ms == (if micros_of(self.position_ms) + offset_us <= 0 { 0 } else { ((micros_of(self.position_ms) + offset_us) / 1000) as u64 }),
    {
        let now = micros(self.position_ms) as i128;
        let wanted = now + offset_us as i128;
        if wanted <= 0 {
            0
        } else {
            (wanted / 1000) as u64
        }
    }
}

/// Where an absolute seek to `position_us` microseconds from the desktop lands, in milliseconds:
/// never before the start.
pub fn absolute_seek_target(position_us: i64) -> (target_ms: u64)
    ensures
        target_ms == (if position_us <= 0 { 0 } else { (position_us / 1000) as u64 }),
{
    if position_us <= 0 {
        0
    } else {
        (position_us / 1000) as u64
    }
}

} // verus!
