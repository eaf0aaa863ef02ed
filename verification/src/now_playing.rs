//! What the macOS Now Playing panel is told.
//!
//! The system carries the bar forward from an elapsed time and a rate, so routine position reports
//! stay silent; a seek is told apart from the track running on by its size. The panel itself, its
//! media keys and the covers it shows are the application's.

use vstd::prelude::*;

use crate::models::{Track, artist_names, is_first_nearest, join, pick_image};
use crate::playback::{PlayStatus, PlaybackEvent};

verus! {

/// How far the position must move, in milliseconds, to count as a seek.
pub const JUMP_MS: u64 = 1500;

/// The cover width to ask for. Control Center draws it small.
pub const COVER: u32 = 640;

/// What the panel says the player is doing.
#[derive(Debug, Clone, Copy, PartialEq, Eq, Structural)]
pub enum PanelState {
    /// Audio runs.
    Playing,
    /// Audio is held, or a track is on its way.
    Paused,
    /// Nothing plays.
    Stopped,
}

/// What the panel says for the player's status.
pub open spec fn panel_state_of(status: PlayStatus) -> PanelState {
    match status {
        PlayStatus::Playing => PanelState::Playing,
        PlayStatus::Paused | PlayStatus::Loading => PanelState::Paused,
        PlayStatus::Stopped => PanelState::Stopped,
    }
}

/// What the system is told, in a shape that crosses a thread.
#[derive(Debug, PartialEq, Eq)]
pub struct NowPlaying {
    /// The name of the track, or nothing when there is no track.
    pub title: Option<String>,
    /// Every artist on it, in one line.
    pub artist: String,
    /// The album it came from.
    pub album: String,
    /// How long it runs, in milliseconds.
    pub duration_ms: u64,
    /// How far in it is, in milliseconds.
    pub elapsed_ms: u64,
    /// Whether the system carries the bar forward: while audio runs, and not while it is held.
    pub bar_runs: bool,
    /// What the panel says the player is doing.
    pub state: PanelState,
    /// The cover, as the bytes came off the network.
    pub artwork: Option<Vec<u8>>,
}

impl Default for NowPlaying {
    /// Nothing playing.
    fn default() -> (n: Self)
        ensures
            n.title is None,
            n.artist@.len() == 0,
            n.album@.len() == 0,
            n.duration_ms == 0,
            n.elapsed_ms == 0,
            !n.bar_runs,
            n.state == PanelState::Stopped,
            n.artwork is None,
    {
        NowPlaying {
            title: None,
            artist: String::new(),
            album: String::new(),
            duration_ms: 0,
            elapsed_ms: 0,
            bar_runs: false,
            state: PanelState::Stopped,
            artwork: None,
        }
    }
}

/// How far apart two positions are.
pub open spec fn gap(a: u64, b: u64) -> int {
    if a >= b { a - b } else { b - a }
}

/// What the engine last reported, as far as the panel shows it.
#[derive(Debug)]
pub struct PanelSnapshot {
    /// The track that is playing.
    pub track: Option<Track>,
    /// What the player is doing.
    pub status: PlayStatus,
    /// Where the track is, in milliseconds.
    pub position_ms: u64,
}

impl Default for PanelSnapshot {
    /// Nothing playing.
    fn default() -> (s: Self)
        ensures
            s.track is None,
            s.status == PlayStatus::Stopped,
            s.position_ms == 0,
    {
        PanelSnapshot { track: None, status: PlayStatus::Stopped, position_ms: 0 }
    }
}

impl PanelSnapshot {
    /// Writes one event, and says whether the system needs telling.
    ///
    /// Position reports arrive twice a second. Most of them leave the panel as it stands: only a
    /// step of more than [`JUMP_MS`] either way is one the system cannot make on its own.
    pub fn apply(&mut self, event: &PlaybackEvent) -> (told: bool)
        ensures
            match *event {
                PlaybackEvent::TrackStarted { track, .. } => {
                    &&& final(self).track matches Some(t) && t.same(&track)
                    &&& final(self).position_ms == 0
                    &&& final(self).status == old(self).status
                    &&& told
                },
                PlaybackEvent::Playing { position_ms } => {
                    &&& final(self).status == PlayStatus::Playing
                    &&& final(self).position_ms == position_ms
                    &&& told
                },
                PlaybackEvent::Paused { position_ms } => {
                    &&& final(self).status == PlayStatus::Paused
                    &&& final(self).position_ms == position_ms
                    &&& told
                },
                PlaybackEvent::Moved { position_ms } => {
                    &&& final(self).position_ms == position_ms
                    &&& final(self).status == old(self).status
                    &&& told == (gap(position_ms, old(self).position_ms) > JUMP_MS)
                },
                PlaybackEvent::Stopped => {
                    &&& final(self).status == PlayStatus::Stopped
                    &&& final(self).position_ms == 0
                    &&& told
                },
                PlaybackEvent::Loading => {
                    &&& final(self).status == PlayStatus::Loading
                    &&& final(self).position_ms == old(self).position_ms
                    &&& !told
                },
                _ => {
                    &&& final(self).status == old(self).status
                    &&& final(self).position_ms == old(self).position_ms
                    &&& !told
                },
            },
            !(event is TrackStarted) ==> final(self).track == old(self).track,
    {
        match event {
            PlaybackEvent::TrackStarted { track, .. } => {
                self.track = Some(track.clone());
                self.position_ms = 0;
                true
            },
            PlaybackEvent::Playing { position_ms } => {
                self.status = PlayStatus::Playing;
                self.position_ms = *position_ms;
                true
            },
            PlaybackEvent::Paused { position_ms } => {
                self.status = PlayStatus::Paused;
                self.position_ms = *position_ms;
                true
            },
            PlaybackEvent::Moved { position_ms } => {
                let step = if *position_ms >= self.position_ms {
                    *position_ms - self.position_ms
                } else {
                    self.position_ms - *position_ms
                };
                self.position_ms = *position_ms;
                step > JUMP_MS
            },
            PlaybackEvent::Stopped => {
                self.status = PlayStatus::Stopped;
                self.position_ms = 0;
                true
            },
            PlaybackEvent::Loading => {
                self.status = PlayStatus::Loading;
                false
            },
            // The panel shows none of these.
            PlaybackEvent::Unavailable { .. } => false,
            PlaybackEvent::VolumeChanged { .. } => false,
            PlaybackEvent::ShuffleChanged(_) => false,
            PlaybackEvent::RepeatChanged(_) => false,
            PlaybackEvent::QueueChanged { .. } => false,
            PlaybackEvent::Connection(_) => false,
        }
    }

    /// The address of the cover for the track that is playing: the picture of its album nearest
    /// [`COVER`] pixels wide.
    pub fn cover(&self) -> (url: Option<&str>)
        ensures
            url is Some <==> (self.track matches Some(t) && t.album matches Some(a) && a.images@.len() > 0),
            url matches Some(u) ==> self.track matches Some(t) && t.album matches Some(a)
                && exists|k: int| is_first_nearest(a.images@, COVER, k) && u@ == a.images@[k].url@,
    {
        let track = match &self.track {
            Some(t) => t,
            None => {
                return None;
            },
        };
        let album = match &track.album {
            Some(a) => a,
            None => {
                return None;
            },
        };
        match pick_image(album.images.as_slice(), COVER) {
            Some(image) => Some(image.url.as_str()),
            None => None,
        }
    }

    /// What the system is told, with `artwork` for the cover; the empty panel with nothing
    /// playing.
    pub fn published(&self, artwork: Option<Vec<u8>>) -> (info: NowPlaying)
        ensures
            self.track is None ==> {
                &&& info.title is None
                &&& info.artist@.len() == 0
                &&& info.album@.len() == 0
                &&& info.duration_ms == 0
                &&& info.elapsed_ms == 0
                &&& !info.bar_runs
                &&& info.state == PanelState::Stopped
                &&& info.artwork is None
            },
            self.track matches Some(t) ==> {
                &&& info.title == Some(t.name)
                &&& info.artist@ == join(artist_names(t.artists@), ", "@)
                &&& info.album@ == (match t.album { Some(a) => a.name@, None => Seq::<char>::empty() })
                &&& info.duration_ms == t.duration_ms
                &&& info.elapsed_ms == self.position_ms
                &&& info.bar_runs == (self.status == PlayStatus::Playing)
                &&& info.state == panel_state_of(self.status)
                &&& info.artwork == artwork
            },
    {
        let track = match &self.track {
            Some(t) => t,
            None => {
                return NowPlaying::default();
            },
        };
        let album = match &track.album {
            Some(a) => a.name.clone(),
            None => String::new(),
        };
        let state = match self.status {
            PlayStatus::Playing => PanelState::Playing,
            PlayStatus::Paused | PlayStatus::Loading => PanelState::Paused,
            PlayStatus::Stopped => PanelState::Stopped,
        };
        NowPlaying {
            title: Some(track.name.clone()),
            artist: track.artist_line(),
            album,
            duration_ms: track.duration_ms,
            elapsed_ms: self.position_ms,
            // A bar that stands still holds where it is.
            bar_runs: self.status.is_playing(),
            state,
            artwork,
        }
    }
}

} // verus!
