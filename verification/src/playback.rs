//! What the interface knows about playback.
//!
//! The engine reports an event, the application hands it to the interface thread, and
//! [`PlaybackState::apply`] writes it. The position is kept as an anchor rather than a number:
//! the engine reports a position twice a second, and the interface fills the gaps from the clock,
//! so the bar moves smoothly. The clock itself is the application's.

use vstd::prelude::*;

use crate::engine::{Engine, Report};
use crate::models::{Track, TrackId};
use crate::queue::RepeatMode;

verus! {

/// How loud the player is, from zero to one, as the interface holds it. It comes two ways: from
/// the mixer, as a level out of `u16::MAX`, and from the volume slider, as the value the slider
/// gave. That value is a double, and the library holds its IEEE 754 bits: for numbers that are not
/// negative, the order of the bits as whole numbers is the order of the numbers.
#[derive(Debug, Clone, Copy, PartialEq, Eq, Structural)]
pub enum Loudness {
    /// The mixer's level: the volume is `level / u16::MAX`.
    Level(u16),
    /// The bits of the value the slider set.
    Slider(u64),
}

/// Whether a dead connection holds playback.
#[derive(Debug, Clone, Copy, PartialEq, Eq, Structural)]
pub enum Connection {
    /// The connection went, and the queue waits.
    Lost,
    /// The connection is back.
    Restored,
}

/// Something the player did, with what the interface draws of it.
#[derive(Debug)]
pub enum PlaybackEvent {
    /// A track started.
    TrackStarted {
        /// Which track.
        track: Track,
        /// Where it sits in the play order.
        index: usize,
        /// How long the play order is.
        queue_len: usize,
    },
    /// The track is playing, from this position in milliseconds.
    Playing {
        /// Where it is.
        position_ms: u64,
    },
    /// The track is paused, at this position in milliseconds.
    Paused {
        /// Where it is.
        position_ms: u64,
    },
    /// The position moved.
    Moved {
        /// Where it is now, in milliseconds.
        position_ms: u64,
    },
    /// A track is loading.
    Loading,
    /// Nothing is playing.
    Stopped,
    /// A track cannot be played, so it was passed over.
    Unavailable {
        /// Which track.
        track_id: TrackId,
    },
    /// The volume changed.
    VolumeChanged {
        /// How loud it is.
        volume: Loudness,
    },
    /// Shuffle went on or off.
    ShuffleChanged(bool),
    /// What happens at the end of the queue changed.
    RepeatChanged(RepeatMode),
    /// What plays next changed.
    QueueChanged {
        /// The next few tracks.
        upcoming: Vec<Track>,
    },
    /// The connection went or came back.
    Connection(Connection),
}

impl Engine {
    /// The event the interface hears for `report`: a started track carries the loaded track, and
    /// a changed queue carries what plays next, as many as the panel shows.
    pub fn event_for(&self, report: Report) -> (event: PlaybackEvent)
        requires
            self.wf(),
            report is TrackStarted ==> self.loaded is Some,
        ensures
            match report {
                Report::TrackStarted { index, queue_len } => event matches PlaybackEvent::TrackStarted { track, index: i, queue_len: n }
                    && i == index && n == queue_len && track.same(&self.loaded->0),
                Report::Playing(p) => event == PlaybackEvent::Playing { position_ms: p },
                Report::Paused(p) => event == PlaybackEvent::Paused { position_ms: p },
                Report::Moved(p) => event == PlaybackEvent::Moved { position_ms: p },
                Report::Loading => event == PlaybackEvent::Loading,
                Report::Stopped => event == PlaybackEvent::Stopped,
                Report::Unavailable(id) => event == PlaybackEvent::Unavailable { track_id: id },
                Report::VolumeChanged(volume) => event == PlaybackEvent::VolumeChanged { volume },
                Report::ShuffleChanged(on) => event == PlaybackEvent::ShuffleChanged(on),
                Report::RepeatChanged(mode) => event == PlaybackEvent::RepeatChanged(mode),
                Report::QueueChanged => event matches PlaybackEvent::QueueChanged { upcoming }
                    && upcoming@.len() == self.queue.upcoming_tracks(crate::engine::UPCOMING as nat).len()
                    && forall|i: int| 0 <= i < upcoming@.len() ==> (#[trigger] upcoming@[i]).same(
                        &self.queue.upcoming_tracks(crate::engine::UPCOMING as nat)[i]),
                Report::ConnectionLost => event == PlaybackEvent::Connection(Connection::Lost),
                Report::ConnectionRestored => event == PlaybackEvent::Connection(Connection::Restored),
            },
    {
        match report {
            Report::TrackStarted { index, queue_len } => {
                let track = match &self.loaded {
                    Some(t) => t.clone(),
                    None => {
                        // Not reached: a started track is the loaded one.
                        return PlaybackEvent::Stopped;
                    },
                };
                PlaybackEvent::TrackStarted { track, index, queue_len }
            },
            Report::Playing(p) => PlaybackEvent::Playing { position_ms: p },
            Report::Paused(p) => PlaybackEvent::Paused { position_ms: p },
            Report::Moved(p) => PlaybackEvent::Moved { position_ms: p },
            Report::Loading => PlaybackEvent::Loading,
            Report::Stopped => PlaybackEvent::Stopped,
            Report::Unavailable(id) => PlaybackEvent::Unavailable { track_id: id },
            Report::VolumeChanged(volume) => PlaybackEvent::VolumeChanged { volume },
            Report::ShuffleChanged(on) => PlaybackEvent::ShuffleChanged(on),
            Report::RepeatChanged(mode) => PlaybackEvent::RepeatChanged(mode),
            Report::QueueChanged => PlaybackEvent::QueueChanged { upcoming: self.queue.upcoming(crate::engine::UPCOMING) },
            Report::ConnectionLost => PlaybackEvent::Connection(Connection::Lost),
            Report::ConnectionRestored => PlaybackEvent::Connection(Connection::Restored),
        }
    }
}

/// What the player is doing.
#[derive(Debug, Clone, Copy, PartialEq, Eq, Structural)]
pub enum PlayStatus {
    /// Nothing is loaded.
    Stopped,
    /// A track is on its way.
    Loading,
    /// Audio is running.
    Playing,
    /// Audio is held.
    Paused,
}

impl PlayStatus {
    /// Whether audio is running.
    pub fn is_playing(self) -> (r: bool)
        ensures
            r <==> self == PlayStatus::Playing,
    {
        match self {
            PlayStatus::Playing => true,
            _ => false,
        }
    }
}

impl Default for PlayStatus {
    fn default() -> (s: Self)
        ensures
            s == PlayStatus::Stopped,
    {
        PlayStatus::Stopped
    }
}

/// The track that is playing, and where it sits in the queue.
#[derive(Debug, PartialEq, Eq)]
pub struct Playing {
    /// Which track.
    pub track: Track,
    /// Where it sits in the play order.
    pub index: usize,
    /// How long the play order is.
    pub queue_len: usize,
}

/// The bits of the double 0.5: the volume the interface starts from, half way.
pub const HALF_VOLUME_BITS: u64 = 0x3FE0_0000_0000_0000;

/// What the interface reads about playback.
#[derive(Debug)]
pub struct PlaybackState {
    /// The track that is playing.
    pub playing: Option<Playing>,
    /// What the player is doing.
    pub status: PlayStatus,
    /// The last reported position, in milliseconds. The clock the interface counts on from it
    /// restarts whenever [`PlaybackState::apply`] says so.
    pub anchor_ms: u64,
    /// How loud it is.
    pub volume: Loudness,
    /// Whether the order is shuffled.
    pub shuffle: bool,
    /// What happens at the end of the queue.
    pub repeat: RepeatMode,
    /// The next few tracks.
    pub upcoming: Vec<Track>,
}

impl PlaybackState {
    /// A state with nothing playing.
    pub fn new() -> (s: Self)
        ensures
            s.playing is None,
            s.status == PlayStatus::Stopped,
            s.anchor_ms == 0,
            s.volume == Loudness::Slider(HALF_VOLUME_BITS),
            !s.shuffle,
            s.repeat == RepeatMode::Off,
            s.upcoming@.len() == 0,
    {
        PlaybackState {
            playing: None,
            status: PlayStatus::Stopped,
            anchor_ms: 0,
            volume: Loudness::Slider(HALF_VOLUME_BITS),
            shuffle: false,
            repeat: RepeatMode::Off,
            upcoming: Vec::new(),
        }
    }

    /// Where the track is now, `elapsed_ms` after the anchor was set: the anchor plus the time
    /// since while audio runs, and the anchor alone otherwise.
    pub fn position(&self, elapsed_ms: u64) -> (p: u64)
        ensures
            p == (if self.status == PlayStatus::Playing {
                if self.anchor_ms + elapsed_ms > u64::MAX { u64::MAX } else { (self.anchor_ms + elapsed_ms) as u64 }
            } else {
                self.anchor_ms
            }),
    {
        if self.status.is_playing() {
            self.anchor_ms.saturating_add(elapsed_ms)
        } else {
            self.anchor_ms
        }
    }

    /// How long the track that is playing runs, in milliseconds; zero with nothing playing.
    pub fn duration(&self) -> (d: u64)
        ensures
            d == (match self.playing { Some(p) => p.track.duration_ms, None => 0 }),
    {
        match &self.playing {
            Some(p) => p.track.duration_ms,
            None => 0,
        }
    }

    /// Which track is playing.
    pub fn current_id(&self) -> (id: Option<TrackId>)
        ensures
            id == (match self.playing { Some(p) => Some(p.track.id), None => None }),
    {
        match &self.playing {
            Some(p) => Some(p.track.id.clone()),
            None => None,
        }
    }

    /// Writes one event, and says whether the clock the position counts from restarts.
    ///
    /// A started track shows from its start. A position report moves the anchor. A volume,
    /// shuffle, repeat or queue report replaces what it reports on. An unavailable track and a
    /// change of connection change nothing here.
    pub fn apply(&mut self, event: PlaybackEvent) -> (restart: bool)
        ensures
            match event {
                PlaybackEvent::TrackStarted { track, index, queue_len } => {
                    &&& final(self).playing == Some(Playing { track, index, queue_len })
                    &&& final(self).anchor_ms == 0
                    &&& final(self).status == old(self).status
                    &&& restart
                },
                PlaybackEvent::Playing { position_ms } => {
                    &&& final(self).status == PlayStatus::Playing
                    &&& final(self).anchor_ms == position_ms
                    &&& final(self).playing == old(self).playing
                    &&& restart
                },
                PlaybackEvent::Paused { position_ms } => {
                    &&& final(self).status == PlayStatus::Paused
                    &&& final(self).anchor_ms == position_ms
                    &&& final(self).playing == old(self).playing
                    &&& restart
                },
                PlaybackEvent::Moved { position_ms } => {
                    &&& final(self).anchor_ms == position_ms
                    &&& final(self).status == old(self).status
                    &&& final(self).playing == old(self).playing
                    &&& restart
                },
                PlaybackEvent::Loading => {
                    &&& final(self).status == PlayStatus::Loading
                    &&& final(self).anchor_ms == old(self).anchor_ms
                    &&& final(self).playing == old(self).playing
                    &&& !restart
                },
                PlaybackEvent::Stopped => {
                    &&& final(self).status == PlayStatus::Stopped
                    &&& final(self).anchor_ms == 0
                    &&& final(self).playing == old(self).playing
                    &&& restart
                },
                _ => {
                    &&& final(self).status == old(self).status
                    &&& final(self).anchor_ms == old(self).anchor_ms
                    &&& final(self).playing == old(self).playing
                    &&& !restart
                },
            },
            event matches PlaybackEvent::VolumeChanged { volume } ==> final(self).volume == volume,
            !(event is VolumeChanged) ==> final(self).volume == old(self).volume,
            event matches PlaybackEvent::ShuffleChanged(on) ==> final(self).shuffle == on,
            !(event is ShuffleChanged) ==> final(self).shuffle == old(self).shuffle,
            event matches PlaybackEvent::RepeatChanged(mode) ==> final(self).repeat == mode,
            !(event is RepeatChanged) ==> final(self).repeat == old(self).repeat,
            event matches PlaybackEvent::QueueChanged { upcoming } ==> final(self).upcoming == upcoming,
            !(event is QueueChanged) ==> final(self).upcoming == old(self).upcoming,
    {
        match event {
            PlaybackEvent::TrackStarted { track, index, queue_len } => {
                self.playing = Some(Playing { track, index, queue_len });
                self.anchor_ms = 0;
                true
            },
            PlaybackEvent::Playing { position_ms } => {
                self.status = PlayStatus::Playing;
                self.anchor_ms = position_ms;
                true
            },
            PlaybackEvent::Paused { position_ms } => {
                self.status = PlayStatus::Paused;
                self.anchor_ms = position_ms;
                true
            },
            PlaybackEvent::Moved { position_ms } => {
                self.anchor_ms = position_ms;
                true
            },
            PlaybackEvent::Loading => {
                self.status = PlayStatus::Loading;
                false
            },
            PlaybackEvent::Stopped => {
                self.status = PlayStatus::Stopped;
                self.anchor_ms = 0;
                true
            },
            PlaybackEvent::Unavailable { .. } => false,
            PlaybackEvent::VolumeChanged { volume } => {
                self.volume = volume;
                false
            },
            PlaybackEvent::ShuffleChanged(on) => {
                self.shuffle = on;
                false
            },
            PlaybackEvent::RepeatChanged(mode) => {
                self.repeat = mode;
                false
            },
            PlaybackEvent::QueueChanged { upcoming } => {
                self.upcoming = upcoming;
                false
            },
            PlaybackEvent::Connection(_) => false,
        }
    }
}

} // verus!
