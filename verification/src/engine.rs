//! What the audio engine decides.
//!
//! One task holds the audio pipeline, the mixer and the queue. It takes instructions from the
//! interface and reads the pipeline's own events. The pipeline itself is the application's: the
//! engine here answers each instruction and each event with the next state and a list of things
//! to do, in order, and the application does them.
//!
//! Loading a track starts with reading its identifier as a URI, which only the pipeline's library
//! can do. The engine therefore asks for that first ([`Action::Resolve`]) and hears the answer in
//! [`Engine::resolved`] before it goes on.

use vstd::prelude::*;

use crate::models::{Track, TrackId};
use crate::playback::Loudness;
use crate::queue::{PlayContext, Queue, RepeatMode, advanced, replaced, shuffle_turned, stepped_back};

verus! {

/// How far into a track, in milliseconds, "previous" restarts it rather than going back.
pub const RESTART_AFTER_MS: u64 = 3000;

/// How much of a track, in milliseconds, may be left when it ends for it to count as finished.
///
/// A track that ends with more time than this left has failed. The usual cause is a connection
/// that went, which leaves the pipeline with bytes that it holds no key for.
pub const NEARLY_OVER_MS: u64 = 5000;

/// How many tracks may fail in a row before the queue waits.
pub const FAULTS_ALLOWED: u8 = 3;

/// How many tracks the queue panel shows.
pub const UPCOMING: usize = 50;

/// Whether a track that ended at `position` had played to its end of `duration`.
///
/// A track that fails plays no audio, so it ends at the position where it started. A track that
/// finished ends near its length.
pub open spec fn has_finished(position: u64, duration: u64) -> bool {
    position + NEARLY_OVER_MS >= duration
}

/// Whether a track that ended had played to its end.
pub fn finished(position_ms: u64, duration_ms: u64) -> (done: bool)
    ensures
        done == has_finished(position_ms, duration_ms),
{
    position_ms >= duration_ms || duration_ms - position_ms <= NEARLY_OVER_MS
}

/// One instruction from the interface.
pub enum Command {
    /// Replaces the queue and starts playing.
    PlayTracks {
        /// What to play.
        tracks: Vec<Track>,
        /// Which one to start with.
        start: usize,
        /// Where the tracks came from.
        context: PlayContext,
    },
    /// Plays if paused. Pauses if playing.
    TogglePlay,
    /// Moves to the next track.
    Next,
    /// Moves to the previous track, or back to the start of this one.
    Previous,
    /// Moves the position inside the track, to this many milliseconds.
    Seek(u64),
    /// Sets the volume from the slider: the mixer's level for it, and the value the slider gave,
    /// clamped to zero to one, which the interface is told as it was set.
    SetVolume(u16, Loudness),
    /// Turns shuffle on or off.
    SetShuffle(bool),
    /// Sets what happens at the end of the queue.
    SetRepeat(RepeatMode),
    /// Puts a track next.
    PlayNext(Track),
    /// A session replaced the one that died.
    SessionReplaced,
    /// Stops the engine.
    Shutdown,
}

/// Something the pipeline reports.
pub enum PipelineEvent {
    /// Audio runs, from this position in milliseconds.
    Playing(u32),
    /// Audio is held, at this position in milliseconds.
    Paused(u32),
    /// The position is now this many milliseconds: a seek, a correction or a periodic report.
    Position(u32),
    /// A track is loading.
    Loading,
    /// A track ended, finished or failed.
    EndOfTrack,
    /// The next track is due to be read ahead.
    TimeToPreloadNextTrack,
    /// A track cannot be played; the identifier, when the pipeline could name one.
    Unavailable(Option<TrackId>),
    /// Nothing plays.
    Stopped,
    /// The mixer's level is now this.
    VolumeChanged(u16),
    /// Anything else, which the engine passes over.
    Other,
}

/// What the engine tells the interface.
#[derive(Debug, PartialEq, Eq)]
pub enum Report {
    /// The track the engine loaded started, at this entry of a play order this long.
    TrackStarted {
        /// Where it sits in the play order.
        index: usize,
        /// How long the play order is.
        queue_len: usize,
    },
    /// The track plays, from this position in milliseconds.
    Playing(u64),
    /// The track is paused, at this position in milliseconds.
    Paused(u64),
    /// The position moved, to this many milliseconds.
    Moved(u64),
    /// A track is loading.
    Loading,
    /// Nothing is playing.
    Stopped,
    /// This track cannot be played, so it was passed over.
    Unavailable(TrackId),
    /// The volume changed.
    VolumeChanged(Loudness),
    /// Shuffle went on or off.
    ShuffleChanged(bool),
    /// What happens at the end of the queue changed.
    RepeatChanged(RepeatMode),
    /// What plays next changed.
    QueueChanged,
    /// The connection went, and the queue waits.
    ConnectionLost,
    /// The connection is back.
    ConnectionRestored,
}

/// Something for the application to do.
#[derive(Debug, PartialEq, Eq)]
pub enum Action {
    /// Stop the pipeline.
    Stop,
    /// Pause the pipeline.
    Pause,
    /// Play.
    Play,
    /// Move the pipeline to this many milliseconds.
    Seek(u32),
    /// Read the identifier of the loaded track as a URI, and tell [`Engine::resolved`] whether
    /// that worked.
    Resolve,
    /// Load the loaded track into the pipeline, playing or not, from this many milliseconds.
    Load {
        /// Whether audio starts.
        play: bool,
        /// Where.
        from_ms: u32,
    },
    /// Read this track ahead, so that it follows with no gap.
    Preload(TrackId),
    /// Set the mixer's level.
    SetVolume(u16),
    /// Keep the mixer's level for the next run.
    SaveVolume(u16),
    /// End the session, so that the watchdog builds another.
    EndSession,
    /// Hand the session that replaced the dead one to the pipeline.
    UseSession,
    /// Tell the interface.
    Report(Report),
}

/// A load waiting for its track's URI.
#[derive(Debug, Clone, Copy, PartialEq, Eq, Structural)]
pub struct Pending {
    /// Whether audio starts.
    pub play: bool,
    /// Where the track starts, in milliseconds.
    pub from_ms: u64,
    /// How many times the interface is owed word that the queue changed, once the load is done.
    pub reports_owed: u64,
}

/// Everything the engine decides with.
#[derive(Debug)]
pub struct Engine {
    /// What plays, and what plays next.
    pub queue: Queue,
    /// Whether audio is running. The pipeline has no such question to ask.
    pub playing: bool,
    /// Where the current track is, as of the last event, in milliseconds.
    pub position_ms: u64,
    /// How long the current track runs, in milliseconds.
    pub duration_ms: u64,
    /// How many tracks have failed in a row.
    pub faults: u8,
    /// Set while a dead connection holds playback. The value says whether audio was running.
    pub held: Option<bool>,
    /// The track the engine last chose to load.
    pub loaded: Option<Track>,
    /// A load waiting for its track's URI.
    pub pending: Option<Pending>,
}

/// `n` times the word that the queue changed.
pub open spec fn queue_reports(n: nat) -> Seq<Action>
    decreases n,
{
    if n == 0 {
        Seq::empty()
    } else {
        queue_reports((n - 1) as nat).push(Action::Report(Report::QueueChanged))
    }
}

/// The position to load from, held at the largest `u32`.
pub open spec fn load_position(from: u64) -> u32 {
    if from > u32::MAX { u32::MAX } else { from as u32 }
}

/// What holding does when the session was found `invalid`: the session is ended unless it is
/// already dead, the pipeline stops, and the interface hears that the connection went.
pub open spec fn hold_actions(invalid: bool) -> Seq<Action> {
    if invalid {
        seq![Action::Stop, Action::Report(Report::ConnectionLost)]
    } else {
        seq![Action::EndSession, Action::Stop, Action::Report(Report::ConnectionLost)]
    }
}

impl Engine {
    /// The shape every engine keeps: its queue's.
    pub open spec fn wf(&self) -> bool {
        self.queue.wf()
    }

    /// Whether the engine waits for nothing.
    pub open spec fn idle(&self) -> bool {
        self.wf() && self.pending is None
    }

    /// An engine with nothing queued and nothing playing.
    pub fn new() -> (e: Self)
        ensures
            e.idle(),
            e.queue.track_list().len() == 0,
            e.queue.play_order().len() == 0,
            e.queue.put_next().len() == 0,
            e.queue.at() is None,
            !e.queue.shuffled(),
            e.queue.repeat_mode() == RepeatMode::Off,
            e.queue.source() == PlayContext::Adhoc,
            !e.playing,
            e.position_ms == 0,
            e.duration_ms == 0,
            e.faults == 0,
            e.held is None,
            e.loaded is None,
    {
        Engine {
            queue: Queue::new(),
            playing: false,
            position_ms: 0,
            duration_ms: 0,
            faults: 0,
            held: None,
            loaded: None,
            pending: None,
        }
    }

    /// Stops where it stands and waits for a connection.
    ///
    /// The queue keeps its place: the track that stopped is the track that plays again. Tracks
    /// that will not play show a fault in the connection whatever the session says about itself,
    /// so a session that claims to be well is ended, and the watchdog builds another.
    fn hold(&mut self, invalid: bool) -> (acts: Vec<Action>)
        ensures
            final(self).held == (match old(self).held { Some(h) => Some(h), None => Some(old(self).playing) }),
            final(self).faults == 0,
            !final(self).playing,
            final(self).queue == old(self).queue,
            final(self).position_ms == old(self).position_ms,
            final(self).duration_ms == old(self).duration_ms,
            final(self).loaded == old(self).loaded,
            final(self).pending == old(self).pending,
            acts@ == hold_actions(invalid),
    {
        if self.held.is_none() {
            self.held = Some(self.playing);
        }
        let mut acts: Vec<Action> = Vec::new();
        if !invalid {
            acts.push(Action::EndSession);
        }
        self.faults = 0;
        self.playing = false;
        acts.push(Action::Stop);
        acts.push(Action::Report(Report::ConnectionLost));
        proof {
            assert(acts@ =~= hold_actions(invalid));
        }
        acts
    }

    /// Moves to the next track, or stops.
    ///
    /// A next track is loaded, playing from its start; the interface hears of the queue once the
    /// load is done. With nothing next, the pipeline stops and the position goes back to zero.
    fn advance(&mut self, automatic: bool) -> (acts: Vec<Action>)
        requires
            old(self).wf(),
        ensures
            final(self).wf(),
            final(self).faults == old(self).faults,
            final(self).held == old(self).held,
            final(self).duration_ms == old(self).duration_ms,
            advance_outcome(*old(self), *final(self), automatic, acts@),
    {
        let ghost before = self.queue;
        let next = self.queue.next(automatic);
        proof {
            assert(advanced(before, self.queue, automatic, next));
        }
        let mut acts: Vec<Action> = Vec::new();
        match next {
            Some(track) => {
                self.loaded = Some(track);
                self.pending = Some(Pending { play: true, from_ms: 0, reports_owed: 1 });
                acts.push(Action::Resolve);
            },
            None => {
                self.playing = false;
                self.position_ms = 0;
                acts.push(Action::Stop);
                acts.push(Action::Report(Report::Stopped));
            },
        }
        proof {
            assert(acts@ =~= seq![Action::Resolve] || acts@ =~= seq![Action::Stop, Action::Report(Report::Stopped)]);
        }
        acts
    }
}

/// What moving on does, from `before` to `after`, with the actions `acts`.
///
/// The queue moves one step as [`Queue::next`] says. A track that comes out is the one the engine
/// loads, playing from its start, once its URI is read; the interface hears of the queue when the
/// load is done. With nothing next, the pipeline stops and the position goes back to zero.
pub open spec fn advance_outcome(before: Engine, after: Engine, automatic: bool, acts: Seq<Action>) -> bool {
    exists|t: Option<Track>| {
        &&& after.queue.same_lists(&before.queue)
        &&& #[trigger] advanced(before.queue, after.queue, automatic, t)
        &&& match t {
            Some(track) => {
                &&& after.loaded matches Some(l) && l.same(&track)
                &&& after.pending == Some(Pending { play: true, from_ms: 0, reports_owed: 1 })
                &&& after.playing == before.playing
                &&& after.position_ms == before.position_ms
                &&& acts == seq![Action::Resolve]
            },
            None => {
                &&& after.loaded == before.loaded
                &&& after.pending == before.pending
                &&& !after.playing
                &&& after.position_ms == 0
                &&& acts == seq![Action::Stop, Action::Report(Report::Stopped)]
            },
        }
    }
}

/// The entry of the play order that is playing, or zero when none is.
pub open spec fn entry_index(q: Queue) -> usize {
    match q.at() {
        Some(i) => i,
        None => 0,
    }
}

/// The word that the loaded track started, where it stands in `q`.
pub open spec fn track_started(q: Queue) -> Action {
    Action::Report(Report::TrackStarted { index: entry_index(q), queue_len: q.play_order().len() as usize })
}

/// What finishing a load does, once the URI of the loaded track was read: the engine in `before`
/// had the load `p` waiting, and the session was found `invalid` or not.
///
/// A dead session serves no keys, so the track is kept as the place of the queue and the engine
/// holds until a replacement arrives, with the load as what it does then. A live session loads the
/// track and the interface hears where it starts. Either way, the interface then hears of the
/// queue as often as it is owed.
pub open spec fn started_outcome(before: Engine, after: Engine, p: Pending, invalid: bool, acts: Seq<Action>) -> bool {
    &&& after.queue == before.queue
    &&& after.loaded == before.loaded
    &&& after.pending is None
    &&& after.duration_ms == before.loaded->0.duration_ms
    &&& after.position_ms == p.from_ms
    &&& if invalid {
        &&& after.held == Some(p.play)
        &&& after.faults == 0
        &&& !after.playing
        &&& acts == seq![track_started(before.queue)] + hold_actions(true) + queue_reports(p.reports_owed as nat)
    } else {
        &&& after.held == before.held
        &&& after.faults == before.faults
        &&& after.playing == before.playing
        &&& acts == seq![Action::Load { play: p.play, from_ms: load_position(p.from_ms) }, track_started(before.queue)]
            + (if p.from_ms > 0 { seq![Action::Report(Report::Moved(p.from_ms))] } else { Seq::empty() })
            + queue_reports(p.reports_owed as nat)
    }
}

/// What a refused load does: the track's identifier would not read as a URI, so the engine moves
/// past it. The words owed about the queue carry over to the next load, or are said at once when
/// the queue has run out.
pub open spec fn refused_outcome(before: Engine, after: Engine, p: Pending, acts: Seq<Action>) -> bool {
    &&& after.faults == before.faults
    &&& after.held == before.held
    &&& after.duration_ms == before.duration_ms
    &&& exists|t: Option<Track>| {
        &&& after.queue.same_lists(&before.queue)
        &&& #[trigger] advanced(before.queue, after.queue, true, t)
        &&& match t {
            Some(track) => {
                &&& after.loaded matches Some(l) && l.same(&track)
                &&& after.pending == Some(Pending {
                    play: true,
                    from_ms: 0,
                    reports_owed: if p.reports_owed == u64::MAX { u64::MAX } else { (p.reports_owed + 1) as u64 },
                })
                &&& after.playing == before.playing
                &&& after.position_ms == before.position_ms
                &&& acts == seq![Action::Resolve]
            },
            None => {
                &&& after.loaded == before.loaded
                &&& after.pending is None
                &&& !after.playing
                &&& after.position_ms == 0
                &&& acts == seq![Action::Stop, Action::Report(Report::Stopped)] + queue_reports(p.reports_owed as nat)
            },
        }
    }
}

/// Appends `n` words that the queue changed.
fn push_queue_reports(acts: &mut Vec<Action>, n: u64)
    ensures
        final(acts)@ == old(acts)@ + queue_reports(n as nat),
{
    let mut i: u64 = 0;
    while i < n
        invariant
            i <= n,
            acts@ == old(acts)@ + queue_reports(i as nat),
        decreases n - i,
    {
        acts.push(Action::Report(Report::QueueChanged));
        i = i + 1;
        proof {
            assert(acts@ =~= old(acts)@ + queue_reports(i as nat));
        }
    }
}

impl Engine {
    /// Finishes a load that waited for its track's URI.
    ///
    /// `ok` says whether the identifier read as a URI, and `invalid` whether the session is dead.
    pub fn resolved(&mut self, ok: bool, invalid: bool) -> (acts: Vec<Action>)
        requires
            old(self).wf(),
            old(self).pending is Some,
            old(self).loaded is Some,
        ensures
            final(self).wf(),
            ok ==> started_outcome(*old(self), *final(self), old(self).pending->0, invalid, acts@),
            !ok ==> refused_outcome(*old(self), *final(self), old(self).pending->0, acts@),
    {
        let p = match self.pending {
            Some(p) => p,
            None => {
                return Vec::new();
            },
        };
        self.pending = None;
        if ok {
            let loaded_duration = match &self.loaded {
                Some(t) => t.duration_ms,
                None => 0,
            };
            let mut acts: Vec<Action> = Vec::new();
            self.duration_ms = loaded_duration;
            self.position_ms = p.from_ms;
            let (index, queue_len) = self.queue.position();
            if invalid {
                acts.push(Action::Report(Report::TrackStarted { index, queue_len }));
                self.held = Some(p.play);
                let mut more = self.hold(invalid);
                acts.append(&mut more);
            } else {
                let from_ms: u32 = if p.from_ms > 4294967295u64 { 4294967295u32 } else { p.from_ms as u32 };
                acts.push(Action::Load { play: p.play, from_ms });
                acts.push(Action::Report(Report::TrackStarted { index, queue_len }));
                if p.from_ms > 0 {
                    acts.push(Action::Report(Report::Moved(p.from_ms)));
                }
            }
            let ghost before = acts@;
            push_queue_reports(&mut acts, p.reports_owed);
            proof {
                if invalid {
                    assert(acts@ =~= seq![track_started(old(self).queue)] + hold_actions(true) + queue_reports(p.reports_owed as nat));
                } else {
                    assert(acts@ =~= seq![Action::Load { play: p.play, from_ms: load_position(p.from_ms) }, track_started(old(self).queue)]
                        + (if p.from_ms > 0 { seq![Action::Report(Report::Moved(p.from_ms))] } else { Seq::empty() })
                        + queue_reports(p.reports_owed as nat));
                }
            }
            acts
        } else {
            let ghost mid = *self;
            let mut acts = self.advance(true);
            match self.pending {
                Some(q) => {
                    self.pending = Some(Pending { play: q.play, from_ms: q.from_ms, reports_owed: q.reports_owed.saturating_add(p.reports_owed) });
                },
                None => {
                    push_queue_reports(&mut acts, p.reports_owed);
                },
            }
            proof {
                let t = choose|t: Option<Track>| {
                    &&& self.queue.same_lists(&mid.queue)
                    &&& #[trigger] advanced(mid.queue, self.queue, true, t)
                    &&& match t {
                        Some(track) => {
                            &&& self.loaded matches Some(l) && l.same(&track)
                            &&& self.playing == mid.playing
                            &&& self.position_ms == mid.position_ms
                        },
                        None => {
                            &&& self.loaded == mid.loaded
                            &&& !self.playing
                            &&& self.position_ms == 0
                        },
                    }
                };
                assert(advanced(old(self).queue, self.queue, true, t));
            }
            acts
        }
    }
}

/// The count of failures after one more, held at the largest `u8`.
pub open spec fn one_more_fault(faults: u8) -> u8 {
    if faults == u8::MAX { u8::MAX } else { (faults + 1) as u8 }
}

/// What holding does to the engine: it remembers whether audio ran, unless it already holds,
/// counts no failures, and plays nothing. Everything else stays.
pub open spec fn held_outcome(before: Engine, after: Engine) -> bool {
    &&& after.held == (match before.held { Some(h) => Some(h), None => Some(before.playing) })
    &&& after.faults == 0
    &&& !after.playing
    &&& after.queue == before.queue
    &&& after.position_ms == before.position_ms
    &&& after.duration_ms == before.duration_ms
    &&& after.loaded == before.loaded
    &&& after.pending == before.pending
}

/// What a track that would not play does.
///
/// One track that will not play is a fault in that track, and the queue goes past it. A dead
/// session, or failures in a row, mean the connection went: the engine holds instead, so that a
/// queue does not run through every track in a second of silence.
pub open spec fn faulted_outcome(before: Engine, after: Engine, invalid: bool, acts: Seq<Action>) -> bool {
    let faults = one_more_fault(before.faults);
    if invalid || faults >= FAULTS_ALLOWED {
        held_outcome(before, after) && acts == hold_actions(invalid)
    } else {
        &&& after.faults == faults
        &&& after.held == before.held
        &&& after.duration_ms == before.duration_ms
        &&& advance_outcome(before, after, true, acts)
    }
}

/// Whether only the queue, and the actions, may differ between `before` and `after`.
pub open spec fn only_queue_changed(before: Engine, after: Engine) -> bool {
    &&& after.playing == before.playing
    &&& after.position_ms == before.position_ms
    &&& after.duration_ms == before.duration_ms
    &&& after.faults == before.faults
    &&& after.held == before.held
    &&& after.loaded == before.loaded
    &&& after.pending == before.pending
}

/// What an instruction from the interface does, from `before` to `after`, with the actions
/// `acts`, when the session was found `invalid` or not.
pub open spec fn command_outcome(before: Engine, after: Engine, command: Command, invalid: bool, acts: Seq<Action>) -> bool {
    match command {
        Command::PlayTracks { tracks, start, context } => {
            &&& after.faults == 0
            &&& after.held == before.held
            &&& after.duration_ms == before.duration_ms
            &&& after.position_ms == before.position_ms
            &&& replaced(after.queue, tracks@, start, context, before.queue.shuffled(), before.queue.repeat_mode())
            &&& match after.queue.current_track() {
                Some(track) => {
                    &&& after.loaded matches Some(l) && l.same(&track)
                    &&& after.pending == Some(Pending { play: true, from_ms: 0, reports_owed: 1 })
                    &&& after.playing == before.playing
                    &&& acts == seq![Action::Resolve]
                },
                None => {
                    &&& after.loaded == before.loaded
                    &&& after.pending is None
                    &&& !after.playing
                    &&& acts == seq![Action::Stop, Action::Report(Report::Stopped), Action::Report(Report::QueueChanged)]
                },
            }
        },
        Command::TogglePlay => {
            &&& after.queue == before.queue
            &&& after.position_ms == before.position_ms
            &&& after.duration_ms == before.duration_ms
            &&& after.faults == before.faults
            &&& after.loaded == before.loaded
            &&& after.pending == before.pending
            &&& match before.held {
                Some(resume) => {
                    &&& after.held == Some(!resume)
                    &&& after.playing == before.playing
                    &&& acts == seq![Action::Report(Report::Paused(before.position_ms))]
                },
                None => {
                    &&& after.held is None
                    &&& after.playing == !before.playing
                    &&& acts == if before.playing {
                        seq![Action::Pause, Action::Report(Report::Paused(before.position_ms))]
                    } else {
                        seq![Action::Play, Action::Report(Report::Playing(before.position_ms))]
                    }
                },
            }
        },
        Command::Next => {
            &&& after.faults == 0
            &&& after.held == before.held
            &&& after.duration_ms == before.duration_ms
            &&& advance_outcome(before, after, false, acts)
        },
        Command::Previous => {
            &&& after.faults == 0
            &&& after.held == before.held
            &&& after.duration_ms == before.duration_ms
            &&& after.playing == before.playing
            &&& after.position_ms == before.position_ms
            &&& if before.position_ms > RESTART_AFTER_MS {
                &&& after.queue == before.queue
                &&& after.loaded == before.loaded
                &&& after.pending == before.pending
                &&& acts == seq![Action::Seek(0)]
            } else {
                exists|t: Option<Track>| {
                    &&& #[trigger] stepped_back(before.queue, after.queue, t)
                    &&& match t {
                        Some(track) => {
                            &&& after.loaded matches Some(l) && l.same(&track)
                            &&& after.pending == Some(Pending { play: true, from_ms: 0, reports_owed: 1 })
                            &&& acts == seq![Action::Resolve]
                        },
                        None => {
                            &&& after.loaded == before.loaded
                            &&& after.pending == before.pending
                            &&& acts.len() == 0
                        },
                    }
                }
            }
        },
        Command::Seek(position) => {
            &&& after.queue == before.queue
            &&& after.playing == before.playing
            &&& after.position_ms == position
            &&& after.duration_ms == before.duration_ms
            &&& after.faults == before.faults
            &&& after.held == before.held
            &&& after.loaded == before.loaded
            &&& after.pending == before.pending
            &&& acts == seq![Action::Seek(load_position(position)), Action::Report(Report::Moved(position))]
        },
        Command::SetVolume(level, set) => {
            &&& after.queue == before.queue
            &&& only_queue_changed(before, after)
            &&& acts == seq![Action::SetVolume(level), Action::SaveVolume(level), Action::Report(Report::VolumeChanged(set))]
        },
        Command::SetShuffle(on) => {
            &&& after.queue.wf()
            &&& shuffle_turned(before.queue, after.queue, on)
            &&& only_queue_changed(before, after)
            &&& acts == seq![Action::Report(Report::ShuffleChanged(on)), Action::Report(Report::QueueChanged)]
        },
        Command::SetRepeat(mode) => {
            &&& after.queue.repeat_mode() == mode
            &&& after.queue.track_list() == before.queue.track_list()
            &&& after.queue.play_order() == before.queue.play_order()
            &&& after.queue.shuffled() == before.queue.shuffled()
            &&& after.queue.source() == before.queue.source()
            &&& after.queue.at() == before.queue.at()
            &&& after.queue.put_next() == before.queue.put_next()
            &&& only_queue_changed(before, after)
            &&& acts == seq![Action::Report(Report::RepeatChanged(mode))]
        },
        Command::PlayNext(track) => {
            &&& after.queue.same_lists(&before.queue)
            &&& after.queue.at() == before.queue.at()
            &&& after.queue.put_next() == before.queue.put_next().push(track)
            &&& only_queue_changed(before, after)
            &&& acts == seq![Action::Report(Report::QueueChanged)]
        },
        Command::SessionReplaced => {
            &&& after.queue == before.queue
            &&& after.faults == 0
            &&& after.held is None
            &&& after.playing == before.playing
            &&& after.position_ms == before.position_ms
            &&& after.duration_ms == before.duration_ms
            &&& match before.queue.current_track() {
                Some(track) => {
                    &&& after.loaded matches Some(l) && l.same(&track)
                    &&& after.pending == Some(Pending {
                        play: match before.held { Some(h) => h, None => before.playing },
                        from_ms: before.position_ms,
                        reports_owed: 0,
                    })
                    &&& acts == seq![Action::UseSession, Action::Report(Report::ConnectionRestored), Action::Resolve]
                },
                None => {
                    &&& after.loaded == before.loaded
                    &&& after.pending == before.pending
                    &&& acts == seq![Action::UseSession, Action::Report(Report::ConnectionRestored)]
                },
            }
        },
        Command::Shutdown => {
            &&& after.queue == before.queue
            &&& only_queue_changed(before, after)
            &&& acts.len() == 0
        },
    }
}

/// What an event of the pipeline does, from `before` to `after`, with the actions `acts`, when
/// the session was found `invalid` or not.
pub open spec fn event_outcome(before: Engine, after: Engine, event: PipelineEvent, invalid: bool, acts: Seq<Action>) -> bool {
    match event {
        PipelineEvent::Playing(position) => {
            &&& after.queue == before.queue
            &&& after.playing
            &&& after.position_ms == position
            &&& after.duration_ms == before.duration_ms
            &&& after.faults == before.faults
            &&& after.held == before.held
            &&& after.loaded == before.loaded
            &&& after.pending == before.pending
            &&& acts == seq![Action::Report(Report::Playing(position as u64))]
        },
        PipelineEvent::Paused(position) => {
            &&& after.queue == before.queue
            &&& !after.playing
            &&& after.position_ms == position
            &&& after.duration_ms == before.duration_ms
            &&& after.faults == before.faults
            &&& after.held == before.held
            &&& after.loaded == before.loaded
            &&& after.pending == before.pending
            &&& acts == seq![Action::Report(Report::Paused(position as u64))]
        },
        PipelineEvent::Position(position) => {
            &&& after.queue == before.queue
            &&& after.playing == before.playing
            &&& after.position_ms == position
            &&& after.duration_ms == before.duration_ms
            &&& after.faults == (if position > NEARLY_OVER_MS { 0 } else { before.faults })
            &&& after.held == before.held
            &&& after.loaded == before.loaded
            &&& after.pending == before.pending
            &&& acts == seq![Action::Report(Report::Moved(position as u64))]
        },
        PipelineEvent::Loading => {
            &&& after.queue == before.queue
            &&& only_queue_changed(before, after)
            &&& acts == seq![Action::Report(Report::Loading)]
        },
        PipelineEvent::EndOfTrack => if has_finished(before.position_ms, before.duration_ms) {
            &&& after.faults == 0
            &&& after.held == before.held
            &&& after.duration_ms == before.duration_ms
            &&& advance_outcome(before, after, true, acts)
        } else {
            faulted_outcome(before, after, invalid, acts)
        },
        PipelineEvent::TimeToPreloadNextTrack => {
            &&& after.queue == before.queue
            &&& only_queue_changed(before, after)
            &&& acts == if before.queue.repeat_mode() == RepeatMode::One || before.queue.upcoming_tracks(1).len() == 0 {
                Seq::empty()
            } else {
                seq![Action::Preload(before.queue.upcoming_tracks(1)[0].id)]
            }
        },
        PipelineEvent::Unavailable(id) => {
            let told = if !invalid && id is Some { seq![Action::Report(Report::Unavailable(id->0))] } else { Seq::empty() };
            &&& acts.len() >= told.len()
            &&& acts.take(told.len() as int) == told
            &&& faulted_outcome(before, after, invalid, acts.skip(told.len() as int))
        },
        PipelineEvent::Stopped => {
            &&& after.queue == before.queue
            &&& !after.playing
            &&& after.position_ms == before.position_ms
            &&& after.duration_ms == before.duration_ms
            &&& after.faults == before.faults
            &&& after.held == before.held
            &&& after.loaded == before.loaded
            &&& after.pending == before.pending
            &&& acts == if before.held is Some {
                seq![Action::Report(Report::Paused(before.position_ms))]
            } else {
                seq![Action::Report(Report::Stopped)]
            }
        },
        PipelineEvent::VolumeChanged(level) => {
            &&& after.queue == before.queue
            &&& only_queue_changed(before, after)
            &&& acts == seq![Action::Report(Report::VolumeChanged(Loudness::Level(level)))]
        },
        PipelineEvent::Other => {
            &&& after.queue == before.queue
            &&& only_queue_changed(before, after)
            &&& acts.len() == 0
        },
    }
}

/// Pressing previous more than three seconds into a track starts that track again: the only
/// action is a seek to its start, and the queue, the loaded track and any load waiting stay.
pub proof fn previous_restarts_a_track_that_has_played(before: Engine, after: Engine, invalid: bool, acts: Seq<Action>)
    requires
        command_outcome(before, after, Command::Previous, invalid, acts),
        before.position_ms > RESTART_AFTER_MS,
    ensures
        acts == seq![Action::Seek(0)],
        after.queue == before.queue,
        after.loaded == before.loaded,
        after.pending == before.pending,
{
}

/// Pressing previous in the first three seconds of a track, past the first entry, steps the
/// queue back one entry and loads that entry's track.
pub proof fn previous_early_steps_back(before: Engine, after: Engine, invalid: bool, acts: Seq<Action>, i: usize)
    requires
        before.wf(),
        command_outcome(before, after, Command::Previous, invalid, acts),
        before.position_ms <= RESTART_AFTER_MS,
        before.queue.at() == Some(i),
        i > 0,
    ensures
        after.queue.at() == Some((i - 1) as usize),
        acts == seq![Action::Resolve],
        after.loaded matches Some(l) && l.same(&before.queue.track_list()[before.queue.play_order()[i - 1] as int]),
{
    let t = choose|t: Option<Track>| #[trigger] stepped_back(before.queue, after.queue, t) && match t {
        Some(track) => {
            &&& after.loaded matches Some(l) && l.same(&track)
            &&& after.pending == Some(Pending { play: true, from_ms: 0, reports_owed: 1 })
            &&& acts == seq![Action::Resolve]
        },
        None => {
            &&& after.loaded == before.loaded
            &&& after.pending == before.pending
            &&& acts.len() == 0
        },
    };
    crate::queue::previous_steps_back_one(before.queue, after.queue, t, i);
}

/// Under repeat-one, a track that played to its end plays again: the queue stays on its entry,
/// the same track is loaded, and its URI is read again.
pub proof fn a_finished_track_repeats_under_repeat_one(before: Engine, after: Engine, invalid: bool, acts: Seq<Action>)
    requires
        event_outcome(before, after, PipelineEvent::EndOfTrack, invalid, acts),
        before.position_ms >= before.duration_ms,
        before.queue.repeat_mode() == RepeatMode::One,
        before.queue.current_track() is Some,
    ensures
        after.queue.at() == before.queue.at(),
        after.loaded matches Some(l) && l.same(&before.queue.current_track()->0),
        acts == seq![Action::Resolve],
        after.faults == 0,
{
}

/// A track that played to its end, with nothing put next and no repeat-one, moves the queue to
/// the following entry, when there is one, and loads its track.
pub proof fn a_finished_track_moves_on(before: Engine, after: Engine, invalid: bool, acts: Seq<Action>)
    requires
        before.wf(),
        event_outcome(before, after, PipelineEvent::EndOfTrack, invalid, acts),
        before.position_ms >= before.duration_ms,
        before.queue.repeat_mode() != RepeatMode::One,
        before.queue.put_next().len() == 0,
        before.queue.following_entry() < before.queue.play_order().len(),
    ensures
        after.queue.at() == Some(before.queue.following_entry() as usize),
        after.loaded matches Some(l) && l.same(
            &before.queue.track_list()[before.queue.play_order()[before.queue.following_entry()] as int],
        ),
        acts == seq![Action::Resolve],
{
    let t = choose|t: Option<Track>| {
        &&& after.queue.same_lists(&before.queue)
        &&& #[trigger] advanced(before.queue, after.queue, true, t)
        &&& match t {
            Some(track) => {
                &&& after.loaded matches Some(l) && l.same(&track)
                &&& after.pending == Some(Pending { play: true, from_ms: 0, reports_owed: 1 })
                &&& after.playing == before.playing
                &&& after.position_ms == before.position_ms
                &&& acts == seq![Action::Resolve]
            },
            None => {
                &&& after.loaded == before.loaded
                &&& after.pending == before.pending
                &&& !after.playing
                &&& after.position_ms == 0
                &&& acts == seq![Action::Stop, Action::Report(Report::Stopped)]
            },
        }
    };
    crate::queue::lemma_order_fits(before.queue);
    assert(after.queue.track_list() == before.queue.track_list());
    assert(after.queue.play_order() == before.queue.play_order());
}

impl Engine {
    /// Answers a track that would not play.
    fn faulted(&mut self, invalid: bool) -> (acts: Vec<Action>)
        requires
            old(self).wf(),
        ensures
            final(self).wf(),
            faulted_outcome(*old(self), *final(self), invalid, acts@),
    {
        self.faults = self.faults.saturating_add(1);
        if invalid || self.faults >= FAULTS_ALLOWED {
            self.hold(invalid)
        } else {
            self.advance(true)
        }
    }

    /// Does what the interface asked.
    pub fn handle_command(&mut self, command: Command, invalid: bool) -> (acts: Vec<Action>)
        requires
            old(self).idle(),
        ensures
            final(self).wf(),
            command_outcome(*old(self), *final(self), command, invalid, acts@),
    {
        let ghost cmd = command;
        match command {
            Command::PlayTracks { tracks, start, context } => {
                self.faults = 0;
                self.queue.replace(tracks, start, context);
                let mut acts: Vec<Action> = Vec::new();
                match self.queue.current() {
                    Some(track) => {
                        let copy = track.clone();
                        self.loaded = Some(copy);
                        self.pending = Some(Pending { play: true, from_ms: 0, reports_owed: 1 });
                        acts.push(Action::Resolve);
                    },
                    None => {
                        self.playing = false;
                        acts.push(Action::Stop);
                        acts.push(Action::Report(Report::Stopped));
                        acts.push(Action::Report(Report::QueueChanged));
                    },
                }
                proof {
                    assert(acts@ =~= seq![Action::Resolve] || acts@ =~= seq![Action::Stop, Action::Report(Report::Stopped), Action::Report(Report::QueueChanged)]);
                }
                acts
            },
            Command::TogglePlay => {
                let mut acts: Vec<Action> = Vec::new();
                // No track is in the pipeline while the connection is down. A press sets what
                // happens at the moment the connection comes back.
                if let Some(resume) = self.held {
                    self.held = Some(!resume);
                    acts.push(Action::Report(Report::Paused(self.position_ms)));
                } else if self.playing {
                    self.playing = false;
                    acts.push(Action::Pause);
                    acts.push(Action::Report(Report::Paused(self.position_ms)));
                } else {
                    self.playing = true;
                    acts.push(Action::Play);
                    acts.push(Action::Report(Report::Playing(self.position_ms)));
                }
                proof {
                    assert(acts@ =~= seq![Action::Report(Report::Paused(old(self).position_ms))]
                        || acts@ =~= seq![Action::Pause, Action::Report(Report::Paused(old(self).position_ms))]
                        || acts@ =~= seq![Action::Play, Action::Report(Report::Playing(old(self).position_ms))]);
                }
                acts
            },
            Command::Next => {
                self.faults = 0;
                self.advance(false)
            },
            Command::Previous => {
                self.faults = 0;
                // Far enough into a track, "previous" means "start this one again".
                let mut acts: Vec<Action> = Vec::new();
                if self.position_ms > RESTART_AFTER_MS {
                    acts.push(Action::Seek(0));
                    proof {
                        assert(acts@ =~= seq![Action::Seek(0)]);
                    }
                    return acts;
                }
                let ghost q0 = self.queue;
                let back = self.queue.previous();
                proof {
                    assert(stepped_back(q0, self.queue, back));
                }
                match back {
                    Some(track) => {
                        self.loaded = Some(track);
                        self.pending = Some(Pending { play: true, from_ms: 0, reports_owed: 1 });
                        acts.push(Action::Resolve);
                        proof {
                            assert(acts@ =~= seq![Action::Resolve]);
                        }
                    },
                    None => {},
                }
                acts
            },
            Command::Seek(position) => {
                let millis: u32 = if position > 4294967295u64 { 4294967295u32 } else { position as u32 };
                let mut acts: Vec<Action> = Vec::new();
                acts.push(Action::Seek(millis));
                // Report at once. The interface moves the bar without waiting for the pipeline.
                self.position_ms = position;
                acts.push(Action::Report(Report::Moved(position)));
                proof {
                    assert(acts@ =~= seq![Action::Seek(load_position(position)), Action::Report(Report::Moved(position))]);
                }
                acts
            },
            Command::SetVolume(level, set) => {
                let mut acts: Vec<Action> = Vec::new();
                acts.push(Action::SetVolume(level));
                acts.push(Action::SaveVolume(level));
                acts.push(Action::Report(Report::VolumeChanged(set)));
                proof {
                    assert(acts@ =~= seq![Action::SetVolume(level), Action::SaveVolume(level), Action::Report(Report::VolumeChanged(set))]);
                }
                acts
            },
            Command::SetShuffle(on) => {
                self.queue.set_shuffle(on);
                let mut acts: Vec<Action> = Vec::new();
                acts.push(Action::Report(Report::ShuffleChanged(on)));
                acts.push(Action::Report(Report::QueueChanged));
                proof {
                    assert(acts@ =~= seq![Action::Report(Report::ShuffleChanged(on)), Action::Report(Report::QueueChanged)]);
                }
                acts
            },
            Command::SetRepeat(mode) => {
                self.queue.set_repeat(mode);
                let mut acts: Vec<Action> = Vec::new();
                acts.push(Action::Report(Report::RepeatChanged(mode)));
                proof {
                    assert(acts@ =~= seq![Action::Report(Report::RepeatChanged(mode))]);
                }
                acts
            },
            Command::PlayNext(track) => {
                self.queue.play_next(track);
                let mut acts: Vec<Action> = Vec::new();
                acts.push(Action::Report(Report::QueueChanged));
                proof {
                    assert(acts@ =~= seq![Action::Report(Report::QueueChanged)]);
                }
                acts
            },
            Command::SessionReplaced => self.carry_on(),
            Command::Shutdown => Vec::new(),
        }
    }

    /// Takes the session that replaced the one that died, and starts the track again.
    ///
    /// The track in the pipeline came down the dead connection and holds no value, so the engine
    /// loads it again, at the position where it stopped, playing if audio ran when the
    /// connection went.
    fn carry_on(&mut self) -> (acts: Vec<Action>)
        requires
            old(self).idle(),
        ensures
            final(self).wf(),
            command_outcome(*old(self), *final(self), Command::SessionReplaced, false, acts@),
    {
        let mut acts: Vec<Action> = Vec::new();
        acts.push(Action::UseSession);
        self.faults = 0;
        acts.push(Action::Report(Report::ConnectionRestored));
        let was_playing = self.held;
        self.held = None;
        match self.queue.current() {
            Some(track) => {
                let copy = track.clone();
                let play = match was_playing {
                    Some(h) => h,
                    None => self.playing,
                };
                self.loaded = Some(copy);
                self.pending = Some(Pending { play, from_ms: self.position_ms, reports_owed: 0 });
                acts.push(Action::Resolve);
                proof {
                    assert(acts@ =~= seq![Action::UseSession, Action::Report(Report::ConnectionRestored), Action::Resolve]);
                }
            },
            None => {
                proof {
                    assert(acts@ =~= seq![Action::UseSession, Action::Report(Report::ConnectionRestored)]);
                }
            },
        }
        acts
    }

    /// Reads what the pipeline did.
    pub fn handle_event(&mut self, event: PipelineEvent, invalid: bool) -> (acts: Vec<Action>)
        requires
            old(self).idle(),
        ensures
            final(self).wf(),
            event_outcome(*old(self), *final(self), event, invalid, acts@),
    {
        let mut acts: Vec<Action> = Vec::new();
        match event {
            PipelineEvent::Playing(position) => {
                self.playing = true;
                self.position_ms = position as u64;
                acts.push(Action::Report(Report::Playing(position as u64)));
            },
            PipelineEvent::Paused(position) => {
                self.playing = false;
                self.position_ms = position as u64;
                acts.push(Action::Report(Report::Paused(position as u64)));
            },
            PipelineEvent::Position(position) => {
                self.position_ms = position as u64;
                // The track played to this position, so the faults before it are over.
                if self.position_ms > NEARLY_OVER_MS {
                    self.faults = 0;
                }
                acts.push(Action::Report(Report::Moved(position as u64)));
            },
            PipelineEvent::Loading => {
                acts.push(Action::Report(Report::Loading));
            },
            PipelineEvent::EndOfTrack => {
                // The pipeline sends this event for a track that finished and for one that
                // failed.
                if finished(self.position_ms, self.duration_ms) {
                    self.faults = 0;
                    return self.advance(true);
                } else {
                    return self.faulted(invalid);
                }
            },
            PipelineEvent::TimeToPreloadNextTrack => {
                if self.queue.repeat() != RepeatMode::One {
                    let next = self.queue.upcoming(1);
                    if next.len() > 0 {
                        acts.push(Action::Preload(next[0].id.clone()));
                    }
                }
            },
            PipelineEvent::Unavailable(id) => {
                // A dead connection makes every track unavailable. Report one track only while
                // the connection is alive.
                let ghost told_before = acts@;
                if !invalid {
                    if let Some(track_id) = id {
                        acts.push(Action::Report(Report::Unavailable(track_id)));
                    }
                }
                let ghost told = acts@;
                // A track nobody can play must not stop the queue.
                let mut more = self.faulted(invalid);
                let ghost rest = more@;
                acts.append(&mut more);
                proof {
                    assert(acts@.take(told.len() as int) =~= told);
                    assert(acts@.skip(told.len() as int) =~= rest);
                }
                return acts;
            },
            PipelineEvent::Stopped => {
                self.playing = false;
                if self.held.is_some() {
                    // The hold took the track out of the pipeline, and the queue keeps its place.
                    acts.push(Action::Report(Report::Paused(self.position_ms)));
                } else {
                    acts.push(Action::Report(Report::Stopped));
                }
            },
            PipelineEvent::VolumeChanged(level) => {
                acts.push(Action::Report(Report::VolumeChanged(Loudness::Level(level))));
            },
            PipelineEvent::Other => {},
        }
        proof {
            assert(acts@.len() <= 1);
            if acts@.len() == 1 {
                assert(acts@ =~= seq![acts@[0]]);
            } else {
                assert(acts@ =~= Seq::<Action>::empty());
            }
        }
        acts
    }
}

} // verus!
