//! What plays, and what plays next.
//!
//! The queue holds the tracks of one context, the order they play in, and the tracks a person put
//! next by hand. Shuffle replaces the order and keeps the current track where it is. Nothing here
//! talks to Spotify.

use std::collections::VecDeque;

use rand::seq::SliceRandom;

use vstd::prelude::*;

use crate::models::{AlbumId, PlaylistId, Track, TrackId};

verus! {

/// Where the tracks in the queue came from.
#[derive(Debug, PartialEq, Eq)]
pub enum PlayContext {
    /// One playlist.
    Playlist(PlaylistId),
    /// One album.
    Album(AlbumId),
    /// The saved tracks.
    Liked,
    /// A station built around one track.
    Radio {
        /// The track it was built around.
        seed: TrackId,
    },
    /// Tracks with no list behind them.
    Adhoc,
}

impl Clone for PlayContext {
    fn clone(&self) -> (r: Self)
        ensures
            r == *self,
    {
        match self {
            PlayContext::Playlist(id) => PlayContext::Playlist(id.clone()),
            PlayContext::Album(id) => PlayContext::Album(id.clone()),
            PlayContext::Liked => PlayContext::Liked,
            PlayContext::Radio { seed } => PlayContext::Radio { seed: seed.clone() },
            PlayContext::Adhoc => PlayContext::Adhoc,
        }
    }
}

impl Default for PlayContext {
    fn default() -> (c: Self)
        ensures
            c == PlayContext::Adhoc,
    {
        PlayContext::Adhoc
    }
}

/// What happens at the end of the queue.
#[derive(Debug, Clone, Copy, PartialEq, Eq, Structural)]
pub enum RepeatMode {
    /// Stop.
    Off,
    /// Start again from the top.
    All,
    /// Play the same track again.
    One,
}

impl Default for RepeatMode {
    fn default() -> (m: Self)
        ensures
            m == RepeatMode::Off,
    {
        RepeatMode::Off
    }
}

/// The mode a control that steps through them moves to after `mode`.
pub open spec fn following_mode(mode: RepeatMode) -> RepeatMode {
    match mode {
        RepeatMode::Off => RepeatMode::All,
        RepeatMode::All => RepeatMode::One,
        RepeatMode::One => RepeatMode::Off,
    }
}

impl RepeatMode {
    /// The mode after this one, for a control that steps through them.
    pub fn next(self) -> (n: Self)
        ensures
            n == following_mode(self),
    {
        match self {
            RepeatMode::Off => RepeatMode::All,
            RepeatMode::All => RepeatMode::One,
            RepeatMode::One => RepeatMode::Off,
        }
    }
}

/// The positions `0..n`, in order.
pub open spec fn list_order(n: nat) -> Seq<usize> {
    Seq::new(n, |i: int| i as usize)
}

/// Whether `order` holds every position of a list of `n` tracks exactly once.
pub open spec fn holds_each_once(order: Seq<usize>, n: nat) -> bool {
    &&& order.len() == n
    &&& forall|i: int| 0 <= i < order.len() ==> #[trigger] order[i] < n
    &&& order.no_duplicates()
}


/// What one step of [`Queue::next`] does: the queue `before` becomes `after` and hands back `t`.
///
/// Repeat-one holds the track at the end of it; a track put next by hand plays before the order
/// goes on, and leaves the place in the order alone; the order then moves one entry on; at its end,
/// repeat-all starts again from the top, and anything else stops.
pub open spec fn advanced(before: Queue, after: Queue, automatic: bool, t: Option<Track>) -> bool {
    if automatic && before.repeat_mode() == RepeatMode::One && before.current_track() is Some {
        &&& after.at() == before.at()
        &&& after.put_next() == before.put_next()
        &&& t matches Some(r) && r.same(&before.current_track()->0)
    } else if before.put_next().len() > 0 {
        &&& after.at() == before.at()
        &&& after.put_next() == before.put_next().drop_first()
        &&& t == Some(before.put_next()[0])
    } else if before.following_entry() < before.play_order().len() {
        &&& after.at() == Some(before.following_entry() as usize)
        &&& after.put_next() == before.put_next()
        &&& t matches Some(r) && r.same(&after.current_track()->0)
    } else if before.repeat_mode() == RepeatMode::All && before.play_order().len() > 0 {
        &&& after.at() == Some(0usize)
        &&& after.put_next() == before.put_next()
        &&& t matches Some(r) && r.same(&after.current_track()->0)
    } else {
        &&& after.at() == before.at()
        &&& after.put_next() == before.put_next()
        &&& t is None
    }
}


/// What [`Queue::set_shuffle`] does: `before` becomes `after` with shuffle set to `on`.
///
/// The track that plays keeps playing from the same place in the track list. Turning shuffle on
/// puts it at the front of the new order; turning it off puts the list order back.
pub open spec fn shuffle_turned(before: Queue, after: Queue, on: bool) -> bool {
    &&& after.shuffled() == on
    &&& after.track_list() == before.track_list()
    &&& after.put_next() == before.put_next()
    &&& after.repeat_mode() == before.repeat_mode()
    &&& after.source() == before.source()
    &&& after.playing_position() == before.playing_position()
    &&& after.current_track() == before.current_track()
    &&& before.shuffled() == on ==> after.at() == before.at() && after.play_order() == before.play_order()
    &&& before.shuffled() != on && on ==> after.at() == (if before.at() is Some { Some(0usize) } else { None })
    &&& !on ==> after.at() == after.playing_position()
}


/// Whether `after` holds `tracks` from `context` in place of everything, playing the one at
/// `start`, with shuffle and repeat as they were.
///
/// A `start` past the end leaves nothing playing. With shuffle on, the track at `start` leads a
/// new random order.
pub open spec fn replaced(after: Queue, tracks: Seq<Track>, start: usize, context: PlayContext, shuffle: bool, repeat: RepeatMode) -> bool {
    &&& after.track_list() == tracks
    &&& after.source() == context
    &&& after.put_next().len() == 0
    &&& after.shuffled() == shuffle
    &&& after.repeat_mode() == repeat
    &&& after.playing_position() == (if start < tracks.len() { Some(start) } else { None })
    &&& !shuffle ==> after.at() == (if start < tracks.len() { Some(start) } else { None })
    &&& shuffle ==> after.at() == (if start < tracks.len() { Some(0usize) } else { None })
}

/// What one step of [`Queue::previous`] does: `before` becomes `after` and hands back `t`.
///
/// The entry before the one playing plays. At the first entry the queue stays there, unless
/// repeat-all wraps it round to the last. With nothing playing, nothing happens.
pub open spec fn stepped_back(before: Queue, after: Queue, t: Option<Track>) -> bool {
    &&& after.same_lists(&before)
    &&& after.put_next() == before.put_next()
    &&& after.at() == (match before.at() {
        None => None,
        Some(i) => if i > 0 {
            Some((i - 1) as usize)
        } else if before.repeat_mode() == RepeatMode::All {
            Some((before.play_order().len() - 1) as usize)
        } else {
            Some(0usize)
        },
    })
    &&& before.at() is None ==> t is None
    &&& before.at() is Some ==> (t matches Some(r) && r.same(&after.current_track()->0))
}

/// The tracks in play, and the order they play in.
#[derive(Debug)]
pub struct Queue {
    /// Every track of the context, in the order the context lists them.
    tracks: Vec<Track>,
    /// Where the tracks came from.
    context: PlayContext,
    /// Which entry of `order` is playing.
    current: Option<usize>,
    /// Positions into `tracks`. This is the play order.
    order: Vec<usize>,
    /// Tracks to play before the order continues.
    manual: VecDeque<Track>,
    /// Whether the order is shuffled.
    shuffle: bool,
    /// What happens at the end.
    repeat: RepeatMode,
}

impl Queue {
    /// Every track of the context, in the order the context lists them.
    pub closed spec fn track_list(&self) -> Seq<Track> {
        self.tracks@
    }

    /// The play order, as positions into the track list.
    pub closed spec fn play_order(&self) -> Seq<usize> {
        self.order@
    }

    /// Which entry of the play order is playing.
    pub closed spec fn at(&self) -> Option<usize> {
        self.current
    }

    /// The tracks put next by hand, first to play first.
    pub closed spec fn put_next(&self) -> Seq<Track> {
        self.manual@
    }

    /// Whether the order is shuffled.
    pub closed spec fn shuffled(&self) -> bool {
        self.shuffle
    }

    /// What happens at the end.
    pub closed spec fn repeat_mode(&self) -> RepeatMode {
        self.repeat
    }

    /// Where the tracks came from.
    pub closed spec fn source(&self) -> PlayContext {
        self.context
    }

    /// The shape every queue keeps: the play order holds each track once, the current entry is
    /// inside it, and an order that is not shuffled is the list order.
    pub open spec fn wf(&self) -> bool {
        &&& holds_each_once(self.play_order(), self.track_list().len())
        &&& self.at() matches Some(i) ==> i < self.play_order().len()
        &&& !self.shuffled() ==> self.play_order() == list_order(self.track_list().len())
    }

    /// The position in the track list of the entry that is playing.
    pub open spec fn playing_position(&self) -> Option<usize> {
        match self.at() {
            Some(i) => Some(self.play_order()[i as int]),
            None => None,
        }
    }

    /// The track playing now.
    pub open spec fn current_track(&self) -> Option<Track> {
        match self.playing_position() {
            Some(p) => Some(self.track_list()[p as int]),
            None => None,
        }
    }

    /// Where the order continues after the entry that is playing.
    pub open spec fn following_entry(&self) -> int {
        match self.at() {
            Some(i) => i + 1,
            None => 0,
        }
    }

    /// The tracks of the order that come after the one playing.
    pub open spec fn later(&self) -> Seq<Track> {
        self.play_order().skip(self.following_entry()).map_values(|p: usize| self.track_list()[p as int])
    }

    /// The next `count` tracks: the ones put next by hand, then the rest of the order.
    pub open spec fn upcoming_tracks(&self, count: nat) -> Seq<Track> {
        let all = self.put_next() + self.later();
        if count < all.len() { all.take(count as int) } else { all }
    }

    /// Whether the queue holds everything `other` holds but, possibly, its current entry and the
    /// tracks put next.
    pub open spec fn same_lists(&self, other: &Queue) -> bool {
        &&& self.track_list() == other.track_list()
        &&& self.play_order() == other.play_order()
        &&& self.shuffled() == other.shuffled()
        &&& self.repeat_mode() == other.repeat_mode()
        &&& self.source() == other.source()
    }

    /// An empty queue.
    pub fn new() -> (q: Self)
        ensures
            q.wf(),
            q.track_list().len() == 0,
            q.play_order().len() == 0,
            q.put_next().len() == 0,
            q.at() is None,
            !q.shuffled(),
            q.repeat_mode() == RepeatMode::Off,
            q.source() == PlayContext::Adhoc,
    {
        let q = Queue {
            tracks: Vec::new(),
            context: PlayContext::Adhoc,
            current: None,
            order: Vec::new(),
            manual: VecDeque::new(),
            shuffle: false,
            repeat: RepeatMode::Off,
        };
        assert(q.order@ =~= list_order(0));
        q
    }

    /// Replaces everything with `tracks`, playing the one at `start`.
    ///
    /// A `start` past the end leaves nothing playing. With shuffle on, the track at `start` leads
    /// a new random order.
    pub fn replace(&mut self, tracks: Vec<Track>, start: usize, context: PlayContext)
        requires
            old(self).wf(),
        ensures
            final(self).wf(),
            replaced(*final(self), tracks@, start, context, old(self).shuffled(), old(self).repeat_mode()),
    {
        let n = tracks.len();
        self.order = positions(n);
        self.tracks = tracks;
        self.context = context;
        self.manual.clear();
        self.current = if start < n { Some(start) } else { None };

        if self.shuffle {
            self.reshuffle();
        }
    }

    /// The track playing now.
    pub fn current(&self) -> (t: Option<&Track>)
        requires
            self.wf(),
        ensures
            t matches Some(r) ==> self.current_track() == Some(*r),
            t is None ==> self.current_track() is None,
    {
        match self.current {
            Some(i) => {
                let p = self.order[i];
                Some(&self.tracks[p])
            },
            None => None,
        }
    }

    /// Where the current track sits in the play order, and how long the order is.
    pub fn position(&self) -> (p: (usize, usize))
        ensures
            p.0 == (match self.at() { Some(i) => i, None => 0usize }),
            p.1 == self.play_order().len(),
    {
        let at = match self.current {
            Some(i) => i,
            None => 0,
        };
        (at, self.order.len())
    }

    /// Where the tracks came from.
    pub fn context(&self) -> (c: &PlayContext)
        ensures
            *c == self.source(),
    {
        &self.context
    }

    /// Whether the order is shuffled.
    pub fn shuffle(&self) -> (on: bool)
        ensures
            on == self.shuffled(),
    {
        self.shuffle
    }

    /// What happens at the end.
    pub fn repeat(&self) -> (mode: RepeatMode)
        ensures
            mode == self.repeat_mode(),
    {
        self.repeat
    }

    /// The next few tracks, for the queue panel: the ones put next by hand, then the order.
    pub fn upcoming(&self, count: usize) -> (out: Vec<Track>)
        requires
            self.wf(),
        ensures
            out@.len() == self.upcoming_tracks(count as nat).len(),
            forall|i: int| 0 <= i < out@.len() ==> (#[trigger] out@[i]).same(&self.upcoming_tracks(count as nat)[i]),
    {
        let ghost all = self.put_next() + self.later();
        let mut out: Vec<Track> = Vec::new();
        let mut i: usize = 0;
        while i < self.manual.len() && out.len() < count
            invariant
                self.wf(),
                all == self.put_next() + self.later(),
                i <= self.manual@.len(),
                out@.len() == i,
                i <= count,
                forall|j: int| 0 <= j < out@.len() ==> (#[trigger] out@[j]).same(&all[j]),
            decreases self.manual@.len() - i,
        {
            out.push(self.manual[i].clone());
            i = i + 1;
        }
        let len = self.order.len();
        let start: usize = match self.current {
            Some(index) => {
                assert(index < len);
                index + 1
            },
            None => 0,
        };
        let mut k: usize = start;
        while k < self.order.len() && out.len() < count
            invariant
                self.wf(),
                all == self.put_next() + self.later(),
                start == self.following_entry(),
                start <= k <= self.order@.len(),
                out@.len() <= count,
                out@.len() < count ==> out@.len() == self.manual@.len() + (k - start),
                out@.len() == count ==> out@.len() <= self.manual@.len() + (k - start),
                out@.len() >= self.manual@.len() || out@.len() == count,
                forall|j: int| 0 <= j < out@.len() ==> (#[trigger] out@[j]).same(&all[j]),
            decreases self.order@.len() - k,
        {
            let p = self.order[k];
            proof {
                assert(all[self.manual@.len() + (k - start)] == self.tracks@[p as int]);
            }
            out.push(self.tracks[p].clone());
            k = k + 1;
        }
        proof {
            let want = self.upcoming_tracks(count as nat);
            assert(all.len() == self.manual@.len() + (self.order@.len() - start));
            assert(out@.len() == want.len());
        }
        out
    }

    /// Puts a track next, before the order continues.
    pub fn play_next(&mut self, track: Track)
        requires
            old(self).wf(),
        ensures
            final(self).wf(),
            final(self).same_lists(old(self)),
            final(self).at() == old(self).at(),
            final(self).put_next() == old(self).put_next().push(track),
    {
        self.manual.push_back(track);
    }

    /// Moves to the next track and returns it.
    ///
    /// `automatic` marks the end of a track, rather than a person asking. Repeat-one repeats only
    /// for the first kind: a person who presses next wants a different track. A track put next by
    /// hand plays before the order goes on, and leaves the order where it was. At the end of the
    /// order, repeat-all starts again from the top and anything else stops.
    pub fn next(&mut self, automatic: bool) -> (t: Option<Track>)
        requires
            old(self).wf(),
        ensures
            final(self).wf(),
            final(self).same_lists(old(self)),
            advanced(*old(self), *final(self), automatic, t),
    {
        if automatic && self.repeat == RepeatMode::One {
            match self.current() {
                Some(track) => {
                    return Some(track.clone());
                },
                None => {},
            }
        }

        if let Some(track) = self.manual.pop_front() {
            // A track played by hand leaves the order where it was, so the list carries on after.
            proof {
                assert(self.manual@ =~= old(self).manual@.drop_first());
            }
            return Some(track);
        }

        let len = self.order.len();
        let next: usize = match self.current {
            Some(index) => {
                assert(index < len);
                index + 1
            },
            None => 0,
        };
        if next < self.order.len() {
            self.current = Some(next);
            return self.cloned_current();
        }

        if self.repeat == RepeatMode::All && self.order.len() > 0 {
            self.current = Some(0);
            return self.cloned_current();
        }

        None
    }

    /// A copy of the track playing now.
    fn cloned_current(&self) -> (t: Option<Track>)
        requires
            self.wf(),
            self.at() is Some,
        ensures
            t matches Some(r) && r.same(&self.current_track()->0),
    {
        match self.current() {
            Some(track) => Some(track.clone()),
            None => None,
        }
    }

    /// Moves to the previous track and returns it.
    ///
    /// At the first entry it stays there, unless repeat-all wraps it round to the last.
    pub fn previous(&mut self) -> (t: Option<Track>)
        requires
            old(self).wf(),
        ensures
            final(self).wf(),
            stepped_back(*old(self), *final(self), t),
    {
        let current = match self.current {
            Some(i) => i,
            None => {
                return None;
            },
        };
        if current == 0 {
            if self.repeat == RepeatMode::All && self.order.len() > 0 {
                self.current = Some(self.order.len() - 1);
            }
            return self.cloned_current();
        }
        self.current = Some(current - 1);
        self.cloned_current()
    }

    /// Plays the entry at `index` of the play order.
    pub fn jump_to(&mut self, index: usize) -> (t: Option<Track>)
        requires
            old(self).wf(),
        ensures
            final(self).wf(),
            final(self).same_lists(old(self)),
            final(self).put_next() == old(self).put_next(),
            index >= old(self).play_order().len() ==> final(self).at() == old(self).at() && t is None,
            index < old(self).play_order().len() ==> final(self).at() == Some(index)
                && (t matches Some(r) && r.same(&final(self).current_track()->0)),
    {
        if index >= self.order.len() {
            return None;
        }
        self.current = Some(index);
        self.cloned_current()
    }

    /// Turns shuffle on or off.
    ///
    /// The track playing keeps playing. Turning shuffle on moves it to the front of a new random
    /// order. Turning it off puts the list back and finds the track again.
    pub fn set_shuffle(&mut self, on: bool)
        requires
            old(self).wf(),
        ensures
            final(self).wf(),
            shuffle_turned(*old(self), *final(self), on),
    {
        if self.shuffle == on {
            return;
        }
        self.shuffle = on;

        if on {
            self.reshuffle();
        } else {
            let playing: Option<usize> = match self.current {
                Some(index) => Some(self.order[index]),
                None => None,
            };
            self.order = positions(self.tracks.len());
            proof {
                if let Some(position) = playing {
                    assert(self.order@[position as int] == position);
                }
            }
            self.current = match playing {
                Some(position) => find_entry(&self.order, position),
                None => None,
            };
        }
    }

    /// Sets what happens at the end.
    pub fn set_repeat(&mut self, repeat: RepeatMode)
        requires
            old(self).wf(),
        ensures
            final(self).wf(),
            final(self).repeat_mode() == repeat,
            final(self).track_list() == old(self).track_list(),
            final(self).play_order() == old(self).play_order(),
            final(self).shuffled() == old(self).shuffled(),
            final(self).source() == old(self).source(),
            final(self).at() == old(self).at(),
            final(self).put_next() == old(self).put_next(),
    {
        self.repeat = repeat;
    }

    /// Builds a random order with the current track first.
    fn reshuffle(&mut self)
        requires
            holds_each_once(old(self).order@, old(self).tracks@.len()),
            old(self).current matches Some(i) ==> i < old(self).order@.len(),
            old(self).shuffle,
        ensures
            holds_each_once(final(self).order@, final(self).tracks@.len()),
            final(self).tracks@ == old(self).tracks@,
            final(self).manual@ == old(self).manual@,
            final(self).shuffle == old(self).shuffle,
            final(self).repeat == old(self).repeat,
            final(self).context == old(self).context,
            final(self).playing_position() == old(self).playing_position(),
            final(self).at() == (if old(self).at() is Some { Some(0usize) } else { None }),
    {
        let n = self.tracks.len();
        let playing: Option<usize> = match self.current {
            Some(index) => Some(self.order[index]),
            None => None,
        };
        let mut rest: Vec<usize> = Vec::new();
        let mut p: usize = 0;
        while p < n
            invariant
                p <= n,
                n == self.tracks@.len(),
                playing matches Some(q) ==> q < n,
                forall|j: int| 0 <= j < rest@.len() ==> #[trigger] rest@[j] < p,
                forall|j: int| 0 <= j < rest@.len() ==> Some(#[trigger] rest@[j]) != playing,
                forall|a: int, b: int| 0 <= a < b < rest@.len() ==> rest@[a] < rest@[b],
                forall|q: usize| q < p && Some(q) != playing ==> #[trigger] rest@.contains(q),
                rest@.len() == (if playing matches Some(q) && q < p { p - 1 } else { p as int }),
            decreases n - p,
        {
            if playing != Some(p) {
                proof {
                    assert forall|q: usize| q < p + 1 && Some(q) != playing implies #[trigger] rest@.push(p).contains(q) by {
                        if q < p {
                            assert(rest@.contains(q));
                            let k = choose|k: int| 0 <= k < rest@.len() && rest@[k] == q;
                            assert(rest@.push(p)[k] == q);
                        } else {
                            assert(rest@.push(p)[rest@.len() as int] == q);
                        }
                    }
                }
                rest.push(p);
            }
            p = p + 1;
        }
        let ghost before = rest@;
        proof {
            assert(before.no_duplicates());
            before.lemma_multiset_has_no_duplicates();
        }
        shuffle_positions(&mut rest);
        proof {
            broadcast use vstd::seq_lib::group_to_multiset_ensures;
            rest@.lemma_multiset_has_no_duplicates_conv();
            assert forall|j: int| 0 <= j < rest@.len() implies #[trigger] rest@[j] < n && Some(rest@[j]) != playing by {
                assert(rest@.contains(rest@[j]));
                assert(rest@.to_multiset().count(rest@[j]) > 0);
                assert(before.to_multiset().count(rest@[j]) > 0);
                assert(before.contains(rest@[j]));
            }
        }

        let ghost shuffled = rest@;
        let order = shuffled_order(playing, rest);
        proof {
            if let Some(position) = playing {
                assert forall|a: int, b: int| 0 <= a < order@.len() && 0 <= b < order@.len() && a != b implies order@[a] != order@[b] by {
                    if a == 0 && b > 0 {
                        assert(order@[b] == shuffled[b - 1]);
                    } else if b == 0 && a > 0 {
                        assert(order@[a] == shuffled[a - 1]);
                    } else if a > 0 && b > 0 {
                        assert(order@[a] == shuffled[a - 1]);
                        assert(order@[b] == shuffled[b - 1]);
                    }
                }
            }
        }
        self.order = order;
        self.current = match playing {
            Some(_) => Some(0),
            None => None,
        };
    }
}

/// The play order shuffle builds from the drawn order `rest` of every other position: the
/// position playing, when one plays, first, then `rest` in the order drawn.
pub fn shuffled_order(playing: Option<usize>, rest: Vec<usize>) -> (order: Vec<usize>)
    ensures
        order@ == (match playing { Some(p) => seq![p] + rest@, None => rest@ }),
{
    match playing {
        Some(position) => {
            let mut order: Vec<usize> = Vec::new();
            order.push(position);
            let mut rest = rest;
            order.append(&mut rest);
            order
        },
        None => rest,
    }
}

impl Default for Queue {
    fn default() -> (q: Self)
        ensures
            q.wf(),
            q.track_list().len() == 0,
            q.put_next().len() == 0,
            q.at() is None,
            !q.shuffled(),
            q.repeat_mode() == RepeatMode::Off,
            q.source() == PlayContext::Adhoc,
    {
        Queue::new()
    }
}


/// Every track of the list is somewhere in the play order, whatever shuffle has done to it.
///
/// The order of a queue holds each position of its track list exactly once, so playing the order
/// through plays every track once.
pub proof fn every_track_is_in_the_order(q: Queue, p: usize)
    requires
        q.wf(),
        p < q.track_list().len(),
    ensures
        exists|i: int| 0 <= i < q.play_order().len() && q.play_order()[i] == p,
{
    let order = q.play_order();
    let n = q.track_list().len();
    let ints = order.map_values(|x: usize| x as int);
    assert(ints.no_duplicates()) by {
        assert forall|a: int, b: int| 0 <= a < ints.len() && 0 <= b < ints.len() && a != b implies ints[a] != ints[b] by {
            assert(order[a] != order[b]);
        }
    }
    ints.unique_seq_to_set();
    let range = vstd::set_lib::set_int_range(0, n as int);
    vstd::set_lib::lemma_int_range(0, n as int);
    assert(ints.to_set().subset_of(range)) by {
        assert forall|x: int| ints.to_set().contains(x) implies range.contains(x) by {
            let k = choose|k: int| 0 <= k < ints.len() && ints[k] == x;
            assert(order[k] < n);
        }
    }
    vstd::set_lib::lemma_subset_equality(ints.to_set(), range);
    assert(range.contains(p as int));
    assert(ints.to_set().contains(p as int));
    let k = choose|k: int| 0 <= k < ints.len() && ints[k] == p as int;
    assert(order[k] == p);
}

/// Turning shuffle on and then off again puts the list order back, with the same track playing
/// at the entry it played at before.
pub proof fn shuffle_round_trip(a: Queue, b: Queue, c: Queue)
    requires
        a.wf(),
        b.wf(),
        c.wf(),
        !a.shuffled(),
        shuffle_turned(a, b, true),
        shuffle_turned(b, c, false),
    ensures
        c.play_order() == a.play_order(),
        c.at() == a.at(),
        c.current_track() == a.current_track(),
{
    if let Some(i) = a.at() {
        assert(a.play_order()[i as int] == i);
    }
}

/// A track put next plays at the next step, and the step after it carries on from where the
/// order was, rather than from the start.
pub proof fn put_next_plays_first(
    a: Queue,
    x: Track,
    b: Queue,
    first: Option<Track>,
    c: Queue,
    second: Option<Track>,
    d: Queue,
)
    requires
        a.wf(),
        a.put_next().len() == 0,
        a.following_entry() < a.play_order().len(),
        b.same_lists(&a),
        b.at() == a.at(),
        b.put_next() == a.put_next().push(x),
        c.same_lists(&b),
        advanced(b, c, false, first),
        d.same_lists(&c),
        advanced(c, d, false, second),
    ensures
        first == Some(x),
        d.at() == Some(a.following_entry() as usize),
        second matches Some(r) && r.same(&d.current_track()->0),
{
    assert(c.put_next() =~= Seq::<Track>::empty());
}

/// Repeat-one holds the track only when the track ended: a person who presses next moves on.
pub proof fn repeat_one_holds_only_at_the_end(b: Queue, held: Queue, t: Option<Track>, moved: Queue, u: Option<Track>)
    requires
        b.wf(),
        b.repeat_mode() == RepeatMode::One,
        b.current_track() is Some,
        b.put_next().len() == 0,
        b.following_entry() < b.play_order().len(),
        advanced(b, held, true, t),
        advanced(b, moved, false, u),
    ensures
        held.at() == b.at(),
        t matches Some(r) && r.same(&b.current_track()->0),
        moved.at() == Some(b.following_entry() as usize),
{
}

/// The tracks coming up after the ones put next are the play order's, from the entry after the
/// one playing: the `i`-th of them is the track at the `i`-th following entry of the order.
pub proof fn upcoming_follows_the_play_order(q: Queue, count: nat, i: int)
    requires
        q.wf(),
        0 <= i,
        q.put_next().len() + i < q.upcoming_tracks(count).len(),
    ensures
        q.following_entry() + i < q.play_order().len(),
        q.upcoming_tracks(count)[q.put_next().len() + i] == q.track_list()[q.play_order()[q.following_entry() + i] as int],
{
    let all = q.put_next() + q.later();
    assert(all[q.put_next().len() + i] == q.later()[i]);
}

/// What the queue shows first among the upcoming tracks is the track a press of next plays.
pub proof fn the_first_upcoming_plays_next(b: Queue, a: Queue, t: Option<Track>)
    requires
        b.wf(),
        b.upcoming_tracks(1).len() > 0,
        a.same_lists(&b),
        advanced(b, a, false, t),
    ensures
        t matches Some(r) && r.same(&b.upcoming_tracks(1)[0]),
{
    let all = b.put_next() + b.later();
    assert(b.upcoming_tracks(1)[0] == all[0]);
    if b.put_next().len() > 0 {
        assert(all[0] == b.put_next()[0]);
        assert(b.put_next()[0].same(&b.put_next()[0]));
    } else {
        assert(all[0] == b.later()[0]);
        assert(b.following_entry() < b.play_order().len());
        assert(b.play_order().skip(b.following_entry())[0] == b.play_order()[b.following_entry()]);
        assert(b.later()[0] == b.track_list()[b.play_order()[b.following_entry()] as int]);
        lemma_order_fits(b);
    }
}

/// A play order is short enough to count its entries in a `usize`.
pub proof fn lemma_order_fits(q: Queue)
    ensures
        q.play_order().len() <= usize::MAX,
{
    vstd::std_specs::vec::axiom_spec_len(&q.order);
}

/// Previous from an entry past the first plays the entry just before it, and hands back its
/// track.
pub proof fn previous_steps_back_one(b: Queue, a: Queue, t: Option<Track>, i: usize)
    requires
        b.wf(),
        b.at() == Some(i),
        i > 0,
        stepped_back(b, a, t),
    ensures
        a.at() == Some((i - 1) as usize),
        t matches Some(r) && r.same(&b.track_list()[b.play_order()[i - 1] as int]),
{
}

/// Previous, then next, comes back to the entry that was playing, when nothing was put next.
pub proof fn previous_then_next_comes_back(b: Queue, a: Queue, t: Option<Track>, c: Queue, u: Option<Track>, i: usize)
    requires
        b.wf(),
        b.at() == Some(i),
        i > 0,
        b.put_next().len() == 0,
        stepped_back(b, a, t),
        c.same_lists(&a),
        advanced(a, c, false, u),
    ensures
        c.at() == b.at(),
        u matches Some(r) && r.same(&b.current_track()->0),
{
}

/// The positions `0..n`, in order.
fn positions(n: usize) -> (order: Vec<usize>)
    ensures
        order@ == list_order(n as nat),
        holds_each_once(order@, n as nat),
{
    let mut order: Vec<usize> = Vec::new();
    let mut i: usize = 0;
    while i < n
        invariant
            i <= n,
            order@ == list_order(i as nat),
        decreases n - i,
    {
        order.push(i);
        i = i + 1;
        proof {
            assert(order@ =~= list_order(i as nat));
        }
    }
    order
}

/// The first entry of `order` that holds `position`.
fn find_entry(order: &Vec<usize>, position: usize) -> (found: Option<usize>)
    ensures
        found matches Some(i) ==> i < order@.len() && order@[i as int] == position
            && forall|j: int| 0 <= j < i ==> order@[j] != position,
        found is None ==> !order@.contains(position),
{
    let mut i: usize = 0;
    while i < order.len()
        invariant
            i <= order@.len(),
            forall|j: int| 0 <= j < i ==> order@[j] != position,
        decreases order@.len() - i,
    {
        if order[i] == position {
            return Some(i);
        }
        i = i + 1;
    }
    None
}

/// Puts `positions` into a random order.
///
/// Calls `rand`'s `SliceRandom::shuffle` with the thread's generator. That function swaps entries
/// in place (a Fisher-Yates shuffle), so the result holds the same positions as before, each as
/// often as before. Which order comes out is chance, and the contract says nothing of it.
#[verifier::external_body]
fn shuffle_positions(positions: &mut Vec<usize>)
    ensures
        final(positions)@.to_multiset() == old(positions)@.to_multiset(),
        final(positions)@.len() == old(positions)@.len(),
{
    positions.shuffle(&mut rand::rng());
}

} // verus!
