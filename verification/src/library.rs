//! What the interface holds while it runs.
//!
//! The playlists, which tracks are saved, and the search text. Everything here is written on the
//! interface thread; the requests it leads to are the application's, which hands back what they
//! answered.
//!
//! A like is written to Spotify and to the set below at the same time. The set changes first, so
//! the heart fills under the pointer; a refusal puts it back.

use vstd::prelude::*;

use crate::direct::{Entry, EntryView};
use crate::keys::{TextKey, TextSet};
use crate::models::{LibraryNode, Playlist, PlaylistId, Track, TrackId};

verus! {

/// Whether the account is within reach.
///
/// The window opens on the cached library, so it is drawn before this says `Live`. A failure keeps
/// the library on the screen and puts a mark in the header.
#[derive(Debug, PartialEq, Eq)]
pub enum Link {
    /// Connecting, behind whatever the window is already showing.
    Connecting,
    /// Connected.
    Live,
    /// Out of reach, with the reason.
    Broken(String),
}

/// What stopped the connection.
#[derive(Debug, PartialEq, Eq)]
pub enum StartFailure {
    /// The login failed.
    Auth,
    /// The account could not be read.
    Api,
    /// Something else, as the error describes itself.
    Other(String),
}

/// What the header says stopped the connection.
pub open spec fn plain_words(failure: StartFailure) -> Seq<char> {
    match failure {
        StartFailure::Auth => "Cannot sign in"@,
        StartFailure::Api => "Spotify is not answering"@,
        StartFailure::Other(message) => message@,
    }
}

/// What stopped the connection, in a few words.
///
/// The header has room for a line rather than a paragraph. The log keeps the whole thing.
pub fn plainly(failure: StartFailure) -> (words: String)
    ensures
        words@ == plain_words(failure),
{
    match failure {
        StartFailure::Auth => "Cannot sign in".to_owned(),
        StartFailure::Api => "Spotify is not answering".to_owned(),
        StartFailure::Other(message) => message,
    }
}

/// A set after a like: the track goes in, or comes out.
pub open spec fn toggled(set: Set<Seq<char>>, id: Seq<char>, on: bool) -> Set<Seq<char>> {
    if on { set.insert(id) } else { set.remove(id) }
}

/// The count of saved tracks after a like: one more, or one fewer and never below nothing.
pub open spec fn counted(total: u32, on: bool) -> int {
    if on { total + 1 } else if total == 0 { 0 } else { total - 1 }
}

/// Whether `p` is the playlist named `id`.
pub open spec fn is_named(p: Playlist, id: Seq<char>) -> bool {
    p.id matches Some(x) && x.0@ == id
}

/// The index of the first playlist named `id`, or -1 when none is.
pub open spec fn first_named(pl: Seq<Playlist>, id: Seq<char>) -> int
    decreases pl.len(),
{
    if pl.len() == 0 {
        -1
    } else if is_named(pl[0], id) {
        0
    } else {
        let rest = first_named(pl.drop_first(), id);
        if rest < 0 { -1 } else { rest + 1 }
    }
}

/// The index of the last playlist named `id`, or -1 when none is.
pub open spec fn last_named(pl: Seq<Playlist>, id: Seq<char>) -> int
    decreases pl.len(),
{
    if pl.len() == 0 {
        -1
    } else if is_named(pl.last(), id) {
        pl.len() - 1
    } else {
        last_named(pl.drop_last(), id)
    }
}

/// The identifiers a layout names, in order, folders opened in place.
pub open spec fn layout_ids(layout: Seq<EntryView>) -> Seq<Seq<char>>
    decreases layout.len(),
{
    if layout.len() == 0 {
        Seq::empty()
    } else {
        let rest = layout_ids(layout.drop_last());
        match layout.last() {
            EntryView::Playlist(id) => rest.push(id),
            EntryView::Folder(_, _, members) => rest + members,
        }
    }
}

/// Of `ids`, the ones no playlist of `pl` is named, in order.
pub open spec fn unnamed(pl: Seq<Playlist>, ids: Seq<Seq<char>>) -> Seq<Seq<char>> {
    ids.filter(|id: Seq<char>| first_named(pl, id) < 0)
}

/// The identifiers of these tracks, as text.
pub open spec fn track_keys(tracks: Seq<Track>) -> Seq<Seq<char>> {
    tracks.map_values(|t: Track| t.id.0@)
}

/// Of these identifiers, the ones outside `known`, in order.
pub open spec fn outside(ids: Seq<Seq<char>>, known: Set<Seq<char>>) -> Seq<Seq<char>> {
    ids.filter(|id: Seq<char>| !known.contains(id))
}

/// The identifiers, as text.
pub open spec fn id_keys(ids: Seq<TrackId>) -> Seq<Seq<char>> {
    ids.map_values(|id: TrackId| id.0@)
}

/// `set` after the answers for `ids`: each answered yes goes in, each answered no comes out, the
/// later answer for one track winning.
pub open spec fn answered(set: Set<Seq<char>>, ids: Seq<Seq<char>>, answers: Seq<bool>) -> Set<Seq<char>>
    decreases ids.len(),
{
    if ids.len() == 0 || answers.len() == 0 {
        set
    } else {
        let n = if ids.len() < answers.len() { ids.len() } else { answers.len() };
        let before = answered(set, ids.take(n - 1), answers.take(n - 1));
        toggled(before, ids[n - 1], answers[n - 1])
    }
}

/// One row of the sidebar, by where its playlists stand in the library.
pub enum RowPlan {
    /// A playlist at the top level: where it stands among the playlists.
    One(int),
    /// A folder: where its entry stands in the arrangement, and where the playlists it shows
    /// stand among the playlists.
    Folder(int, Seq<int>),
}

/// Of a folder's members, the ones the library holds, each as the last playlist named it.
pub open spec fn held(pl: Seq<Playlist>, members: Seq<Seq<char>>) -> Seq<int>
    decreases members.len(),
{
    if members.len() == 0 {
        Seq::empty()
    } else {
        let rest = held(pl, members.drop_last());
        let k = last_named(pl, members.last());
        if k >= 0 { rest.push(k) } else { rest }
    }
}

/// The rows the arrangement makes: a playlist the library holds, and a folder that holds at
/// least one.
pub open spec fn arranged_rows(pl: Seq<Playlist>, layout: Seq<EntryView>) -> Seq<RowPlan>
    decreases layout.len(),
{
    if layout.len() == 0 {
        Seq::empty()
    } else {
        let rest = arranged_rows(pl, layout.drop_last());
        match layout.last() {
            EntryView::Playlist(id) => {
                if last_named(pl, id) >= 0 { rest.push(RowPlan::One(last_named(pl, id))) } else { rest }
            },
            EntryView::Folder(_, _, members) => {
                let ks = held(pl, members);
                if ks.len() > 0 { rest.push(RowPlan::Folder(layout.len() - 1, ks)) } else { rest }
            },
        }
    }
}

/// Whether the arrangement places `id`: names it, at the top or in a folder, and the library
/// holds a playlist named it.
pub open spec fn places(pl: Seq<Playlist>, layout: Seq<EntryView>, id: Seq<char>) -> bool {
    layout_ids(layout).contains(id) && last_named(pl, id) >= 0
}

/// Of the first `n` playlists, the rows for those the arrangement has not caught up with: each
/// one that is named, and whose name it does not place.
pub open spec fn leftover_rows(pl: Seq<Playlist>, layout: Seq<EntryView>, n: int) -> Seq<RowPlan>
    decreases n,
{
    if n <= 0 {
        Seq::empty()
    } else {
        let rest = leftover_rows(pl, layout, n - 1);
        if pl[n - 1].id matches Some(x) && !places(pl, layout, x.0@) {
            rest.push(RowPlan::One(n - 1))
        } else {
            rest
        }
    }
}

/// The sidebar's rows: every playlist in order where there is no arrangement; otherwise the
/// arrangement's rows, then what it has not caught up with.
pub open spec fn sidebar_plan(pl: Seq<Playlist>, layout: Seq<EntryView>) -> Seq<RowPlan> {
    if layout.len() == 0 {
        Seq::new(pl.len(), |k: int| RowPlan::One(k))
    } else {
        arranged_rows(pl, layout) + leftover_rows(pl, layout, pl.len() as int)
    }
}

/// Whether an entry of the arrangement makes a row: a playlist the library holds, or a folder
/// that holds at least one.
pub open spec fn produces(pl: Seq<Playlist>, entry: EntryView) -> bool {
    match entry {
        EntryView::Playlist(id) => last_named(pl, id) >= 0,
        EntryView::Folder(_, _, members) => held(pl, members).len() > 0,
    }
}

/// The row the entry at `e` of the arrangement makes.
pub open spec fn entry_row(pl: Seq<Playlist>, entry: EntryView, e: int) -> RowPlan {
    match entry {
        EntryView::Playlist(id) => RowPlan::One(last_named(pl, id)),
        EntryView::Folder(_, _, members) => RowPlan::Folder(e, held(pl, members)),
    }
}

/// The arrangement's entries in their order, those that make a row, each as its row.
pub open spec fn entry_rows_in_order(pl: Seq<Playlist>, layout: Seq<EntryView>) -> Seq<RowPlan> {
    Seq::new(layout.len(), |e: int| e).filter(|e: int| produces(pl, layout[e])).map_values(
        |e: int| entry_row(pl, layout[e], e),
    )
}

/// Whether the playlist at `k` is one the arrangement does not place: it has an identifier, and
/// the arrangement names no playlist the library holds by it.
pub open spec fn unplaced(pl: Seq<Playlist>, layout: Seq<EntryView>, k: int) -> bool {
    pl[k].id matches Some(x) && !places(pl, layout, x.0@)
}

/// The playlists the arrangement does not place, in their own order, each as a row.
pub open spec fn unplaced_in_order(pl: Seq<Playlist>, layout: Seq<EntryView>) -> Seq<RowPlan> {
    Seq::new(pl.len(), |k: int| k).filter(|k: int| unplaced(pl, layout, k)).map_values(|k: int| RowPlan::One(k))
}

/// The first `m` entries of the arrangement make the rows of those entries, in order.
proof fn lemma_arranged_prefix(pl: Seq<Playlist>, layout: Seq<EntryView>, m: int)
    requires
        0 <= m <= layout.len(),
    ensures
        arranged_rows(pl, layout.take(m)) == Seq::new(m as nat, |e: int| e).filter(|e: int| produces(pl, layout[e])).map_values(
            |e: int| entry_row(pl, layout[e], e),
        ),
    decreases m,
{
    let pred = |e: int| produces(pl, layout[e]);
    let f = |e: int| entry_row(pl, layout[e], e);
    if m == 0 {
        assert(Seq::new(0nat, |e: int| e) =~= Seq::<int>::empty());
        assert(Seq::<int>::empty().filter(pred) =~= Seq::<int>::empty()) by {
            reveal(Seq::filter);
        }
        assert(layout.take(0) =~= Seq::<EntryView>::empty());
        assert(Seq::<int>::empty().map_values(f) =~= Seq::<RowPlan>::empty());
    } else {
        lemma_arranged_prefix(pl, layout, m - 1);
        let before = Seq::new((m - 1) as nat, |e: int| e);
        assert(Seq::new(m as nat, |e: int| e) =~= before.push(m - 1));
        before.lemma_filter_push(m - 1, pred);
        assert(layout.take(m).drop_last() =~= layout.take(m - 1));
        assert(layout.take(m).last() == layout[m - 1]);
        assert(layout.take(m).len() - 1 == m - 1);
        let kept = before.filter(pred);
        if pred(m - 1) {
            assert(kept.push(m - 1).map_values(f) =~= kept.map_values(f).push(f(m - 1)));
        }
    }
}

/// The first `n` playlists leave over those the arrangement does not place, in order.
proof fn lemma_leftover_prefix(pl: Seq<Playlist>, layout: Seq<EntryView>, n: int)
    requires
        0 <= n <= pl.len(),
    ensures
        leftover_rows(pl, layout, n) == Seq::new(n as nat, |k: int| k).filter(|k: int| unplaced(pl, layout, k)).map_values(
            |k: int| RowPlan::One(k),
        ),
    decreases n,
{
    let pred = |k: int| unplaced(pl, layout, k);
    let f = |k: int| RowPlan::One(k);
    if n == 0 {
        assert(Seq::new(0nat, |k: int| k) =~= Seq::<int>::empty());
        assert(Seq::<int>::empty().filter(pred) =~= Seq::<int>::empty()) by {
            reveal(Seq::filter);
        }
        assert(Seq::<int>::empty().map_values(f) =~= Seq::<RowPlan>::empty());
    } else {
        lemma_leftover_prefix(pl, layout, n - 1);
        let before = Seq::new((n - 1) as nat, |k: int| k);
        assert(Seq::new(n as nat, |k: int| k) =~= before.push(n - 1));
        before.lemma_filter_push(n - 1, pred);
        let kept = before.filter(pred);
        if pred(n - 1) {
            assert(kept.push(n - 1).map_values(f) =~= kept.map_values(f).push(f(n - 1)));
        }
    }
}

/// A folder shows its members that the library holds, in the folder's order, each as the last
/// playlist by that name.
proof fn lemma_held_in_order(pl: Seq<Playlist>, members: Seq<Seq<char>>)
    ensures
        held(pl, members) == members.filter(|m: Seq<char>| last_named(pl, m) >= 0).map_values(|m: Seq<char>| last_named(pl, m)),
    decreases members.len(),
{
    let pred = |m: Seq<char>| last_named(pl, m) >= 0;
    let f = |m: Seq<char>| last_named(pl, m);
    if members.len() == 0 {
        assert(members.filter(pred) =~= members) by {
            reveal(Seq::filter);
        }
        assert(members.filter(pred).map_values(f) =~= Seq::<int>::empty());
    } else {
        let rest = members.drop_last();
        lemma_held_in_order(pl, rest);
        assert(rest.push(members.last()) =~= members);
        rest.lemma_filter_push(members.last(), pred);
        let kept = rest.filter(pred);
        if pred(members.last()) {
            assert(kept.push(members.last()).map_values(f) =~= kept.map_values(f).push(f(members.last())));
        }
    }
}

/// A playlist named `id` at `k` makes the last one named `id` stand at `k` or later.
proof fn lemma_named_is_held(pl: Seq<Playlist>, id: Seq<char>, k: int)
    requires
        0 <= k < pl.len(),
        is_named(pl[k], id),
    ensures
        last_named(pl, id) >= k,
    decreases pl.len(),
{
    if k < pl.len() - 1 && !is_named(pl.last(), id) {
        assert(pl.drop_last()[k] == pl[k]);
        lemma_named_is_held(pl.drop_last(), id, k);
    }
}

/// What the sidebar shows. With no arrangement, every playlist, in order. Otherwise the
/// arrangement's entries in their order: a playlist the library holds as its row, a folder with
/// the members the library holds, in the folder's order, and no row for a folder that holds none
/// or for a name the library does not hold; then every playlist the arrangement never names, in
/// the library's own order.
pub proof fn the_sidebar_keeps_the_arrangement(pl: Seq<Playlist>, layout: Seq<EntryView>, members: Seq<Seq<char>>)
    ensures
        layout.len() == 0 ==> sidebar_plan(pl, layout) == Seq::new(pl.len(), |k: int| RowPlan::One(k)),
        layout.len() > 0 ==> sidebar_plan(pl, layout) == entry_rows_in_order(pl, layout) + unplaced_in_order(pl, layout),
        held(pl, members) == members.filter(|m: Seq<char>| last_named(pl, m) >= 0).map_values(|m: Seq<char>| last_named(pl, m)),
        forall|k: int| 0 <= k < pl.len() && (#[trigger] pl[k]).id is Some
            ==> (unplaced(pl, layout, k) <==> !layout_ids(layout).contains((pl[k].id->0).0@)),
{
    assert forall|k: int| 0 <= k < pl.len() && (#[trigger] pl[k]).id is Some
        implies (unplaced(pl, layout, k) <==> !layout_ids(layout).contains((pl[k].id->0).0@)) by {
        let x = pl[k].id->0;
        lemma_named_is_held(pl, x.0@, k);
    }
    lemma_arranged_prefix(pl, layout, layout.len() as int);
    assert(layout.take(layout.len() as int) =~= layout);
    lemma_leftover_prefix(pl, layout, pl.len() as int);
    lemma_held_in_order(pl, members);
}

/// Whether `node` is the row `plan` stands for.
pub open spec fn shows(node: LibraryNode, plan: RowPlan, pl: Seq<Playlist>, layout: Seq<EntryView>) -> bool {
    match plan {
        RowPlan::One(k) => {
            &&& 0 <= k < pl.len()
            &&& node matches LibraryNode::Playlist(p)
            &&& p.same(&pl[k])
        },
        RowPlan::Folder(e, ks) => {
            &&& 0 <= e < layout.len()
            &&& node matches LibraryNode::Folder { id, name, playlists }
            &&& layout[e] matches EntryView::Folder(fid, fname, _)
            &&& id@ == fid
            &&& name@ == fname
            &&& playlists@.len() == ks.len()
            &&& forall|j: int| 0 <= j < ks.len() ==> 0 <= #[trigger] ks[j] < pl.len() && playlists@[j].same(&pl[ks[j]])
        },
    }
}

/// Whether `nodes` are the rows `plan` stands for, one for one.
pub open spec fn shows_all(nodes: Seq<LibraryNode>, plan: Seq<RowPlan>, pl: Seq<Playlist>, layout: Seq<EntryView>) -> bool {
    &&& nodes.len() == plan.len()
    &&& forall|i: int| 0 <= i < nodes.len() ==> shows(#[trigger] nodes[i], plan[i], pl, layout)
}

/// What the arrangement has placed so far.
pub open spec fn placed_so_far(pl: Seq<Playlist>, ids: Seq<Seq<char>>) -> Set<Seq<char>> {
    Set::new(|id: Seq<char>| ids.contains(id) && last_named(pl, id) >= 0)
}

/// Whether `a` is `b` with a count of `total` tracks.
pub open spec fn recounted(a: Playlist, b: Playlist, total: int) -> bool {
    &&& a.id == b.id
    &&& a.name == b.name
    &&& a.kind == b.kind
    &&& a.description == b.description
    &&& a.images@ == b.images@
    &&& a.total_tracks == total
    &&& a.snapshot_id == b.snapshot_id
}

/// The tracks that are not `id`, in order.
pub open spec fn without(tracks: Seq<Track>, id: Seq<char>) -> Seq<Track> {
    tracks.filter(|t: Track| t.id.0@ != id)
}

/// Whether `a` is `b` under the name `name`.
pub open spec fn renamed(a: Playlist, b: Playlist, name: Seq<char>) -> bool {
    &&& a.id == b.id
    &&& a.name@ == name
    &&& a.kind == b.kind
    &&& a.description == b.description
    &&& a.images@ == b.images@
    &&& a.total_tracks == b.total_tracks
    &&& a.snapshot_id == b.snapshot_id
}

/// The playlists not named `id`, in order.
pub open spec fn all_but(pl: Seq<Playlist>, id: Seq<char>) -> Seq<Playlist> {
    pl.filter(|p: Playlist| !is_named(p, id))
}

/// What to read again when the window connects.
#[derive(Debug, Clone, Copy, PartialEq, Eq, Structural)]
pub struct RefreshPlan {
    /// Read the playlists from Spotify.
    pub playlists: bool,
    /// Read the folders from the session.
    pub layout: bool,
}

/// What the interface holds.
#[derive(Debug)]
pub struct Library {
    /// Every playlist, in the order Spotify lists them.
    pub playlists: Vec<Playlist>,
    /// How many tracks are saved.
    pub liked_total: u32,
    /// Which tracks are saved, of the ones the interface has asked about.
    pub liked: TextSet<TrackId>,
    /// Which tracks the interface has asked about.
    pub liked_known: TextSet<TrackId>,
    /// What is in the search field.
    pub query: String,
    /// Whether the library is being read again.
    pub syncing: bool,
    /// Whether the account is within reach.
    pub link: Link,
    /// Whether a connection attempt is running. One at a time.
    pub linking: bool,
    /// What the account is called.
    pub who: String,
    /// How the account arranges its playlists.
    pub layout: Vec<Entry>,
    /// Which folders the sidebar shows the inside of.
    pub open_folders: TextSet<String>,
    /// The tracks the view is showing. An edit takes a row out here, so the list answers at once
    /// rather than waiting for Spotify to agree with itself.
    pub tracks: Vec<Track>,
}

/// `a` and `b` hold the same playlists, arrangement, tracks on screen, open folders and search.
pub open spec fn same_lists(a: Library, b: Library) -> bool {
    &&& a.playlists == b.playlists
    &&& a.layout == b.layout
    &&& a.tracks == b.tracks
    &&& a.open_folders == b.open_folders
    &&& a.query == b.query
}

/// `a` and `b` hold the same saved tracks, count of them, and tracks asked about.
pub open spec fn same_hearts(a: Library, b: Library) -> bool {
    &&& a.liked_total == b.liked_total
    &&& a.liked == b.liked
    &&& a.liked_known == b.liked_known
}

/// `a` and `b` say the same of the account: reading, reach, connecting and name.
pub open spec fn same_account(a: Library, b: Library) -> bool {
    &&& a.syncing == b.syncing
    &&& a.link == b.link
    &&& a.linking == b.linking
    &&& a.who == b.who
}

/// `a` and `b` differ at most in their playlists.
pub open spec fn only_playlists_differ(a: Library, b: Library) -> bool {
    &&& a.layout == b.layout
    &&& a.tracks == b.tracks
    &&& a.open_folders == b.open_folders
    &&& a.query == b.query
    &&& same_hearts(a, b)
    &&& same_account(a, b)
}

/// The views of these entries.
pub open spec fn entry_views(entries: Seq<Entry>) -> Seq<EntryView> {
    entries.map_values(|e: Entry| e@)
}

impl Library {
    /// A state with nothing loaded.
    pub fn new() -> (s: Self)
        ensures
            s.playlists@.len() == 0,
            s.liked_total == 0,
            s.liked@ == Set::<Seq<char>>::empty(),
            s.liked_known@ == Set::<Seq<char>>::empty(),
            s.query@.len() == 0,
            !s.syncing,
            s.link == Link::Connecting,
            !s.linking,
            s.who@.len() == 0,
            s.layout@.len() == 0,
            s.open_folders@ == Set::<Seq<char>>::empty(),
            s.tracks@.len() == 0,
    {
        Library {
            playlists: Vec::new(),
            liked_total: 0,
            liked: TextSet::new(),
            liked_known: TextSet::new(),
            query: String::new(),
            syncing: false,
            link: Link::Connecting,
            linking: false,
            who: String::new(),
            layout: Vec::new(),
            open_folders: TextSet::new(),
            tracks: Vec::new(),
        }
    }

    /// Starts a connection attempt, unless one is running: says whether it started.
    ///
    /// This is both the first attempt and the retry the header offers.
    pub fn begin_link(&mut self) -> (started: bool)
        ensures
            started == !old(self).linking,
            final(self).linking,
            started ==> final(self).link == Link::Connecting,
            !started ==> final(self).link == old(self).link,
            final(self).who == old(self).who,
            final(self).syncing == old(self).syncing,
            same_lists(*final(self), *old(self)),
            same_hearts(*final(self), *old(self)),
    {
        if self.linking {
            return false;
        }
        self.linking = true;
        self.link = Link::Connecting;
        true
    }

    /// The attempt reached the account, which is called `name`.
    pub fn linked(&mut self, name: String)
        ensures
            !final(self).linking,
            final(self).who == name,
            final(self).link == Link::Live,
            final(self).syncing == old(self).syncing,
            same_lists(*final(self), *old(self)),
            same_hearts(*final(self), *old(self)),
    {
        self.linking = false;
        self.who = name;
        self.link = Link::Live;
    }

    /// The attempt failed. The library stays on the screen, and the header says why.
    pub fn link_failed(&mut self, failure: StartFailure)
        ensures
            !final(self).linking,
            final(self).who == old(self).who,
            final(self).link matches Link::Broken(words) && words@ == plain_words(failure),
            final(self).syncing == old(self).syncing,
            same_lists(*final(self), *old(self)),
            same_hearts(*final(self), *old(self)),
    {
        self.linking = false;
        self.link = Link::Broken(plainly(failure));
    }

    /// Starts reading the library again, unless a reading is running: says whether it started.
    pub fn begin_sync(&mut self) -> (started: bool)
        ensures
            started == !old(self).syncing,
            final(self).syncing,
            final(self).link == old(self).link,
            final(self).linking == old(self).linking,
            final(self).who == old(self).who,
            same_lists(*final(self), *old(self)),
            same_hearts(*final(self), *old(self)),
    {
        if self.syncing {
            return false;
        }
        self.syncing = true;
        true
    }

    /// The reading finished: every heart is asked about again.
    pub fn sync_done(&mut self)
        ensures
            !final(self).syncing,
            final(self).liked_known@ == Set::<Seq<char>>::empty(),
            final(self).liked == old(self).liked,
            final(self).liked_total == old(self).liked_total,
            final(self).link == old(self).link,
            final(self).linking == old(self).linking,
            final(self).who == old(self).who,
            same_lists(*final(self), *old(self)),
    {
        self.liked_known.clear();
        self.syncing = false;
    }

    /// Takes the arrangement the session read, unless it came back empty: says whether it did,
    /// so that the caller keeps it too.
    pub fn take_layout(&mut self, layout: Vec<Entry>) -> (taken: bool)
        ensures
            taken == (layout@.len() > 0),
            taken ==> final(self).layout@ == layout@,
            !taken ==> final(self).layout == old(self).layout,
            final(self).playlists == old(self).playlists,
            final(self).tracks == old(self).tracks,
            final(self).open_folders == old(self).open_folders,
            final(self).query == old(self).query,
            same_hearts(*final(self), *old(self)),
            same_account(*final(self), *old(self)),
    {
        if layout.len() == 0 {
            return false;
        }
        self.layout = layout;
        true
    }

    /// What to read when the window connects, given whether the library was read recently.
    ///
    /// A recent reading of a library that is on the screen is left alone: the sidebar changes
    /// rarely, and reading it again costs a request per page. The folders come from the session,
    /// so they are read whenever there are none.
    pub fn refresh_plan(&self, read_recently: bool) -> (plan: RefreshPlan)
        ensures
            plan.playlists == !(read_recently && self.playlists@.len() > 0),
            plan.layout == (!(read_recently && self.playlists@.len() > 0) || self.layout@.len() == 0),
    {
        let fresh = read_recently && self.playlists.len() > 0;
        RefreshPlan { playlists: !fresh, layout: !fresh || self.layout.len() == 0 }
    }

    /// Fills the window from the cache: the account's name, the library with its arrangement,
    /// and the saved tracks.
    ///
    /// The arrangement is written with the playlists, never after them: with playlists and no
    /// arrangement the sidebar draws a flat list for a frame and then folds it.
    pub fn show_cached(&mut self, who: Option<String>, cached: Vec<Playlist>, layout: Vec<Entry>, saved: Vec<TrackId>)
        ensures
            final(self).who == (match who { Some(name) => name, None => old(self).who }),
            cached@.len() > 0 ==> final(self).playlists@ == cached@ && final(self).layout@ == layout@,
            cached@.len() == 0 ==> final(self).playlists@ == old(self).playlists@ && final(self).layout@ == old(self).layout@,
            saved@.len() > 0 ==> final(self).liked_total == (if saved@.len() > u32::MAX { u32::MAX as int } else { saved@.len() as int }),
            saved@.len() == 0 ==> final(self).liked_total == old(self).liked_total,
            final(self).liked@ == old(self).liked@ + id_keys(saved@).to_set(),
            final(self).liked_known@ == old(self).liked_known@ + id_keys(saved@).to_set(),
            final(self).tracks == old(self).tracks,
            final(self).open_folders == old(self).open_folders,
            final(self).query == old(self).query,
            final(self).syncing == old(self).syncing,
            final(self).link == old(self).link,
            final(self).linking == old(self).linking,
    {
        match who {
            Some(name) => {
                self.who = name;
            },
            None => {},
        }
        if cached.len() > 0 {
            self.layout = layout;
            self.playlists = cached;
        }
        if saved.len() > 0 {
            self.liked_total = if saved.len() > 4294967295usize { u32::MAX } else { saved.len() as u32 };
        }
        let mut i: usize = 0;
        while i < saved.len()
            invariant
                i <= saved@.len(),
                self.liked@ == old(self).liked@ + id_keys(saved@.take(i as int)).to_set(),
                self.liked_known@ == old(self).liked_known@ + id_keys(saved@.take(i as int)).to_set(),
                self.who == (match who { Some(name) => name, None => old(self).who }),
                cached@.len() > 0 ==> self.playlists@ == cached@ && self.layout@ == layout@,
                cached@.len() == 0 ==> self.playlists@ == old(self).playlists@ && self.layout@ == old(self).layout@,
                saved@.len() > 0 ==> self.liked_total == (if saved@.len() > u32::MAX { u32::MAX as int } else { saved@.len() as int }),
                saved@.len() == 0 ==> self.liked_total == old(self).liked_total,
                self.tracks == old(self).tracks,
                self.open_folders == old(self).open_folders,
                self.query == old(self).query,
                self.syncing == old(self).syncing,
                self.link == old(self).link,
                self.linking == old(self).linking,
            decreases saved@.len() - i,
        {
            let ghost done = id_keys(saved@.take(i as int));
            self.liked.insert(saved[i].clone());
            self.liked_known.insert(saved[i].clone());
            proof {
                assert(id_keys(saved@.take(i + 1)) =~= done.push(saved@[i as int].0@));
                done.lemma_push_to_set_commute(saved@[i as int].0@);
                assert(self.liked@ =~= old(self).liked@ + id_keys(saved@.take(i + 1)).to_set());
                assert(self.liked_known@ =~= old(self).liked_known@ + id_keys(saved@.take(i + 1)).to_set());
            }
            i = i + 1;
        }
        assert(saved@.take(i as int) =~= saved@);
    }

    /// The playlist the sidebar already holds, when it holds it: the first named `id`.
    ///
    /// The sidebar reads every playlist at the start, so opening one needs no request of its own.
    pub fn known_playlist(&self, id: &PlaylistId) -> (found: Option<Playlist>)
        ensures
            first_named(self.playlists@, id.0@) < 0 ==> found is None,
            first_named(self.playlists@, id.0@) >= 0 ==> (found matches Some(p)
                && p.same(&self.playlists@[first_named(self.playlists@, id.0@)])),
    {
        match first_index(&self.playlists, id) {
            Some(k) => {
                let p = self.playlists[k].clone();
                assert(p.same(&self.playlists@[k as int]));
                Some(p)
            },
            None => None,
        }
    }

    /// The sidebar's rows: the playlists, in folders where the account puts them.
    ///
    /// A playlist the arrangement does not mention still shows, at the end. The two lists come
    /// from different places and one can be newer than the other. Where two playlists carry one
    /// name, the arrangement shows the later.
    #[verifier::rlimit(40)]
    pub fn library(&self) -> (nodes: Vec<LibraryNode>)
        ensures
            shows_all(nodes@, sidebar_plan(self.playlists@, entry_views(self.layout@)), self.playlists@, entry_views(self.layout@)),
    {
        let ghost pl = self.playlists@;
        let ghost lv = entry_views(self.layout@);
        let mut nodes: Vec<LibraryNode> = Vec::new();
        if self.layout.len() == 0 {
            let mut k: usize = 0;
            while k < self.playlists.len()
                invariant
                    pl == self.playlists@,
                    lv == entry_views(self.layout@),
                    k <= pl.len(),
                    shows_all(nodes@, Seq::new(k as nat, |i: int| RowPlan::One(i)), pl, lv),
                decreases pl.len() - k,
            {
                nodes.push(LibraryNode::Playlist(self.playlists[k].clone()));
                k = k + 1;
            }
            return nodes;
        }
        let mut placed: TextSet<PlaylistId> = TextSet::new();
        let mut e: usize = 0;
        while e < self.layout.len()
            invariant
                pl == self.playlists@,
                lv == entry_views(self.layout@),
                e <= lv.len(),
                shows_all(nodes@, arranged_rows(pl, lv.take(e as int)), pl, lv),
                placed@ == placed_so_far(pl, layout_ids(lv.take(e as int))),
            decreases lv.len() - e,
        {
            let ghost before = nodes@;
            let ghost ids_before = layout_ids(lv.take(e as int));
            proof {
                assert(lv.take(e + 1).drop_last() =~= lv.take(e as int));
                assert(lv.take(e + 1).last() == lv[e as int]);
            }
            match &self.layout[e] {
                Entry::Playlist(id) => {
                    proof {
                        assert(layout_ids(lv.take(e + 1)) == ids_before.push(id.0@));
                    }
                    match last_index(&self.playlists, id) {
                        Some(k) => {
                            placed.insert(id.clone());
                            nodes.push(LibraryNode::Playlist(self.playlists[k].clone()));
                            proof {
                                assert(shows(nodes@[before.len() as int], RowPlan::One(k as int), pl, lv));
                                assert forall|i: int| 0 <= i < nodes@.len() implies shows(#[trigger] nodes@[i], arranged_rows(pl, lv.take(e + 1))[i], pl, lv) by {
                                    if i < before.len() {
                                        assert(nodes@[i] == before[i]);
                                    }
                                }
                            }
                        },
                        None => {},
                    }
                    proof {
                        assert forall|x: Seq<char>| placed@.contains(x) == placed_so_far(pl, ids_before.push(id.0@)).contains(x) by {
                            if x != id.0@ {
                                assert(ids_before.push(id.0@).contains(x) == ids_before.contains(x)) by {
                                    if ids_before.push(id.0@).contains(x) {
                                        let m = choose|m: int| 0 <= m < ids_before.len() + 1 && ids_before.push(id.0@)[m] == x;
                                        assert(m < ids_before.len());
                                        assert(ids_before[m] == x);
                                    }
                                    if ids_before.contains(x) {
                                        let m = choose|m: int| 0 <= m < ids_before.len() && ids_before[m] == x;
                                        assert(ids_before.push(id.0@)[m] == x);
                                    }
                                }
                            } else {
                                assert(ids_before.push(id.0@)[ids_before.len() as int] == x);
                            }
                        }
                        assert(placed@ =~= placed_so_far(pl, layout_ids(lv.take(e + 1))));
                    }
                },
                Entry::Folder { id, name, playlists } => {
                    let ghost members = crate::direct::id_texts(playlists@);
                    proof {
                        assert(lv[e as int] == EntryView::Folder(id@, name@, members));
                        assert(layout_ids(lv.take(e + 1)) == ids_before + members);
                    }
                    let mut shown: Vec<Playlist> = Vec::new();
                    let ghost mut ks: Seq<int> = Seq::empty();
                    let mut j: usize = 0;
                    while j < playlists.len()
                        invariant
                            pl == self.playlists@,
                            members == crate::direct::id_texts(playlists@),
                            j <= members.len(),
                            ks == held(pl, members.take(j as int)),
                            shown@.len() == ks.len(),
                            forall|m: int| 0 <= m < ks.len() ==> 0 <= #[trigger] ks[m] < pl.len() && shown@[m].same(&pl[ks[m]]),
                            placed@ == placed_so_far(pl, ids_before + members.take(j as int)),
                        decreases members.len() - j,
                    {
                        let ghost old_shown = shown@;
                        let ghost old_ks = ks;
                        proof {
                            assert(members.take(j + 1).drop_last() =~= members.take(j as int));
                            assert(members.take(j + 1).last() == playlists@[j as int].0@);
                        }
                        match last_index(&self.playlists, &playlists[j]) {
                            Some(k) => {
                                placed.insert(playlists[j].clone());
                                shown.push(self.playlists[k].clone());
                                proof {
                                    ks = ks.push(k as int);
                                    assert forall|m: int| 0 <= m < ks.len() implies 0 <= #[trigger] ks[m] < pl.len() && shown@[m].same(&pl[ks[m]]) by {
                                        if m < old_ks.len() {
                                            assert(ks[m] == old_ks[m]);
                                            assert(shown@[m] == old_shown[m]);
                                        }
                                    }
                                }
                            },
                            None => {},
                        }
                        proof {
                            let ghost a = ids_before + members.take(j as int);
                            let ghost b = ids_before + members.take(j + 1);
                            assert(b =~= a.push(playlists@[j as int].0@));
                            assert forall|x: Seq<char>| #[trigger] b.contains(x) == (a.contains(x) || x == playlists@[j as int].0@) by {
                                if b.contains(x) {
                                    let m = choose|m: int| 0 <= m < b.len() && b[m] == x;
                                    if m < a.len() {
                                        assert(a[m] == x);
                                    }
                                }
                                if a.contains(x) {
                                    let m = choose|m: int| 0 <= m < a.len() && a[m] == x;
                                    assert(b[m] == x);
                                }
                                if x == playlists@[j as int].0@ {
                                    assert(b[a.len() as int] == x);
                                }
                            }
                            assert(placed@ =~= placed_so_far(pl, b));
                        }
                        j = j + 1;
                    }
                    proof {
                        assert(members.take(j as int) =~= members);
                    }
                    if shown.len() > 0 {
                        let ghost old_nodes = nodes@;
                        nodes.push(LibraryNode::Folder { id: id.clone(), name: name.clone(), playlists: shown });
                        proof {
                            assert forall|i: int| 0 <= i < nodes@.len() implies shows(#[trigger] nodes@[i], arranged_rows(pl, lv.take(e + 1))[i], pl, lv) by {
                                if i < old_nodes.len() {
                                    assert(nodes@[i] == old_nodes[i]);
                                } else {
                                    assert(arranged_rows(pl, lv.take(e + 1))[i] == RowPlan::Folder(e as int, ks));
                                }
                            }
                        }
                    }
                },
            }
            e = e + 1;
        }
        assert(lv.take(e as int) =~= lv);
        let ghost arranged = arranged_rows(pl, lv);
        let mut k: usize = 0;
        while k < self.playlists.len()
            invariant
                pl == self.playlists@,
                lv == entry_views(self.layout@),
                lv.len() > 0,
                k <= pl.len(),
                arranged == arranged_rows(pl, lv),
                placed@ == placed_so_far(pl, layout_ids(lv)),
                shows_all(nodes@, arranged + leftover_rows(pl, lv, k as int), pl, lv),
            decreases pl.len() - k,
        {
            let ghost old_nodes = nodes@;
            let unplaced = match &self.playlists[k].id {
                Some(x) => !placed.has(x),
                None => false,
            };
            if unplaced {
                nodes.push(LibraryNode::Playlist(self.playlists[k].clone()));
            }
            proof {
                let ghost next = arranged + leftover_rows(pl, lv, k + 1);
                assert forall|i: int| 0 <= i < nodes@.len() implies shows(#[trigger] nodes@[i], next[i], pl, lv) by {
                    if i < old_nodes.len() {
                        assert(nodes@[i] == old_nodes[i]);
                        assert(next[i] == (arranged + leftover_rows(pl, lv, k as int))[i]);
                    }
                }
            }
            k = k + 1;
        }
        nodes
    }

    /// The playlists the arrangement names and the library does not hold, in order: the ones
    /// Spotify makes, which the Web API leaves out of the account's list.
    pub fn missing_made(&self) -> (missing: Vec<PlaylistId>)
        ensures
            crate::direct::id_texts(missing@) == unnamed(self.playlists@, layout_ids(entry_views(self.layout@))),
    {
        let ghost pl = self.playlists@;
        let ghost lv = entry_views(self.layout@);
        let mut missing: Vec<PlaylistId> = Vec::new();
        let mut e: usize = 0;
        while e < self.layout.len()
            invariant
                pl == self.playlists@,
                lv == entry_views(self.layout@),
                e <= lv.len(),
                crate::direct::id_texts(missing@) == unnamed(pl, layout_ids(lv.take(e as int))),
            decreases lv.len() - e,
        {
            proof {
                assert(lv.take(e + 1).drop_last() =~= lv.take(e as int));
                assert(lv.take(e + 1).last() == lv[e as int]);
            }
            let ghost ids_before = layout_ids(lv.take(e as int));
            match &self.layout[e] {
                Entry::Playlist(id) => {
                    let ghost before = missing@;
                    proof {
                        ids_before.lemma_filter_push(id.0@, |x: Seq<char>| first_named(pl, x) < 0);
                    }
                    if first_index(&self.playlists, id).is_none() {
                        missing.push(id.clone());
                        assert(crate::direct::id_texts(missing@) =~= crate::direct::id_texts(before).push(id.0@));
                    }
                },
                Entry::Folder { playlists, .. } => {
                    let ghost members = crate::direct::id_texts(playlists@);
                    let mut j: usize = 0;
                    while j < playlists.len()
                        invariant
                            pl == self.playlists@,
                            members == crate::direct::id_texts(playlists@),
                            j <= members.len(),
                            crate::direct::id_texts(missing@) == unnamed(pl, ids_before + members.take(j as int)),
                        decreases members.len() - j,
                    {
                        let ghost before = missing@;
                        proof {
                            assert(ids_before + members.take(j + 1) =~= (ids_before + members.take(j as int)).push(members[j as int]));
                            (ids_before + members.take(j as int)).lemma_filter_push(members[j as int], |x: Seq<char>| first_named(pl, x) < 0);
                        }
                        if first_index(&self.playlists, &playlists[j]).is_none() {
                            missing.push(playlists[j].clone());
                            assert(crate::direct::id_texts(missing@) =~= crate::direct::id_texts(before).push(members[j as int]));
                        }
                        j = j + 1;
                    }
                    assert(members.take(j as int) =~= members);
                },
            }
            e = e + 1;
        }
        assert(lv.take(e as int) =~= lv);
        missing
    }

    /// Adds the playlists Spotify makes, once read: says whether any came, so that the caller
    /// keeps them too.
    pub fn made_found(&mut self, found: Vec<Playlist>) -> (added: bool)
        ensures
            added == (found@.len() > 0),
            final(self).playlists@ == old(self).playlists@ + found@,
            only_playlists_differ(*final(self), *old(self)),
    {
        if found.len() == 0 {
            assert(self.playlists@ =~= old(self).playlists@ + found@);
            return false;
        }
        let mut found = found;
        self.playlists.append(&mut found);
        true
    }

    /// A track went into the playlist named `playlist`: it holds one more than the sidebar last
    /// heard.
    pub fn track_added(&mut self, playlist: &PlaylistId)
        requires
            first_named(old(self).playlists@, playlist.0@) >= 0
                ==> old(self).playlists@[first_named(old(self).playlists@, playlist.0@)].total_tracks < u32::MAX,
        ensures
            final(self).playlists@.len() == old(self).playlists@.len(),
            forall|i: int| 0 <= i < old(self).playlists@.len() && i != first_named(old(self).playlists@, playlist.0@)
                ==> #[trigger] final(self).playlists@[i] == old(self).playlists@[i],
            first_named(old(self).playlists@, playlist.0@) >= 0 ==> recounted(
                final(self).playlists@[first_named(old(self).playlists@, playlist.0@)],
                old(self).playlists@[first_named(old(self).playlists@, playlist.0@)],
                old(self).playlists@[first_named(old(self).playlists@, playlist.0@)].total_tracks + 1,
            ),
            only_playlists_differ(*final(self), *old(self)),
    {
        match first_index(&self.playlists, playlist) {
            Some(k) => {
                let mut p = self.playlists[k].clone();
                p.total_tracks = p.total_tracks + 1;
                self.playlists.set(k, p);
            },
            None => {},
        }
    }

    /// A track came out of the playlist named `playlist`: it holds one fewer, and the list on the
    /// screen loses its rows at once. Spotify agrees with itself a moment later, and a reader that
    /// read the playlist again now would still see the track.
    pub fn track_removed(&mut self, playlist: &PlaylistId, track: &TrackId)
        ensures
            final(self).playlists@.len() == old(self).playlists@.len(),
            forall|i: int| 0 <= i < old(self).playlists@.len() && i != first_named(old(self).playlists@, playlist.0@)
                ==> #[trigger] final(self).playlists@[i] == old(self).playlists@[i],
            first_named(old(self).playlists@, playlist.0@) >= 0 ==> recounted(
                final(self).playlists@[first_named(old(self).playlists@, playlist.0@)],
                old(self).playlists@[first_named(old(self).playlists@, playlist.0@)],
                counted(old(self).playlists@[first_named(old(self).playlists@, playlist.0@)].total_tracks, false),
            ),
            final(self).tracks@.len() == without(old(self).tracks@, track.0@).len(),
            forall|i: int| 0 <= i < final(self).tracks@.len()
                ==> (#[trigger] final(self).tracks@[i]).same(&without(old(self).tracks@, track.0@)[i]),
            final(self).layout == old(self).layout,
            final(self).open_folders == old(self).open_folders,
            final(self).query == old(self).query,
            same_hearts(*final(self), *old(self)),
            same_account(*final(self), *old(self)),
    {
        match first_index(&self.playlists, playlist) {
            Some(k) => {
                let mut p = self.playlists[k].clone();
                p.total_tracks = if p.total_tracks == 0 { 0 } else { p.total_tracks - 1 };
                self.playlists.set(k, p);
            },
            None => {},
        }
        let ghost all = self.tracks@;
        let mut kept: Vec<Track> = Vec::new();
        let mut i: usize = 0;
        while i < self.tracks.len()
            invariant
                all == self.tracks@,
                i <= all.len(),
                kept@.len() == without(all.take(i as int), track.0@).len(),
                forall|m: int| 0 <= m < kept@.len() ==> (#[trigger] kept@[m]).same(&without(all.take(i as int), track.0@)[m]),
            decreases all.len() - i,
        {
            let ghost before = kept@;
            proof {
                assert(all.take(i + 1) =~= all.take(i as int).push(all[i as int]));
                all.take(i as int).lemma_filter_push(all[i as int], |t: Track| t.id.0@ != track.0@);
            }
            if !(self.tracks[i].id.0 == track.0) {
                kept.push(self.tracks[i].clone());
                proof {
                    assert forall|m: int| 0 <= m < kept@.len() implies (#[trigger] kept@[m]).same(&without(all.take(i + 1), track.0@)[m]) by {
                        if m < before.len() {
                            assert(kept@[m] == before[m]);
                        }
                    }
                }
            }
            i = i + 1;
        }
        assert(all.take(i as int) =~= all);
        self.tracks = kept;
    }

    /// Writes a new name for the playlist named `id`: the first the library holds by that name.
    /// The view shows it at once, and the old name is written back the same way if Spotify
    /// refuses.
    pub fn rename_playlist(&mut self, id: &PlaylistId, name: &str)
        ensures
            final(self).playlists@.len() == old(self).playlists@.len(),
            forall|i: int| 0 <= i < old(self).playlists@.len() && i != first_named(old(self).playlists@, id.0@)
                ==> #[trigger] final(self).playlists@[i] == old(self).playlists@[i],
            first_named(old(self).playlists@, id.0@) >= 0 ==> renamed(
                final(self).playlists@[first_named(old(self).playlists@, id.0@)],
                old(self).playlists@[first_named(old(self).playlists@, id.0@)],
                name@,
            ),
            only_playlists_differ(*final(self), *old(self)),
    {
        match first_index(&self.playlists, id) {
            Some(k) => {
                let mut p = self.playlists[k].clone();
                p.name = name.to_owned();
                self.playlists.set(k, p);
            },
            None => {},
        }
    }

    /// The playlist named `id` is gone from the account: every playlist by that name leaves the
    /// sidebar.
    pub fn playlist_deleted(&mut self, id: &PlaylistId)
        ensures
            final(self).playlists@.len() == all_but(old(self).playlists@, id.0@).len(),
            forall|i: int| 0 <= i < final(self).playlists@.len()
                ==> (#[trigger] final(self).playlists@[i]).same(&all_but(old(self).playlists@, id.0@)[i]),
            only_playlists_differ(*final(self), *old(self)),
    {
        let ghost all = self.playlists@;
        let mut kept: Vec<Playlist> = Vec::new();
        let mut i: usize = 0;
        while i < self.playlists.len()
            invariant
                all == self.playlists@,
                i <= all.len(),
                kept@.len() == all_but(all.take(i as int), id.0@).len(),
                forall|m: int| 0 <= m < kept@.len() ==> (#[trigger] kept@[m]).same(&all_but(all.take(i as int), id.0@)[m]),
            decreases all.len() - i,
        {
            let ghost before = kept@;
            proof {
                assert(all.take(i + 1) =~= all.take(i as int).push(all[i as int]));
                all.take(i as int).lemma_filter_push(all[i as int], |p: Playlist| !is_named(p, id.0@));
            }
            let named = match &self.playlists[i].id {
                Some(x) => x.0 == id.0,
                None => false,
            };
            if !named {
                kept.push(self.playlists[i].clone());
                proof {
                    assert forall|m: int| 0 <= m < kept@.len() implies (#[trigger] kept@[m]).same(&all_but(all.take(i + 1), id.0@)[m]) by {
                        if m < before.len() {
                            assert(kept@[m] == before[m]);
                        }
                    }
                }
            }
            i = i + 1;
        }
        assert(all.take(i as int) =~= all);
        self.playlists = kept;
    }

    /// A playlist was made: it goes at the top of the sidebar. Returns where to go, when the new
    /// playlist has an identifier.
    pub fn playlist_created(&mut self, playlist: Playlist) -> (go: Option<PlaylistId>)
        ensures
            final(self).playlists@ == old(self).playlists@.insert(0, playlist),
            go == playlist.id,
            only_playlists_differ(*final(self), *old(self)),
    {
        let go = match &playlist.id {
            Some(id) => Some(id.clone()),
            None => None,
        };
        self.playlists.insert(0, playlist);
        go
    }

    /// The connection went or came back: the header says so.
    pub fn connection(&mut self, c: crate::playback::Connection)
        ensures
            c == crate::playback::Connection::Lost ==> (final(self).link matches Link::Broken(why)
                && why@ == "The connection to Spotify went"@),
            c == crate::playback::Connection::Restored ==> final(self).link == Link::Live,
            final(self).linking == old(self).linking,
            final(self).who == old(self).who,
            final(self).syncing == old(self).syncing,
            same_lists(*final(self), *old(self)),
            same_hearts(*final(self), *old(self)),
    {
        self.link = match c {
            crate::playback::Connection::Lost => Link::Broken("The connection to Spotify went".to_owned()),
            crate::playback::Connection::Restored => Link::Live,
        };
    }

    /// The window opened: a session that connected on the way in is live; otherwise a connection
    /// attempt starts, and the caller makes it when this says so.
    pub fn opened(&mut self, linked: bool) -> (start: bool)
        ensures
            linked ==> !start && final(self).link == Link::Live && final(self).linking == old(self).linking,
            !linked ==> start == !old(self).linking && final(self).linking
                && (start ==> final(self).link == Link::Connecting)
                && (!start ==> final(self).link == old(self).link),
            final(self).who == old(self).who,
            final(self).syncing == old(self).syncing,
            same_lists(*final(self), *old(self)),
            same_hearts(*final(self), *old(self)),
    {
        if linked {
            self.link = Link::Live;
            false
        } else {
            self.begin_link()
        }
    }

    /// Whether `id` is saved.
    pub fn is_liked(&self, id: &TrackId) -> (liked: bool)
        ensures
            liked == self.liked@.contains(id.0@),
    {
        self.liked.has(id)
    }

    /// Opens or closes a folder.
    pub fn toggle_folder(&mut self, id: &str)
        ensures
            old(self).open_folders@.contains(id@) ==> final(self).open_folders@ == old(self).open_folders@.remove(id@),
            !old(self).open_folders@.contains(id@) ==> final(self).open_folders@ == old(self).open_folders@.insert(id@),
            final(self).playlists == old(self).playlists,
            final(self).layout == old(self).layout,
            final(self).tracks == old(self).tracks,
            final(self).query == old(self).query,
            same_hearts(*final(self), *old(self)),
            same_account(*final(self), *old(self)),
    {
        if self.open_folders.has_text(id) {
            self.open_folders.remove_text(id);
        } else {
            self.open_folders.insert(id.to_owned());
        }
    }

    /// Saves or unsaves a track, here, before Spotify hears of it.
    ///
    /// The heart answers the click at once; [`Library::like_refused`] puts it back if Spotify
    /// says no.
    pub fn set_liked(&mut self, id: TrackId, on: bool)
        requires
            on ==> old(self).liked_total < u32::MAX,
        ensures
            final(self).liked@ == toggled(old(self).liked@, id.0@, on),
            final(self).liked_known@ == old(self).liked_known@.insert(id.0@),
            final(self).liked_total == counted(old(self).liked_total, on),
            same_lists(*final(self), *old(self)),
            same_account(*final(self), *old(self)),
    {
        if on {
            self.liked.insert(id.clone());
            self.liked_total = self.liked_total + 1;
        } else {
            self.liked.remove(&id);
            self.liked_total = if self.liked_total == 0 { 0 } else { self.liked_total - 1 };
        }
        self.liked_known.insert(id);
    }

    /// Spotify refused a like: shows what Spotify holds again.
    pub fn like_refused(&mut self, id: &TrackId, on: bool)
        requires
            !on ==> old(self).liked_total < u32::MAX,
        ensures
            final(self).liked@ == toggled(old(self).liked@, id.0@, !on),
            final(self).liked_known == old(self).liked_known,
            final(self).liked_total == counted(old(self).liked_total, !on),
            same_lists(*final(self), *old(self)),
            same_account(*final(self), *old(self)),
    {
        if on {
            self.liked.remove(id);
            self.liked_total = if self.liked_total == 0 { 0 } else { self.liked_total - 1 };
        } else {
            self.liked.insert(id.clone());
            self.liked_total = self.liked_total + 1;
        }
    }

    /// Marks the tracks of `tracks` not yet asked about as asked, and returns them, in order:
    /// what to ask Spotify about. A list that scrolls asks about each row once.
    pub fn load_liked_for(&mut self, tracks: &[Track]) -> (wanted: Vec<TrackId>)
        ensures
            id_keys(wanted@) == outside(track_keys(tracks@), old(self).liked_known@),
            final(self).liked_known@ == old(self).liked_known@ + id_keys(wanted@).to_set(),
            final(self).liked == old(self).liked,
            final(self).liked_total == old(self).liked_total,
            same_lists(*final(self), *old(self)),
            same_account(*final(self), *old(self)),
    {
        let mut wanted: Vec<TrackId> = Vec::new();
        let mut i: usize = 0;
        while i < tracks.len()
            invariant
                i <= tracks@.len(),
                self.liked_known@ == old(self).liked_known@,
                self.liked == old(self).liked,
                self.liked_total == old(self).liked_total,
                same_lists(*self, *old(self)),
                same_account(*self, *old(self)),
                id_keys(wanted@) == outside(track_keys(tracks@.take(i as int)), old(self).liked_known@),
            decreases tracks@.len() - i,
        {
            let ghost before = id_keys(wanted@);
            proof {
                assert(track_keys(tracks@.take(i + 1)) =~= track_keys(tracks@.take(i as int)).push(tracks@[i as int].id.0@));
                track_keys(tracks@.take(i as int)).lemma_filter_push(tracks@[i as int].id.0@, |id: Seq<char>| !old(self).liked_known@.contains(id));
            }
            if !self.liked_known.has(&tracks[i].id) {
                wanted.push(tracks[i].id.clone());
                assert(id_keys(wanted@) =~= before.push(tracks@[i as int].id.0@));
            }
            i = i + 1;
        }
        assert(tracks@.take(i as int) =~= tracks@);
        let mut j: usize = 0;
        while j < wanted.len()
            invariant
                j <= wanted@.len(),
                self.liked == old(self).liked,
                self.liked_total == old(self).liked_total,
                same_lists(*self, *old(self)),
                same_account(*self, *old(self)),
                self.liked_known@ == old(self).liked_known@ + id_keys(wanted@.take(j as int)).to_set(),
            decreases wanted@.len() - j,
        {
            let ghost done = id_keys(wanted@.take(j as int));
            self.liked_known.insert(wanted[j].clone());
            proof {
                assert(id_keys(wanted@.take(j + 1)) =~= done.push(wanted@[j as int].0@));
                done.lemma_push_to_set_commute(wanted@[j as int].0@);
                assert(self.liked_known@ =~= old(self).liked_known@ + id_keys(wanted@.take(j + 1)).to_set());
            }
            j = j + 1;
        }
        assert(wanted@.take(j as int) =~= wanted@);
        wanted
    }

    /// Spotify answered which of `wanted` are saved: each answer, in order, puts its track in the
    /// saved set or takes it out.
    pub fn liked_answers(&mut self, wanted: &[TrackId], answers: &[bool])
        ensures
            final(self).liked@ == answered(old(self).liked@, id_keys(wanted@), answers@),
            final(self).liked_known == old(self).liked_known,
            final(self).liked_total == old(self).liked_total,
            same_lists(*final(self), *old(self)),
            same_account(*final(self), *old(self)),
    {
        let n = if wanted.len() < answers.len() { wanted.len() } else { answers.len() };
        let mut i: usize = 0;
        while i < n
            invariant
                n <= wanted@.len(),
                n <= answers@.len(),
                n == wanted@.len() || n == answers@.len(),
                i <= n,
                self.liked_known == old(self).liked_known,
                self.liked_total == old(self).liked_total,
                same_lists(*self, *old(self)),
                same_account(*self, *old(self)),
                self.liked@ == answered(old(self).liked@, id_keys(wanted@.take(i as int)), answers@.take(i as int)),
            decreases n - i,
        {
            proof {
                let ghost ids = id_keys(wanted@.take(i + 1));
                let ghost ans = answers@.take(i + 1);
                assert(ids.take(i as int) =~= id_keys(wanted@.take(i as int)));
                assert(ans.take(i as int) =~= answers@.take(i as int));
            }
            if answers[i] {
                self.liked.insert(wanted[i].clone());
            } else {
                self.liked.remove(&wanted[i]);
            }
            i = i + 1;
        }
        proof {
            assert(id_keys(wanted@.take(n as int)) =~= id_keys(wanted@).take(n as int));
            lemma_answered_past_the_end(old(self).liked@, id_keys(wanted@), answers@, n as int);
        }
    }

    /// Spotify could not say which of `wanted` are saved: they are asked about again the next time
    /// their rows are drawn.
    pub fn liked_unanswered(&mut self, wanted: &[TrackId])
        ensures
            final(self).liked_known@ == old(self).liked_known@ - id_keys(wanted@).to_set(),
            final(self).liked == old(self).liked,
            final(self).liked_total == old(self).liked_total,
            same_lists(*final(self), *old(self)),
            same_account(*final(self), *old(self)),
    {
        let mut i: usize = 0;
        while i < wanted.len()
            invariant
                i <= wanted@.len(),
                self.liked == old(self).liked,
                self.liked_total == old(self).liked_total,
                same_lists(*self, *old(self)),
                same_account(*self, *old(self)),
                self.liked_known@ == old(self).liked_known@ - id_keys(wanted@.take(i as int)).to_set(),
            decreases wanted@.len() - i,
        {
            let ghost done = id_keys(wanted@.take(i as int));
            self.liked_known.remove(&wanted[i]);
            proof {
                assert(id_keys(wanted@.take(i + 1)) =~= done.push(wanted@[i as int].0@));
                done.lemma_push_to_set_commute(wanted@[i as int].0@);
                assert(self.liked_known@ =~= old(self).liked_known@ - id_keys(wanted@.take(i + 1)).to_set());
            }
            i = i + 1;
        }
        assert(wanted@.take(i as int) =~= wanted@);
    }
}

/// Answers past the shorter of the two lists change nothing.
proof fn lemma_answered_past_the_end(set: Set<Seq<char>>, ids: Seq<Seq<char>>, answers: Seq<bool>, n: int)
    requires
        n <= ids.len(),
        n <= answers.len(),
        n == ids.len() || n == answers.len(),
    ensures
        answered(set, ids.take(n), answers.take(n)) == answered(set, ids, answers),
{
    if n > 0 {
        assert(ids.take(n).take(n - 1) =~= ids.take(n - 1));
        assert(answers.take(n).take(n - 1) =~= answers.take(n - 1));
    }
    if n == ids.len() {
        assert(ids.take(n) =~= ids);
    }
    if n == answers.len() {
        assert(answers.take(n) =~= answers);
    }
}

/// Where the last playlist named `id` stands.
fn last_index(pl: &Vec<Playlist>, id: &PlaylistId) -> (k: Option<usize>)
    ensures
        last_named(pl@, id.0@) < 0 ==> k is None,
        last_named(pl@, id.0@) >= 0 ==> (k matches Some(i) && i == last_named(pl@, id.0@)),
        last_named(pl@, id.0@) < pl@.len(),
{
    proof {
        lemma_last_named_bounds(pl@, id.0@);
    }
    let mut i: usize = pl.len();
    assert(pl@.take(i as int) =~= pl@);
    while i > 0
        invariant
            i <= pl@.len(),
            last_named(pl@, id.0@) == last_named(pl@.take(i as int), id.0@),
        decreases i,
    {
        proof {
            assert(pl@.take(i as int).drop_last() =~= pl@.take(i - 1));
            assert(pl@.take(i as int).last() == pl@[i - 1]);
        }
        let named = match &pl[i - 1].id {
            Some(x) => x.0 == id.0,
            None => false,
        };
        if named {
            return Some(i - 1);
        }
        i = i - 1;
    }
    None
}

/// The last playlist named `id` stands among the playlists.
proof fn lemma_last_named_bounds(pl: Seq<Playlist>, id: Seq<char>)
    ensures
        -1 <= last_named(pl, id) < pl.len(),
    decreases pl.len(),
{
    if pl.len() > 0 {
        lemma_last_named_bounds(pl.drop_last(), id);
    }
}

/// Where the first playlist named `id` stands.
fn first_index(pl: &Vec<Playlist>, id: &PlaylistId) -> (k: Option<usize>)
    ensures
        first_named(pl@, id.0@) < 0 ==> k is None,
        first_named(pl@, id.0@) >= 0 ==> (k matches Some(i) && i == first_named(pl@, id.0@)),
        first_named(pl@, id.0@) < pl@.len(),
{
    let mut i: usize = 0;
    while i < pl.len()
        invariant
            i <= pl@.len(),
            forall|j: int| 0 <= j < i ==> !is_named(#[trigger] pl@[j], id.0@),
        decreases pl@.len() - i,
    {
        let named = match &pl[i].id {
            Some(x) => x.0 == id.0,
            None => false,
        };
        if named {
            proof {
                lemma_first_named_at(pl@, id.0@, i as int);
            }
            return Some(i);
        }
        i = i + 1;
    }
    proof {
        lemma_none_named(pl@, id.0@);
    }
    None
}

/// The first playlist named `id` is the first one that is.
proof fn lemma_first_named_at(pl: Seq<Playlist>, id: Seq<char>, k: int)
    requires
        0 <= k < pl.len(),
        is_named(pl[k], id),
        forall|j: int| 0 <= j < k ==> !is_named(#[trigger] pl[j], id),
    ensures
        first_named(pl, id) == k,
    decreases k,
{
    if k > 0 {
        assert(!is_named(pl[0], id));
        assert forall|j: int| 0 <= j < k - 1 implies !is_named(#[trigger] pl.drop_first()[j], id) by {
            assert(pl.drop_first()[j] == pl[j + 1]);
        }
        assert(pl.drop_first()[k - 1] == pl[k]);
        lemma_first_named_at(pl.drop_first(), id, k - 1);
    }
}

/// With no playlist named `id`, there is no first one.
proof fn lemma_none_named(pl: Seq<Playlist>, id: Seq<char>)
    requires
        forall|j: int| 0 <= j < pl.len() ==> !is_named(#[trigger] pl[j], id),
    ensures
        first_named(pl, id) == -1,
    decreases pl.len(),
{
    if pl.len() > 0 {
        assert(!is_named(pl[0], id));
        assert forall|j: int| 0 <= j < pl.len() - 1 implies !is_named(#[trigger] pl.drop_first()[j], id) by {
            assert(pl.drop_first()[j] == pl[j + 1]);
        }
        lemma_none_named(pl.drop_first(), id);
    }
}

/// A refused like puts the saved set and the count back where they were, for a like that changed
/// something: saving a track that was not saved, or unsaving one that was.
pub proof fn refusal_restores(set: Set<Seq<char>>, total: u32, id: Seq<char>, on: bool)
    requires
        on ==> !set.contains(id) && total < u32::MAX,
        !on ==> set.contains(id) && total > 0,
    ensures
        toggled(toggled(set, id, on), id, !on) == set,
        counted(counted(total, on) as u32, !on) == total,
{
    if on {
        assert(set.insert(id).remove(id) =~= set);
    } else {
        assert(set.remove(id).insert(id) =~= set);
    }
}

} // verus!
