//! Where the interface is, and how it goes back.
//!
//! One stack holds where it has been. Going back moves the top of that stack onto a second one, so
//! going forward puts it back.

use vstd::prelude::*;
use vstd::std_specs::cmp::PartialEqSpecImpl;

use crate::models::{AlbumId, ArtistId, PlaylistId, TrackId};

verus! {

/// What the main area shows.
#[derive(Debug)]
pub enum Route {
    /// The saved tracks.
    Liked,
    /// One playlist.
    Playlist(PlaylistId),
    /// One album.
    Album(AlbumId),
    /// One artist.
    Artist(ArtistId),
    /// A station built around one track.
    Radio(TrackId),
    /// What matches the search.
    Search,
}

/// A route as the identifiers' text.
pub enum RouteView {
    /// The saved tracks.
    Liked,
    /// One playlist.
    Playlist(Seq<char>),
    /// One album.
    Album(Seq<char>),
    /// One artist.
    Artist(Seq<char>),
    /// A station built around one track.
    Radio(Seq<char>),
    /// What matches the search.
    Search,
}

impl View for Route {
    type V = RouteView;

    open spec fn view(&self) -> RouteView {
        match self {
            Route::Liked => RouteView::Liked,
            Route::Playlist(id) => RouteView::Playlist(id.0@),
            Route::Album(id) => RouteView::Album(id.0@),
            Route::Artist(id) => RouteView::Artist(id.0@),
            Route::Radio(id) => RouteView::Radio(id.0@),
            Route::Search => RouteView::Search,
        }
    }
}

impl Clone for Route {
    fn clone(&self) -> (r: Self)
        ensures
            r@ == self@,
    {
        match self {
            Route::Liked => Route::Liked,
            Route::Playlist(id) => Route::Playlist(id.clone()),
            Route::Album(id) => Route::Album(id.clone()),
            Route::Artist(id) => Route::Artist(id.clone()),
            Route::Radio(id) => Route::Radio(id.clone()),
            Route::Search => Route::Search,
        }
    }
}

impl PartialEq for Route {
    fn eq(&self, other: &Self) -> (r: bool) {
        match (self, other) {
            (Route::Liked, Route::Liked) => true,
            (Route::Playlist(a), Route::Playlist(b)) => a == b,
            (Route::Album(a), Route::Album(b)) => a == b,
            (Route::Artist(a), Route::Artist(b)) => a == b,
            (Route::Radio(a), Route::Radio(b)) => a == b,
            (Route::Search, Route::Search) => true,
            _ => false,
        }
    }
}

impl Eq for Route {}

impl PartialEqSpecImpl for Route {
    open spec fn obeys_eq_spec() -> bool {
        true
    }

    open spec fn eq_spec(&self, other: &Self) -> bool {
        self@ == other@
    }
}

impl Default for Route {
    /// The saved tracks.
    fn default() -> (r: Self)
        ensures
            r@ == RouteView::Liked,
    {
        Route::Liked
    }
}

/// The routes, as their views.
pub open spec fn route_views(routes: Seq<Route>) -> Seq<RouteView> {
    routes.map_values(|r: Route| r@)
}

/// Where a history stands: the stack it has been through, and what lies ahead of it.
pub struct History {
    /// Where it is, with where it came from underneath.
    pub behind: Seq<RouteView>,
    /// Where it was before going back, the nearest last.
    pub ahead: Seq<RouteView>,
}

/// Where the interface is in a history: the top of the stack, or the saved tracks where the
/// stack is empty.
pub open spec fn here(h: History) -> RouteView {
    if h.behind.len() == 0 { RouteView::Liked } else { h.behind.last() }
}

/// A history after going to `route`: where it already is, nothing changes; elsewhere, the route
/// goes on the stack and nothing lies ahead any more.
pub open spec fn went(h: History, route: RouteView) -> History {
    if here(h) == route {
        h
    } else {
        History { behind: h.behind.push(route), ahead: Seq::empty() }
    }
}

/// A history after going back: with somewhere to go back to, the top moves ahead.
pub open spec fn backed(h: History) -> History {
    if h.behind.len() > 1 {
        History { behind: h.behind.drop_last(), ahead: h.ahead.push(h.behind.last()) }
    } else {
        h
    }
}

/// A history after going forward: with something ahead, the nearest of it goes on the stack.
pub open spec fn forwarded(h: History) -> History {
    if h.ahead.len() > 0 {
        History { behind: h.behind.push(h.ahead.last()), ahead: h.ahead.drop_last() }
    } else {
        h
    }
}

/// Where the interface has been.
#[derive(Debug)]
pub struct Router {
    /// Where it is, with where it came from underneath.
    stack: Vec<Route>,
    /// Where it was before going back.
    forward: Vec<Route>,
}

impl View for Router {
    type V = History;

    closed spec fn view(&self) -> History {
        History { behind: route_views(self.stack@), ahead: route_views(self.forward@) }
    }
}

impl Default for Router {
    fn default() -> (r: Self)
        ensures
            r@ == (History { behind: seq![RouteView::Liked], ahead: Seq::empty() }),
    {
        Router::new()
    }
}

impl Router {
    /// A router showing the saved tracks.
    pub fn new() -> (r: Self)
        ensures
            r@ == (History { behind: seq![RouteView::Liked], ahead: Seq::empty() }),
    {
        let mut stack: Vec<Route> = Vec::new();
        stack.push(Route::Liked);
        let r = Router { stack, forward: Vec::new() };
        assert(r@.behind =~= seq![RouteView::Liked]);
        assert(r@.ahead =~= Seq::<RouteView>::empty());
        r
    }

    /// Where the interface is.
    pub fn current(&self) -> (route: Route)
        ensures
            route@ == here(self@),
    {
        let n = self.stack.len();
        if n == 0 {
            Route::Liked
        } else {
            self.stack[n - 1].clone()
        }
    }

    /// Goes to `route`.
    ///
    /// Going where the interface already is does nothing, so a second click on the same playlist
    /// leaves the history alone.
    pub fn go(&mut self, route: Route)
        ensures
            final(self)@ == went(old(self)@, route@),
    {
        if self.current() == route {
            return;
        }
        let ghost view = route@;
        self.stack.push(route);
        self.forward.clear();
        assert(self@.behind =~= old(self)@.behind.push(view));
        assert(self@.ahead =~= Seq::<RouteView>::empty());
    }

    /// Whether there is anywhere to go back to.
    pub fn can_go_back(&self) -> (can: bool)
        ensures
            can == (self@.behind.len() > 1),
    {
        self.stack.len() > 1
    }

    /// Whether there is anywhere to go forward to.
    pub fn can_go_forward(&self) -> (can: bool)
        ensures
            can == (self@.ahead.len() > 0),
    {
        !self.forward.is_empty()
    }

    /// Goes back one step.
    pub fn back(&mut self)
        ensures
            final(self)@ == backed(old(self)@),
    {
        if !self.can_go_back() {
            return;
        }
        let ghost top = self.stack@.last();
        match self.stack.pop() {
            Some(route) => {
                self.forward.push(route);
            },
            None => {},
        }
        assert(self@.behind =~= old(self)@.behind.drop_last());
        assert(self@.ahead =~= old(self)@.ahead.push(top@));
    }

    /// Goes forward one step.
    pub fn forward(&mut self)
        ensures
            final(self)@ == forwarded(old(self)@),
    {
        let ghost nearest = self.forward@.last();
        match self.forward.pop() {
            Some(route) => {
                self.stack.push(route);
                assert(self@.behind =~= old(self)@.behind.push(nearest@));
                assert(self@.ahead =~= old(self)@.ahead.drop_last());
            },
            None => {},
        }
    }
}

/// Going forward after going back returns to where the history stood.
pub proof fn forward_undoes_back(h: History)
    requires
        h.behind.len() > 1,
    ensures
        forwarded(backed(h)) == h,
{
    assert(backed(h).ahead.last() == h.behind.last());
    assert(h.behind.drop_last().push(h.behind.last()) =~= h.behind);
    assert(h.ahead.push(h.behind.last()).drop_last() =~= h.ahead);
}

/// Going back after going forward returns to where the history stood.
pub proof fn back_undoes_forward(h: History)
    requires
        h.behind.len() > 0,
        h.ahead.len() > 0,
    ensures
        backed(forwarded(h)) == h,
{
    assert(h.behind.push(h.ahead.last()).drop_last() =~= h.behind);
    assert(h.ahead.drop_last().push(h.ahead.last()) =~= h.ahead);
}

/// Going somewhere new leaves nothing to go forward to, shows the new place, and can be undone
/// by going back.
pub proof fn going_somewhere_new(h: History, route: RouteView)
    requires
        h.behind.len() > 0,
        here(h) != route,
    ensures
        here(went(h, route)) == route,
        went(h, route).ahead.len() == 0,
        backed(went(h, route)).behind == h.behind,
        here(backed(went(h, route))) == here(h),
{
    assert(h.behind.push(route).drop_last() =~= h.behind);
}

/// A history that stands somewhere keeps standing somewhere, whatever the interface does: going
/// back stops at the first place.
pub proof fn always_somewhere(h: History, route: RouteView)
    requires
        h.behind.len() > 0,
    ensures
        went(h, route).behind.len() > 0,
        backed(h).behind.len() > 0,
        forwarded(h).behind.len() > 0,
{
}

/// Going where the interface already is changes nothing.
pub proof fn going_where_it_is(h: History)
    ensures
        went(h, here(h)) == h,
{
}

} // verus!
