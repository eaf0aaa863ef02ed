//! Reading a list that Spotify hands out in pages.
//!
//! A view reads page after page until the list is whole, showing what has arrived as it goes.
//! Only a whole reading replaces what is kept: a reading that stopped part way — a rate limit, a
//! dropped connection — would otherwise put a short list in the cache and mark it fresh. The
//! requests are the application's; it hands each page, or the failure, to a [`Reading`].

use vstd::prelude::*;

use crate::models::{Page, next_offset_of};

verus! {

/// How many of an artist's releases a view reads.
pub const ALBUMS: usize = 40;

/// A list being read, page by page.
#[derive(Debug)]
pub struct Reading<T> {
    /// What has arrived, in order.
    pub all: Vec<T>,
    /// Where the next page starts.
    pub offset: u32,
    /// Whether everything so far was read.
    pub whole: bool,
    /// Whether a page that could read only part of its range spoils the reading.
    pub mind_partial: bool,
}

impl<T> Reading<T> {
    /// A reading that has not started. A playlist minds a page that was only partly read; the
    /// saved tracks count only a failed request against the reading.
    pub fn new(mind_partial: bool) -> (r: Self)
        ensures
            r.all@.len() == 0,
            r.offset == 0,
            r.whole,
            r.mind_partial == mind_partial,
    {
        Reading { all: Vec::new(), offset: 0, whole: true, mind_partial }
    }

    /// Takes one page: what it holds joins the list, the next page starts where this one's range
    /// ends. Says whether another page follows.
    pub fn took(&mut self, page: Page<T>) -> (more: bool)
        ensures
            more == (page.covered > 0 && next_offset_of(page.offset, page.covered) < page.total),
            final(self).all@ == old(self).all@ + page.items@,
            final(self).offset == next_offset_of(page.offset, page.covered),
            final(self).whole == (old(self).whole && (old(self).mind_partial ==> page.whole)),
            final(self).mind_partial == old(self).mind_partial,
    {
        let more = page.has_more();
        self.offset = page.next_offset();
        if self.mind_partial && !page.whole {
            self.whole = false;
        }
        let mut items = page.items;
        self.all.append(&mut items);
        more
    }

    /// A request failed: the reading stops, and it is not whole.
    pub fn failed(&mut self)
        ensures
            !final(self).whole,
            final(self).all@ == old(self).all@,
            final(self).offset == old(self).offset,
            final(self).mind_partial == old(self).mind_partial,
    {
        self.whole = false;
    }

    /// Whether what was read replaces what is kept: only a whole reading does.
    pub fn keeps(&self) -> (keep: bool)
        ensures
            keep == self.whole,
    {
        self.whole
    }

    /// Whether the view goes back to the kept copy once the reading ends: when the reading was
    /// not whole and a copy was there to go back to.
    pub fn falls_back(&self, cached: bool) -> (back: bool)
        ensures
            back == (!self.whole && cached),
    {
        !self.whole && cached
    }
}

/// Whether an artist's view asks for another page of releases, holding `count` of them.
pub fn wants_more_albums(count: usize) -> (more: bool)
    ensures
        more == (count < ALBUMS),
{
    count < ALBUMS
}

} // verus!
