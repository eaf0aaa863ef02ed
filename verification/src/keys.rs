//! Sets of things named by text: saved tracks, open folders, playlists already placed.
//!
//! Two identifiers are the same when their text is, so a set holds texts. The items are kept in a
//! list, and a set answers for the texts of what it holds.

use vstd::prelude::*;

use crate::models::{PlaylistId, TrackId};
use crate::text::same_text;

verus! {

/// Something named by a text.
pub trait TextKey: Sized {
    /// The text it is named by.
    spec fn key(&self) -> Seq<char>;

    /// The text it is named by.
    fn key_text(&self) -> (s: &str)
        ensures
            s@ == self.key();

    /// Another one named the same.
    fn copied(&self) -> (r: Self)
        ensures
            r.key() == self.key();
}

impl TextKey for TrackId {
    open spec fn key(&self) -> Seq<char> {
        self.0@
    }

    fn key_text(&self) -> (s: &str) {
        self.0.as_str()
    }

    fn copied(&self) -> (r: Self) {
        self.clone()
    }
}

impl TextKey for PlaylistId {
    open spec fn key(&self) -> Seq<char> {
        self.0@
    }

    fn key_text(&self) -> (s: &str) {
        self.0.as_str()
    }

    fn copied(&self) -> (r: Self) {
        self.clone()
    }
}

impl TextKey for String {
    open spec fn key(&self) -> Seq<char> {
        self@
    }

    fn key_text(&self) -> (s: &str) {
        self.as_str()
    }

    fn copied(&self) -> (r: Self) {
        self.clone()
    }
}

/// Whether one of `items` is named `key`.
pub open spec fn names<K: TextKey>(items: Seq<K>, key: Seq<char>) -> bool {
    exists|i: int| 0 <= i < items.len() && (#[trigger] items[i]).key() == key
}

/// A set of things named by text.
#[derive(Debug)]
pub struct TextSet<K> {
    items: Vec<K>,
}

impl<K: TextKey> View for TextSet<K> {
    type V = Set<Seq<char>>;

    closed spec fn view(&self) -> Set<Seq<char>> {
        Set::new(|key: Seq<char>| names(self.items@, key))
    }
}

impl<K: TextKey> TextSet<K> {
    /// An empty set.
    pub fn new() -> (s: Self)
        ensures
            s@ == Set::<Seq<char>>::empty(),
    {
        let s = TextSet { items: Vec::new() };
        assert(s@ =~= Set::<Seq<char>>::empty());
        s
    }

    /// Whether the set holds `key`.
    pub fn has_text(&self, key: &str) -> (r: bool)
        ensures
            r == self@.contains(key@),
    {
        let mut i: usize = 0;
        while i < self.items.len()
            invariant
                i <= self.items@.len(),
                forall|j: int| 0 <= j < i ==> (#[trigger] self.items@[j]).key() != key@,
            decreases self.items@.len() - i,
        {
            if same_text(self.items[i].key_text(), key) {
                assert(names(self.items@, key@));
                return true;
            }
            i = i + 1;
        }
        false
    }

    /// Whether the set holds what `item` is named.
    pub fn has(&self, item: &K) -> (r: bool)
        ensures
            r == self@.contains(item.key()),
    {
        self.has_text(item.key_text())
    }

    /// Adds `item`.
    pub fn insert(&mut self, item: K)
        ensures
            final(self)@ == old(self)@.insert(item.key()),
    {
        if self.has(&item) {
            assert(self@ =~= old(self)@.insert(item.key()));
            return;
        }
        let ghost before = self.items@;
        let ghost key = item.key();
        self.items.push(item);
        assert forall|k: Seq<char>| self@.contains(k) == old(self)@.insert(key).contains(k) by {
            if names(before, k) {
                let i = choose|i: int| 0 <= i < before.len() && (#[trigger] before[i]).key() == k;
                assert(self.items@[i] == before[i]);
            }
            if names(self.items@, k) && k != key {
                let i = choose|i: int| 0 <= i < self.items@.len() && (#[trigger] self.items@[i]).key() == k;
                assert(i < before.len());
                assert(before[i] == self.items@[i]);
            }
            if k == key {
                assert(self.items@[before.len() as int].key() == key);
            }
        }
        assert(self@ =~= old(self)@.insert(key));
    }

    /// Takes out whatever is named `key`.
    pub fn remove_text(&mut self, key: &str)
        ensures
            final(self)@ == old(self)@.remove(key@),
    {
        let mut kept: Vec<K> = Vec::new();
        let mut i: usize = 0;
        while i < self.items.len()
            invariant
                i <= self.items@.len(),
                self.items@ == old(self).items@,
                forall|k: Seq<char>| names(kept@, k) <==> (k != key@ && names(self.items@.take(i as int), k)),
            decreases self.items@.len() - i,
        {
            let ghost before = kept@;
            let ghost done = self.items@.take(i as int);
            let ghost next = self.items@.take(i + 1);
            proof {
                assert(next =~= done.push(self.items@[i as int]));
                assert forall|k: Seq<char>| names(before, k) <==> (k != key@ && names(done, k)) by {}
                assert forall|k: Seq<char>| #[trigger] names(next, k) <==> (names(done, k) || self.items@[i as int].key() == k) by {
                    if names(next, k) {
                        let m = choose|m: int| 0 <= m < next.len() && (#[trigger] next[m]).key() == k;
                        if m < i {
                            assert(done[m] == next[m]);
                        }
                    }
                    if names(done, k) {
                        let m = choose|m: int| 0 <= m < done.len() && (#[trigger] done[m]).key() == k;
                        assert(next[m] == done[m]);
                    }
                    if self.items@[i as int].key() == k {
                        assert(next[i as int] == self.items@[i as int]);
                    }
                }
            }
            if !same_text(self.items[i].key_text(), key) {
                let item = self.items[i].copied();
                kept.push(item);
                proof {
                    assert forall|k: Seq<char>| #[trigger] names(kept@, k) <==> (names(before, k) || item.key() == k) by {
                        if names(kept@, k) {
                            let j = choose|j: int| 0 <= j < kept@.len() && (#[trigger] kept@[j]).key() == k;
                            if j < before.len() {
                                assert(before[j] == kept@[j]);
                            }
                        }
                        if names(before, k) {
                            let j = choose|j: int| 0 <= j < before.len() && (#[trigger] before[j]).key() == k;
                            assert(kept@[j] == before[j]);
                        }
                        if item.key() == k {
                            assert(kept@[before.len() as int] == item);
                        }
                    }
                }
            }
            i = i + 1;
        }
        assert(self.items@.take(i as int) =~= self.items@);
        self.items = kept;
        assert(self@ =~= old(self)@.remove(key@));
    }

    /// Takes out what `item` is named.
    pub fn remove(&mut self, item: &K)
        ensures
            final(self)@ == old(self)@.remove(item.key()),
    {
        self.remove_text(item.key_text());
    }

    /// Empties the set.
    pub fn clear(&mut self)
        ensures
            final(self)@ == Set::<Seq<char>>::empty(),
    {
        self.items = Vec::new();
        assert(self@ =~= Set::<Seq<char>>::empty());
    }
}

} // verus!
