//! Album art: where a picture is kept on disk, and which pictures stay registered.
//!
//! The interface draws a picture from a registered buffer. The fetching, the files and the
//! registrations themselves are the application's; this names each picture's file and keeps the
//! order in which pictures were last asked for, so that the oldest registrations are the ones
//! dropped.

use vstd::prelude::*;

use crate::text::{chars_of, push_char};
use vstd::string::StringSliceAdditionalSpecFns;

verus! {

/// How many pictures stay registered.
pub const HELD: usize = 512;

/// What stops a picture from being shown.
#[derive(Debug, Clone, PartialEq, Eq)]
pub enum ImageError {
    /// The fetch failed, and why.
    Fetch(String),
}

impl ImageError {
    /// What the failure says of itself.
    pub fn describe(&self) -> (text: String)
        ensures
            text@ == (match *self { ImageError::Fetch(m) => "cannot fetch the picture: "@ + m@ }),
    {
        match self {
            ImageError::Fetch(m) => {
                let mut text = "cannot fetch the picture: ".to_owned();
                text.append(m.as_str());
                text
            },
        }
    }
}

/// Where FNV-1a starts.
pub const SEED: u64 = 0xcbf2_9ce4_8422_2325;

/// What FNV-1a multiplies by.
pub const PRIME: u64 = 0x0000_0100_0000_01b3;

/// How many characters of an address's last part a file name keeps.
pub const TAIL: usize = 48;

/// `bytes` folded to one number by FNV-1a.
pub open spec fn fnv(bytes: Seq<u8>) -> u64
    decreases bytes.len(),
{
    if bytes.len() == 0 {
        SEED
    } else {
        (fnv(bytes.drop_last()) ^ (bytes.last() as u64)).wrapping_mul(PRIME)
    }
}

/// `text` folded to one number.
///
/// FNV-1a, written out rather than taken from the standard library: the hasher there may change
/// between compiler releases, and a name that changes throws away a cache that is still good.
pub fn fold(text: &str) -> (hash: u64)
    ensures
        hash == fnv(text.spec_bytes()),
{
    let bytes = text.as_bytes();
    let mut hash: u64 = SEED;
    let mut i: usize = 0;
    while i < bytes.len()
        invariant
            bytes@ == text.spec_bytes(),
            i <= bytes@.len(),
            hash == fnv(bytes@.take(i as int)),
        decreases bytes@.len() - i,
    {
        proof {
            assert(bytes@.take(i + 1).drop_last() =~= bytes@.take(i as int));
            assert(bytes@.take(i + 1).last() == bytes@[i as int]);
        }
        hash = (hash ^ (bytes[i] as u64)).wrapping_mul(PRIME);
        i = i + 1;
    }
    assert(bytes@.take(i as int) =~= bytes@);
    hash
}

/// The lower-case hexadecimal digit for `d`, below sixteen.
pub open spec fn hex_digit(d: nat) -> char {
    if d < 10 { (48 + d) as char } else { (87 + d) as char }
}

/// The last `k` hexadecimal digits of `n`, with leading zeros.
pub open spec fn hex_digits(n: nat, k: nat) -> Seq<char>
    decreases k,
{
    if k == 0 {
        Seq::empty()
    } else {
        hex_digits(n / 16, (k - 1) as nat).push(hex_digit(n % 16))
    }
}

/// Appends the last `k` hexadecimal digits of `n`.
fn push_hex(s: &mut String, n: u64, k: u32)
    ensures
        final(s)@ == old(s)@ + hex_digits(n as nat, k as nat),
    decreases k,
{
    if k == 0 {
        assert(final(s)@ =~= old(s)@ + hex_digits(n as nat, 0));
        return;
    }
    push_hex(s, n / 16, k - 1);
    let d = n % 16;
    let c: char = if d < 10 { (48 + d as u8) as char } else { (87 + d as u8) as char };
    push_char(s, c);
    assert(final(s)@ =~= old(s)@ + hex_digits(n as nat, k as nat));
}

/// Whether `c` is an ASCII letter or digit.
pub open spec fn is_alnum(c: char) -> bool {
    ('0' <= c <= '9') || ('a' <= c <= 'z') || ('A' <= c <= 'Z')
}

/// What follows the last `/` of an address, or the whole of it when it has none.
pub open spec fn last_part(url: Seq<char>) -> Seq<char>
    decreases url.len(),
{
    if url.len() == 0 {
        url
    } else if url.last() == '/' {
        Seq::empty()
    } else {
        last_part(url.drop_last()).push(url.last())
    }
}

/// The readable part of a file name: the letters and digits of an address's last part, no more
/// than [`TAIL`] of them.
pub open spec fn tail_of(url: Seq<char>) -> Seq<char> {
    let kept = last_part(url).filter(|c: char| is_alnum(c));
    if kept.len() > TAIL { kept.take(TAIL as int) } else { kept }
}

/// The name of the file the picture at `url` is kept in: the readable end of its address, then
/// the whole address folded to sixteen hexadecimal digits. A cover from one host ends in an
/// identifier that names it on its own; one from another ends in the language it was drawn for,
/// and every such cover would share one file without the number.
pub open spec fn file_name_of(url: &str) -> Seq<char> {
    tail_of(url@) + "-"@ + hex_digits(fold_spec(url) as nat, 16)
}

/// `fnv` of the address's bytes.
pub open spec fn fold_spec(url: &str) -> u64 {
    fnv(url.spec_bytes())
}

/// The name of the file the picture at `url` is kept in.
pub fn file_name(url: &str) -> (name: String)
    ensures
        name@ == file_name_of(url),
{
    let chars = chars_of(url);
    // Where the last part starts.
    let mut start: usize = chars.len();
    assert(chars@.take(start as int) =~= chars@);
    assert(last_part(chars@) + chars@.skip(start as int) =~= last_part(chars@));
    while start > 0 && chars[start - 1] != '/'
        invariant
            start <= chars@.len(),
            chars@ == url@,
            last_part(chars@) == last_part(chars@.take(start as int)) + chars@.skip(start as int),
            forall|j: int| start <= j < chars@.len() ==> chars@[j] != '/',
        decreases start,
    {
        proof {
            assert(chars@.take(start as int).drop_last() =~= chars@.take(start - 1));
            assert(chars@.take(start as int).last() == chars@[start - 1]);
            assert(chars@.skip(start - 1) =~= seq![chars@[start - 1]] + chars@.skip(start as int));
            assert(last_part(chars@.take(start - 1)).push(chars@[start - 1]) + chars@.skip(start as int)
                =~= last_part(chars@.take(start - 1)) + chars@.skip(start - 1));
        }
        start = start - 1;
    }
    proof {
        if start > 0 {
            assert(chars@.take(start as int).last() == '/');
            assert(last_part(chars@.take(start as int)) =~= Seq::<char>::empty());
        } else {
            assert(chars@.take(0) =~= Seq::<char>::empty());
        }
        assert(last_part(chars@) =~= chars@.skip(start as int));
    }
    let ghost part = chars@.skip(start as int);
    let mut name = String::new();
    let mut i: usize = start;
    let mut kept: usize = 0;
    while i < chars.len() && kept < TAIL
        invariant
            start <= i <= chars@.len(),
            part == chars@.skip(start as int),
            kept <= TAIL,
            name@ == part.take(i - start).filter(|c: char| is_alnum(c)),
            kept == name@.len(),
        decreases chars@.len() - i,
    {
        proof {
            assert(part.take(i - start + 1) =~= part.take(i - start).push(chars@[i as int]));
            part.take(i - start).lemma_filter_push(chars@[i as int], |c: char| is_alnum(c));
        }
        let c = chars[i];
        if ('0' <= c && c <= '9') || ('a' <= c && c <= 'z') || ('A' <= c && c <= 'Z') {
            push_char(&mut name, c);
            kept = kept + 1;
        }
        i = i + 1;
    }
    proof {
        let ghost all = part.filter(|c: char| is_alnum(c));
        if i == chars.len() {
            assert(part.take(i - start) =~= part);
        } else {
            // The tail is full: what is left of the part only adds past the cut.
            lemma_filter_prefix(part, (i - start) as int);
            assert(all.take(TAIL as int) =~= name@);
        }
    }
    name.append("-");
    push_hex(&mut name, fold(url), 16);
    name
}

/// Filtering a prefix gives a prefix of the filtered whole.
proof fn lemma_filter_prefix(s: Seq<char>, n: int)
    requires
        0 <= n <= s.len(),
    ensures
        s.take(n).filter(|c: char| is_alnum(c)).len() <= s.filter(|c: char| is_alnum(c)).len(),
        s.filter(|c: char| is_alnum(c)).take(s.take(n).filter(|c: char| is_alnum(c)).len() as int)
            == s.take(n).filter(|c: char| is_alnum(c)),
    decreases s.len() - n,
{
    if n < s.len() {
        lemma_filter_prefix(s, n + 1);
        assert(s.take(n + 1) =~= s.take(n).push(s[n]));
        s.take(n).lemma_filter_push(s[n], |c: char| is_alnum(c));
        let a = s.take(n).filter(|c: char| is_alnum(c));
        let b = s.take(n + 1).filter(|c: char| is_alnum(c));
        let whole = s.filter(|c: char| is_alnum(c));
        if is_alnum(s[n]) {
            assert(whole.take(a.len() as int) =~= whole.take(b.len() as int).take(a.len() as int));
            assert(b.take(a.len() as int) =~= a);
        }
    } else {
        assert(s.take(n) =~= s);
        assert(s.filter(|c: char| is_alnum(c)).take(s.filter(|c: char| is_alnum(c)).len() as int) =~= s.filter(|c: char| is_alnum(c)));
    }
}

/// The addresses of the registered pictures, the one asked for longest ago first.
#[derive(Debug)]
pub struct Held {
    /// The addresses, oldest first.
    pub urls: Vec<String>,
}

/// The addresses, as text.
pub open spec fn texts(urls: Seq<String>) -> Seq<Seq<char>> {
    urls.map_values(|u: String| u@)
}

/// `urls` after `url` was asked for: it moves to the back, and the rest keep their order.
pub open spec fn touched(urls: Seq<Seq<char>>, url: Seq<char>) -> Seq<Seq<char>> {
    all_but(urls, url).push(url)
}

/// `urls` without `url`, in order.
pub open spec fn all_but(urls: Seq<Seq<char>>, url: Seq<char>) -> Seq<Seq<char>> {
    urls.filter(not_url(url))
}

/// Whether an address is other than `url`.
pub open spec fn not_url(url: Seq<char>) -> spec_fn(Seq<char>) -> bool {
    |u: Seq<char>| u != url
}

impl Held {
    /// Nothing registered.
    pub fn new() -> (h: Self)
        ensures
            h.urls@.len() == 0,
    {
        Held { urls: Vec::new() }
    }

    /// Marks `url` as the most recently used.
    pub fn touch(&mut self, url: &str)
        ensures
            texts(final(self).urls@) == touched(texts(old(self).urls@), url@),
    {
        let ghost all = texts(self.urls@);
        let mut kept: Vec<String> = Vec::new();
        let mut i: usize = 0;
        while i < self.urls.len()
            invariant
                all == texts(self.urls@),
                i <= all.len(),
                texts(kept@) == all_but(all.take(i as int), url@),
            decreases all.len() - i,
        {
            proof {
                assert(all.take(i + 1) =~= all.take(i as int).push(all[i as int]));
                all.take(i as int).lemma_filter_push(all[i as int], not_url(url@));
            }
            let ghost before = kept@;
            if !crate::text::same_text(self.urls[i].as_str(), url) {
                kept.push(self.urls[i].clone());
                assert(texts(kept@) =~= texts(before).push(all[i as int]));
            }
            i = i + 1;
        }
        assert(all.take(i as int) =~= all);
        let ghost before = kept@;
        kept.push(url.to_owned());
        assert(texts(kept@) =~= texts(before).push(url@));
        self.urls = kept;
    }

    /// Drops the oldest addresses until no more than [`HELD`] remain, and returns them, oldest
    /// first: their registrations go, and their files stay.
    pub fn evict(&mut self) -> (dropped: Vec<String>)
        ensures
            old(self).urls@.len() <= HELD ==> dropped@.len() == 0 && final(self).urls@ == old(self).urls@,
            old(self).urls@.len() > HELD ==> dropped@ == old(self).urls@.take(old(self).urls@.len() - HELD)
                && final(self).urls@ == old(self).urls@.skip(old(self).urls@.len() - HELD),
            final(self).urls@.len() <= HELD,
    {
        let n = self.urls.len();
        if n <= HELD {
            return Vec::new();
        }
        let cut = n - HELD;
        let mut dropped: Vec<String> = Vec::new();
        let mut rest: Vec<String> = Vec::new();
        let mut i: usize = 0;
        while i < n
            invariant
                n == self.urls@.len(),
                self.urls@ == old(self).urls@,
                cut == n - HELD,
                i <= n,
                dropped@ == self.urls@.take(if i < cut { i as int } else { cut as int }),
                rest@ == (if i < cut { Seq::empty() } else { self.urls@.subrange(cut as int, i as int) }),
            decreases n - i,
        {
            let u = self.urls[i].clone();
            if i < cut {
                dropped.push(u);
                assert(dropped@ =~= self.urls@.take(i + 1));
            } else {
                rest.push(u);
                assert(rest@ =~= self.urls@.subrange(cut as int, i + 1));
            }
            i = i + 1;
        }
        assert(rest@ =~= self.urls@.skip(cut as int));
        self.urls = rest;
        dropped
    }
}

/// A picture asked for again ends up the most recent, held once.
pub proof fn touched_is_last_and_once(urls: Seq<Seq<char>>, url: Seq<char>)
    ensures
        touched(urls, url).last() == url,
        forall|i: int| 0 <= i < touched(urls, url).len() - 1 ==> #[trigger] touched(urls, url)[i] != url,
{
    let kept = all_but(urls, url);
    assert forall|i: int| 0 <= i < touched(urls, url).len() - 1 implies #[trigger] touched(urls, url)[i] != url by {
        assert(touched(urls, url)[i] == kept[i]);
        urls.lemma_filter_pred(not_url(url), i);
    }
}

} // verus!
