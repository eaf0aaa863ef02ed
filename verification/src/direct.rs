//! What the streaming session serves and the Web API will not.
//!
//! The session answers for the shape of the library (the account's *rootlist*, where folders live)
//! and for the playlists Spotify makes. Both replies are the same message: a set of attributes
//! and a list of item URIs. A folder is a pair of marker URIs around the playlists it holds.
//!
//! Fetching and decoding the message is the application's business; this reads what it holds.

use vstd::prelude::*;

use crate::models::{ImageRef, PlaylistId, TrackId};
use crate::text::{
    begins_with, chars_between, chars_of, find_char, first_index_of, lossy_text, push_char,
    same_text, starts_with, string_from, text_from_bytes,
};

verus! {

/// One entry of the library, in the order the account keeps it.
#[derive(Debug, PartialEq, Eq)]
pub enum Entry {
    /// A playlist at this level.
    Playlist(PlaylistId),
    /// A folder, and what is inside it.
    Folder {
        /// What the account calls it. Folders have no other identifier.
        id: String,
        /// What it is named.
        name: String,
        /// What it holds, in order. A folder inside a folder is flattened into its parent.
        playlists: Vec<PlaylistId>,
    },
}

/// An entry of the library, as text.
pub enum EntryView {
    /// A playlist, by identifier.
    Playlist(Seq<char>),
    /// A folder: its identifier, its name, and the identifiers it holds.
    Folder(Seq<char>, Seq<char>, Seq<Seq<char>>),
}

/// The identifiers of these playlists, as text.
pub open spec fn id_texts(ids: Seq<PlaylistId>) -> Seq<Seq<char>> {
    ids.map_values(|id: PlaylistId| id.0@)
}

impl View for Entry {
    type V = EntryView;

    open spec fn view(&self) -> EntryView {
        match self {
            Entry::Playlist(id) => EntryView::Playlist(id.0@),
            Entry::Folder { id, name, playlists } => EntryView::Folder(id@, name@, id_texts(playlists@)),
        }
    }
}

impl Clone for Entry {
    fn clone(&self) -> (r: Self)
        ensures
            r@ == self@,
    {
        match self {
            Entry::Playlist(id) => Entry::Playlist(id.clone()),
            Entry::Folder { id, name, playlists } => {
                let inside = playlists.clone();
                assert(inside@ =~= playlists@);
                Entry::Folder { id: id.clone(), name: name.clone(), playlists: inside }
            },
        }
    }
}

/// One playlist, as the session describes it.
#[derive(Debug, PartialEq, Eq)]
pub struct Listing {
    /// What it is called.
    pub name: String,
    /// What it says about itself.
    pub description: String,
    /// Its cover, at every size offered.
    pub images: Vec<ImageRef>,
    /// What it holds, in play order.
    pub tracks: Vec<TrackId>,
}

/// One named size of a playlist's cover.
#[derive(Debug, PartialEq, Eq)]
pub struct PictureSize {
    /// The size's name, such as `small` or `large`; empty when the reply names none.
    pub target_name: String,
    /// Where the picture at this size is, when the reply says.
    pub url: Option<String>,
}

/// One format attribute of a playlist: a key and its value, empty when the reply leaves one out.
#[derive(Debug, PartialEq, Eq)]
pub struct FormatAttribute {
    /// The attribute's key.
    pub key: String,
    /// Its value.
    pub value: String,
}

/// What the session says about a playlist, beside its items.
#[derive(Debug, PartialEq, Eq)]
pub struct ListAttributes {
    /// What it is called.
    pub name: Option<String>,
    /// What it says about itself.
    pub description: Option<String>,
    /// The identifier of its picture.
    pub picture: Option<Vec<u8>>,
    /// Its cover at named sizes.
    pub picture_size: Vec<PictureSize>,
    /// Its format attributes.
    pub format_attributes: Vec<FormatAttribute>,
}

/// The prefix of a URI that opens a folder.
pub open spec fn start_group() -> Seq<char> {
    "spotify:start-group:"@
}

/// The prefix of a URI that closes a folder.
pub open spec fn end_group() -> Seq<char> {
    "spotify:end-group:"@
}

/// The prefix of a playlist's URI.
pub open spec fn playlist_prefix() -> Seq<char> {
    "spotify:playlist:"@
}

/// The prefix of a track's URI.
pub open spec fn track_prefix() -> Seq<char> {
    "spotify:track:"@
}

/// A folder being read: its identifier, its name, and what it holds so far.
pub type OpenFolder = (Seq<char>, Seq<char>, Seq<Seq<char>>);

/// The entries read so far, and the folder still open.
pub type ArrangeState = (Seq<EntryView>, Option<OpenFolder>);

/// `state` with its open folder, if any, closed into the entries.
pub open spec fn close_open(state: ArrangeState) -> Seq<EntryView> {
    match state.1 {
        Some(f) => state.0.push(EntryView::Folder(f.0, f.1, f.2)),
        None => state.0,
    }
}

/// What the part of a start-group URI after its prefix names: the folder's identifier, up to the
/// first colon, and its encoded name, after it.
pub open spec fn folder_parts(rest: Seq<char>) -> (Seq<char>, Seq<char>) {
    match first_index_of(rest, ':') {
        Some(i) => (rest.take(i), rest.skip(i + 1)),
        None => (rest, Seq::empty()),
    }
}

/// What reading one URI does to the state.
///
/// A start-group URI closes the folder that is open, for one level is all the sidebar shows, and
/// opens a new one. An end-group URI closes the open folder. A playlist goes into the open folder,
/// or stands at the top level when none is open. Anything else is passed over.
pub open spec fn arrange_step(state: ArrangeState, uri: Seq<char>) -> ArrangeState {
    if begins_with(uri, start_group()) {
        let parts = folder_parts(uri.skip(start_group().len() as int));
        (close_open(state), Some((parts.0, decoded(parts.1), Seq::empty())))
    } else if begins_with(uri, end_group()) {
        (close_open(state), None)
    } else if begins_with(uri, playlist_prefix()) {
        let id = uri.skip(playlist_prefix().len() as int);
        match state.1 {
            Some(f) => (state.0, Some((f.0, f.1, f.2.push(id)))),
            None => (state.0.push(EntryView::Playlist(id)), None),
        }
    } else {
        state
    }
}

/// The state after reading `uris` from `state`.
pub open spec fn arrange_from(state: ArrangeState, uris: Seq<Seq<char>>) -> ArrangeState
    decreases uris.len(),
{
    if uris.len() == 0 {
        state
    } else {
        arrange_from(arrange_step(state, uris[0]), uris.drop_first())
    }
}

/// The entries these URIs describe, in order. A folder left open by a reply cut short still holds
/// what was read.
pub open spec fn arranged(uris: Seq<Seq<char>>) -> Seq<EntryView> {
    close_open(arrange_from((Seq::empty(), None), uris))
}

/// The texts of these URIs.
pub open spec fn uri_texts(uris: Seq<&str>) -> Seq<Seq<char>> {
    uris.map_values(|u: &str| u@)
}

proof fn lemma_arrange_from_push(state: ArrangeState, uris: Seq<Seq<char>>, last: Seq<char>)
    ensures
        arrange_from(state, uris.push(last)) == arrange_step(arrange_from(state, uris), last),
    decreases uris.len(),
{
    if uris.len() == 0 {
        assert(uris.push(last)[0] == last);
        assert(uris.push(last).drop_first() =~= Seq::<Seq<char>>::empty());
        assert(arrange_from(state, uris) == state);
        assert(arrange_from(arrange_step(state, last), Seq::<Seq<char>>::empty()) == arrange_step(state, last));
    } else {
        assert(uris.push(last)[0] == uris[0]);
        assert(uris.push(last).drop_first() =~= uris.drop_first().push(last));
        lemma_arrange_from_push(arrange_step(state, uris[0]), uris.drop_first(), last);
    }
}

/// A folder under construction.
struct Building {
    id: String,
    name: String,
    playlists: Vec<PlaylistId>,
}

impl Building {
    spec fn view(&self) -> OpenFolder {
        (self.id@, self.name@, id_texts(self.playlists@))
    }
}

/// The folder under construction, if any, as text.
spec fn open_view(open: Option<Building>) -> Option<OpenFolder> {
    match open {
        Some(b) => Some(b.view()),
        None => None,
    }
}

/// Closes the open folder, if any, into `entries`.
fn close(entries: &mut Vec<Entry>, open: Option<Building>)
    ensures
        final(entries)@.map_values(|e: Entry| e@) == close_open(
            (old(entries)@.map_values(|e: Entry| e@), open_view(open)),
        ),
{
    let ghost before = entries@;
    if let Some(folder) = open {
        entries.push(Entry::Folder { id: folder.id, name: folder.name, playlists: folder.playlists });
        proof {
            assert(entries@.map_values(|e: Entry| e@) =~= before.map_values(|e: Entry| e@).push(entries@.last()@));
        }
    }
}

/// The entries these URIs describe, in order.
pub fn arrange(uris: &[&str]) -> (entries: Vec<Entry>)
    ensures
        entries@.map_values(|e: Entry| e@) == arranged(uri_texts(uris@)),
{
    let start = chars_of("spotify:start-group:");
    let end = chars_of("spotify:end-group:");
    let playlist = chars_of("spotify:playlist:");
    let mut entries: Vec<Entry> = Vec::new();
    let mut open: Option<Building> = None;
    let mut k: usize = 0;
    while k < uris.len()
        invariant
            start@ == start_group(),
            end@ == end_group(),
            playlist@ == playlist_prefix(),
            k <= uris@.len(),
            (entries@.map_values(|e: Entry| e@), open_view(open))
                == arrange_from((Seq::empty(), None), uri_texts(uris@).take(k as int)),
        decreases uris@.len() - k,
    {
                let uri = chars_of(uris[k]);
        proof {
            assert(uri_texts(uris@).take(k + 1) =~= uri_texts(uris@).take(k as int).push(uri@));
            lemma_arrange_from_push((Seq::empty(), None), uri_texts(uris@).take(k as int), uri@);
        }
        if starts_with(&uri, &start) {
            let taken = open.take();
            close(&mut entries, taken);
            let rest = chars_between(&uri, start.len(), uri.len());
            proof {
                assert(rest@ =~= uri@.skip(start_group().len() as int));
            }
            let (id, encoded) = match find_char(&rest, ':') {
                Some(i) => (chars_between(&rest, 0, i), chars_between(&rest, i + 1, rest.len())),
                None => (chars_between(&rest, 0, rest.len()), Vec::new()),
            };
            proof {
                assert(id@ =~= folder_parts(rest@).0);
                assert(encoded@ =~= folder_parts(rest@).1);
            }
            let encoded_text = string_from(&encoded);
            let name = decode(encoded_text.as_str());
            open = Some(Building { id: string_from(&id), name, playlists: Vec::new() });
            proof {
                assert(id_texts(Seq::<PlaylistId>::empty()) =~= Seq::<Seq<char>>::empty());
            }
        } else if starts_with(&uri, &end) {
            let taken = open.take();
            close(&mut entries, taken);
        } else if starts_with(&uri, &playlist) {
            let rest = chars_between(&uri, playlist.len(), uri.len());
            proof {
                assert(rest@ =~= uri@.skip(playlist_prefix().len() as int));
            }
            let id = PlaylistId(string_from(&rest));
            match open {
                Some(ref mut folder) => {
                    let ghost inside = folder.playlists@;
                    folder.playlists.push(id);
                    proof {
                        assert(id_texts(folder.playlists@) =~= id_texts(inside).push(rest@));
                    }
                },
                None => {
                    let ghost before = entries@;
                    entries.push(Entry::Playlist(id));
                    proof {
                        assert(entries@.map_values(|e: Entry| e@) =~= before.map_values(|e: Entry| e@).push(EntryView::Playlist(rest@)));
                    }
                },
            }
        }
        k = k + 1;
    }
    proof {
        assert(uri_texts(uris@).take(k as int) =~= uri_texts(uris@));
    }
    close(&mut entries, open);
    entries
}

/// Whether `b` is an ASCII hexadecimal digit.
pub open spec fn is_hex_digit(b: u8) -> bool {
    (48 <= b <= 57) || (65 <= b <= 70) || (97 <= b <= 102)
}

/// The value of the ASCII hexadecimal digit `b`.
pub open spec fn hex_value(b: u8) -> u8 {
    if 48 <= b <= 57 {
        (b - 48) as u8
    } else if 65 <= b <= 70 {
        (b - 55) as u8
    } else {
        (b - 87) as u8
    }
}

/// The byte that the two characters after a `%` stand for, read as a number in base sixteen: two
/// digits, or a plus sign and one digit.
pub open spec fn escaped_byte(high: u8, low: u8) -> Option<u8> {
    if is_hex_digit(high) && is_hex_digit(low) {
        Some((hex_value(high) * 16 + hex_value(low)) as u8)
    } else if high == 43 && is_hex_digit(low) {
        Some(hex_value(low))
    } else {
        None
    }
}

/// `bytes` with their escapes read back: a `%` and the two characters after it become the byte
/// they stand for, and a `+` becomes a space. Anything else stays.
pub open spec fn unescaped(bytes: Seq<u8>) -> Seq<u8>
    decreases bytes.len(),
{
    if bytes.len() == 0 {
        Seq::empty()
    } else if bytes[0] == 37 && 2 < bytes.len() && escaped_byte(bytes[1], bytes[2]) is Some {
        seq![escaped_byte(bytes[1], bytes[2])->0] + unescaped(bytes.skip(3))
    } else if bytes[0] == 43 {
        seq![32u8] + unescaped(bytes.skip(1))
    } else {
        seq![bytes[0]] + unescaped(bytes.skip(1))
    }
}

/// A folder name, with its escapes read back and the bytes read as text: the text they encode
/// when they are UTF-8, and what the lossy reading makes of them otherwise.
pub open spec fn decoded(name: Seq<char>) -> Seq<char> {
    let bytes = unescaped(vstd::utf8::encode_utf8(name));
    if vstd::utf8::valid_utf8(bytes) {
        vstd::utf8::decode_utf8(bytes)
    } else {
        lossy_text(bytes)
    }
}

/// Whether `name` holds neither a `%` nor a `+`, the two characters an encoded name escapes with.
pub open spec fn plain(name: Seq<char>) -> bool {
    !name.contains('%') && !name.contains('+')
}

/// A character's UTF-8 bytes: the character itself when it is ASCII, and bytes of 0x80 or more
/// otherwise.
proof fn lemma_scalar_bytes(c: char)
    ensures
        (c as u32) < 0x80 ==> vstd::utf8::encode_scalar(c as u32) == seq![(c as u32) as u8],
        (c as u32) >= 0x80 ==> forall|i: int| 0 <= i < vstd::utf8::encode_scalar(c as u32).len()
            ==> #[trigger] vstd::utf8::encode_scalar(c as u32)[i] >= 0x80,
{
    let v = c as u32;
    if v < 0x80 {
        assert((v & 0x7F) as u8 == v as u8) by (bit_vector)
            requires
                v < 0x80,
        ;
    } else {
        let a = ((v >> 6) & 0x1F) as u8;
        let b = ((v >> 12) & 0x0F) as u8;
        let d = ((v >> 18) & 0x7) as u8;
        let e = (v & 0x3F) as u8;
        let f = ((v >> 6) & 0x3F) as u8;
        let g = ((v >> 12) & 0x3F) as u8;
        assert((0xC0u8 | a) >= 0x80u8) by (bit_vector);
        assert((0xE0u8 | b) >= 0x80u8) by (bit_vector);
        assert((0xF0u8 | d) >= 0x80u8) by (bit_vector);
        assert((0x80u8 | e) >= 0x80u8) by (bit_vector);
        assert((0x80u8 | f) >= 0x80u8) by (bit_vector);
        assert((0x80u8 | g) >= 0x80u8) by (bit_vector);
    }
}

/// The UTF-8 bytes of a plain name hold no `%` and no `+`.
proof fn lemma_plain_bytes(name: Seq<char>)
    requires
        plain(name),
    ensures
        forall|i: int| 0 <= i < vstd::utf8::encode_utf8(name).len()
            ==> #[trigger] vstd::utf8::encode_utf8(name)[i] != 37 && vstd::utf8::encode_utf8(name)[i] != 43,
    decreases name.len(),
{
    if name.len() > 0 {
        let c = name[0];
        let rest = name.drop_first();
        assert(plain(rest)) by {
            if rest.contains('%') {
                let k = choose|k: int| 0 <= k < rest.len() && rest[k] == '%';
                assert(name[k + 1] == '%');
            }
            if rest.contains('+') {
                let k = choose|k: int| 0 <= k < rest.len() && rest[k] == '+';
                assert(name[k + 1] == '+');
            }
        }
        lemma_plain_bytes(rest);
        lemma_scalar_bytes(c);
        assert(c != '%' && c != '+') by {
            assert(name[0] == c);
        }
        let head = vstd::utf8::encode_scalar(c as u32);
        let all = vstd::utf8::encode_utf8(name);
        assert(all == head + vstd::utf8::encode_utf8(rest));
        assert forall|i: int| 0 <= i < all.len() implies #[trigger] all[i] != 37 && all[i] != 43 by {
            if i < head.len() {
                if (c as u32) < 0x80 {
                    assert(head[i] == (c as u32) as u8);
                    assert((c as u32) != 37 && (c as u32) != 43) by {
                        vstd::utf8::char_is_scalar(c);
                        if (c as u32) == 37 {
                            vstd::utf8::char_u32_cast(c, 37);
                            vstd::utf8::char_u32_cast('%', 37);
                        }
                        if (c as u32) == 43 {
                            vstd::utf8::char_u32_cast(c, 43);
                            vstd::utf8::char_u32_cast('+', 43);
                        }
                    }
                } else {
                    assert(head[i] >= 0x80);
                }
            } else {
                assert(all[i] == vstd::utf8::encode_utf8(rest)[i - head.len()]);
            }
        }
    }
}

/// Bytes with no `%` and no `+` need no unescaping.
proof fn lemma_unescaped_plain(bytes: Seq<u8>)
    requires
        forall|i: int| 0 <= i < bytes.len() ==> #[trigger] bytes[i] != 37 && bytes[i] != 43,
    ensures
        unescaped(bytes) == bytes,
    decreases bytes.len(),
{
    if bytes.len() > 0 {
        let rest = bytes.skip(1);
        assert forall|i: int| 0 <= i < rest.len() implies #[trigger] rest[i] != 37 && rest[i] != 43 by {
            assert(rest[i] == bytes[i + 1]);
        }
        lemma_unescaped_plain(rest);
        assert(seq![bytes[0]] + rest =~= bytes);
    }
}

/// A name with nothing escaped in it reads back as itself.
pub proof fn a_plain_name_reads_back(name: Seq<char>)
    requires
        plain(name),
    ensures
        decoded(name) == name,
{
    lemma_plain_bytes(name);
    lemma_unescaped_plain(vstd::utf8::encode_utf8(name));
    vstd::utf8::encode_utf8_valid_utf8(name);
    vstd::utf8::encode_utf8_decode_utf8(name);
}

/// The value of `b` as a hexadecimal digit, when it is one.
fn hex_digit(b: u8) -> (v: Option<u8>)
    ensures
        v == (if is_hex_digit(b) { Some(hex_value(b)) } else { None }),
{
    if 48 <= b && b <= 57 {
        Some(b - 48)
    } else if 65 <= b && b <= 70 {
        Some(b - 55)
    } else if 97 <= b && b <= 102 {
        Some(b - 87)
    } else {
        None
    }
}

/// The byte `high` and `low` stand for after a `%`.
fn escape_value(high: u8, low: u8) -> (v: Option<u8>)
    ensures
        v == escaped_byte(high, low),
{
    match (hex_digit(high), hex_digit(low)) {
        (Some(h), Some(l)) => Some(h * 16 + l),
        (None, Some(l)) => if high == 43 {
            Some(l)
        } else {
            None
        },
        _ => None,
    }
}

proof fn lemma_unescaped_step(bytes: Seq<u8>, at: int)
    requires
        0 <= at < bytes.len(),
    ensures
        unescaped(bytes.skip(at)) == (if bytes[at] == 37 && at + 2 < bytes.len() && escaped_byte(bytes[at + 1], bytes[at + 2]) is Some {
            seq![escaped_byte(bytes[at + 1], bytes[at + 2])->0] + unescaped(bytes.skip(at + 3))
        } else if bytes[at] == 43 {
            seq![32u8] + unescaped(bytes.skip(at + 1))
        } else {
            seq![bytes[at]] + unescaped(bytes.skip(at + 1))
        }),
{
    let s = bytes.skip(at);
    assert(s[0] == bytes[at]);
    if s.len() > 2 {
        assert(s[1] == bytes[at + 1]);
        assert(s[2] == bytes[at + 2]);
        assert(s.skip(3) =~= bytes.skip(at + 3));
    }
    assert(s.skip(1) =~= bytes.skip(at + 1));
}

/// A folder name, with its escapes read back.
///
/// A name travels percent-encoded, because the URI it sits in is separated by colons. Bytes that
/// do not make UTF-8 once read back are replaced rather than refused.
pub fn decode(name: &str) -> (text: String)
    ensures
        text@ == decoded(name@),
{
    let bytes = name.as_bytes();
    let mut out: Vec<u8> = Vec::new();
    let mut at: usize = 0;
    proof {
        assert(bytes@.skip(0) =~= bytes@);
        assert(out@ + unescaped(bytes@) =~= unescaped(bytes@));
    }
    while at < bytes.len()
        invariant
            bytes@ == vstd::utf8::encode_utf8(name@),
            at <= bytes@.len(),
            out@ + unescaped(bytes@.skip(at as int)) == unescaped(bytes@),
        decreases bytes@.len() - at,
    {
        proof {
            lemma_unescaped_step(bytes@, at as int);
        }
        if bytes[at] == 37 && bytes.len() - at > 2 {
            if let Some(byte) = escape_value(bytes[at + 1], bytes[at + 2]) {
                let ghost before = out@;
                out.push(byte);
                proof {
                    assert(before + unescaped(bytes@.skip(at as int)) =~= out@ + unescaped(bytes@.skip(at + 3)));
                }
                at = at + 3;
                continue;
            }
        }
        let ghost before = out@;
        if bytes[at] == 43 {
            out.push(32);
        } else {
            out.push(bytes[at]);
        }
        proof {
            assert(before + unescaped(bytes@.skip(at as int)) =~= out@ + unescaped(bytes@.skip(at + 1)));
        }
        at = at + 1;
    }
    proof {
        assert(bytes@.skip(at as int) =~= Seq::<u8>::empty());
        assert(out@ =~= unescaped(bytes@));
    }
    text_from_bytes(out.as_slice())
}

/// The lowercase hexadecimal digit for `d`, which is below sixteen.
pub open spec fn hex_char(d: u8) -> char {
    if d < 10 { (48 + d) as char } else { (87 + d) as char }
}

/// `bytes` written out as lowercase hexadecimal, two digits each.
pub open spec fn hex_text(bytes: Seq<u8>) -> Seq<char>
    decreases bytes.len(),
{
    if bytes.len() == 0 {
        Seq::empty()
    } else {
        hex_text(bytes.drop_last()) + seq![hex_char(bytes.last() / 16), hex_char(bytes.last() % 16)]
    }
}

/// The digit for `d`.
fn hex_digit_char(d: u8) -> (c: char)
    requires
        d < 16,
    ensures
        c == hex_char(d),
{
    if d < 10 { (48 + d) as char } else { (87 + d) as char }
}

/// `bytes` written out as lowercase hexadecimal.
pub fn hex(bytes: &[u8]) -> (text: String)
    ensures
        text@ == hex_text(bytes@),
{
    let mut out = String::new();
    let mut i: usize = 0;
    while i < bytes.len()
        invariant
            i <= bytes@.len(),
            out@ == hex_text(bytes@.take(i as int)),
        decreases bytes@.len() - i,
    {
        let b = bytes[i];
        push_char(&mut out, hex_digit_char(b / 16));
        push_char(&mut out, hex_digit_char(b % 16));
        proof {
            assert(bytes@.take(i + 1).drop_last() =~= bytes@.take(i as int));
            assert(out@ =~= hex_text(bytes@.take(i + 1)));
        }
        i = i + 1;
    }
    proof {
        assert(bytes@.take(i as int) =~= bytes@);
    }
    out
}

/// How wide a named cover size is.
pub open spec fn named_width(name: Seq<char>) -> Option<u32> {
    if name == "small"@ {
        Some(60)
    } else if name == "default"@ {
        Some(300)
    } else if name == "large"@ || name == "xlarge"@ {
        Some(640)
    } else {
        None
    }
}

/// How wide a named cover size is.
pub fn width_of(name: &str) -> (width: Option<u32>)
    ensures
        width == named_width(name@),
{
    if same_text(name, "small") {
        Some(60)
    } else if same_text(name, "default") {
        Some(300)
    } else if same_text(name, "large") || same_text(name, "xlarge") {
        Some(640)
    } else {
        None
    }
}

/// The address covers are served from.
pub open spec fn image_host() -> Seq<char> {
    "https://i.scdn.co/image/"@
}

/// The pictures the named sizes offer, in order: each size that states an address, as wide and
/// as tall as its name says.
pub open spec fn sized_pictures(sizes: Seq<PictureSize>) -> Seq<ImageRef>
    decreases sizes.len(),
{
    if sizes.len() == 0 {
        Seq::empty()
    } else {
        let last = sizes.last();
        let before = sized_pictures(sizes.drop_last());
        match last.url {
            Some(url) => before.push(ImageRef { url, width: named_width(last.target_name@), height: named_width(last.target_name@) }),
            None => before,
        }
    }
}

/// The first format attribute keyed `image_url`.
pub open spec fn first_image_url(attributes: Seq<FormatAttribute>) -> Option<FormatAttribute>
    decreases attributes.len(),
{
    if attributes.len() == 0 {
        None
    } else if attributes[0].key@ == "image_url"@ {
        Some(attributes[0])
    } else {
        first_image_url(attributes.drop_first())
    }
}

/// The first format attribute keyed `image_url`.
fn image_url(attributes: &Vec<FormatAttribute>) -> (found: Option<&FormatAttribute>)
    ensures
        found matches Some(a) ==> first_image_url(attributes@) == Some(*a),
        found is None ==> first_image_url(attributes@) is None,
{
    let mut j: usize = 0;
    proof {
        assert(attributes@.skip(0) =~= attributes@);
    }
    while j < attributes.len()
        invariant
            j <= attributes@.len(),
            first_image_url(attributes@) == first_image_url(attributes@.skip(j as int)),
        decreases attributes@.len() - j,
    {
        let attribute = &attributes[j];
        proof {
            assert(attributes@.skip(j as int)[0] == attribute);
            assert(attributes@.skip(j as int).drop_first() =~= attributes@.skip(j + 1));
        }
        if same_text(attribute.key.as_str(), "image_url") {
            return Some(attribute);
        }
        j = j + 1;
    }
    proof {
        assert(attributes@.skip(j as int) =~= Seq::<FormatAttribute>::empty());
    }
    None
}

/// Whether `images` is the cover of a playlist with these attributes: the named sizes that state
/// an address, then the picture an editorial playlist states among its format attributes, and,
/// only when neither gave a picture, the address an algorithmic playlist's picture identifier
/// names.
pub open spec fn is_cover_of(images: Seq<ImageRef>, attributes: ListAttributes) -> bool {
    let sized = sized_pictures(attributes.picture_size@);
    let with_editorial = match first_image_url(attributes.format_attributes@) {
        Some(a) => sized.push(ImageRef { url: a.value, width: None, height: None }),
        None => sized,
    };
    if with_editorial.len() == 0 && attributes.picture is Some {
        &&& images.len() == 1
        &&& images[0].url@ == image_host() + hex_text(attributes.picture->0@)
        &&& images[0].width is None
        &&& images[0].height is None
    } else {
        images == with_editorial
    }
}

/// The cover of a playlist, at every size the reply offers.
///
/// Spotify's own playlists carry their cover three ways, and which one arrives varies by playlist.
/// Named sizes come first, because only those state a width.
pub fn cover(attributes: &ListAttributes) -> (images: Vec<ImageRef>)
    ensures
        is_cover_of(images@, *attributes),
{
    let mut images: Vec<ImageRef> = Vec::new();
    let mut i: usize = 0;
    while i < attributes.picture_size.len()
        invariant
            i <= attributes.picture_size@.len(),
            images@ == sized_pictures(attributes.picture_size@.take(i as int)),
        decreases attributes.picture_size@.len() - i,
    {
        let size = &attributes.picture_size[i];
        proof {
            assert(attributes.picture_size@.take(i + 1).drop_last() =~= attributes.picture_size@.take(i as int));
        }
        match &size.url {
            Some(url) => {
                let width = width_of(size.target_name.as_str());
                images.push(ImageRef { url: url.clone(), width, height: width });
            },
            None => {},
        }
        i = i + 1;
    }
    proof {
        assert(attributes.picture_size@.take(i as int) =~= attributes.picture_size@);
    }

    // An editorial playlist states its cover as a plain address among its format attributes.
    match image_url(&attributes.format_attributes) {
        Some(attribute) => {
            images.push(ImageRef { url: attribute.value.clone(), width: None, height: None });
        },
        None => {},
    }

    // An algorithmic playlist carries an image identifier instead. The identifier is the last
    // segment of the address the covers are served from.
    if images.len() == 0 {
        if let Some(picture) = &attributes.picture {
            let mut url = String::new();
            url.append("https://i.scdn.co/image/");
            let digits = hex(picture.as_slice());
            url.append(digits.as_str());
            images.push(ImageRef { url, width: None, height: None });
        }
    }
    images
}

/// The tracks among these URIs, in order: each `spotify:track:` URI, as the identifier after the
/// prefix.
pub open spec fn track_ids_of(uris: Seq<Seq<char>>) -> Seq<Seq<char>>
    decreases uris.len(),
{
    if uris.len() == 0 {
        Seq::empty()
    } else {
        let last = uris.last();
        let before = track_ids_of(uris.drop_last());
        if begins_with(last, track_prefix()) {
            before.push(last.skip(track_prefix().len() as int))
        } else {
            before
        }
    }
}

/// The identifiers of these tracks, as text.
pub open spec fn track_id_texts(ids: Seq<TrackId>) -> Seq<Seq<char>> {
    ids.map_values(|id: TrackId| id.0@)
}

/// One playlist, from what the session says of it: its attributes, when the reply carries them,
/// and the URIs of its items.
pub fn listing(attributes: Option<&ListAttributes>, uris: &[&str]) -> (l: Listing)
    ensures
        l.name@ == (match attributes { Some(a) => match a.name { Some(n) => n@, None => Seq::empty() }, None => Seq::empty() }),
        l.description@ == (match attributes { Some(a) => match a.description { Some(d) => d@, None => Seq::empty() }, None => Seq::empty() }),
        attributes is None ==> l.images@.len() == 0,
        attributes matches Some(a) ==> is_cover_of(l.images@, *a),
        track_id_texts(l.tracks@) == track_ids_of(uri_texts(uris@)),
{
    let prefix = chars_of("spotify:track:");
    let mut tracks: Vec<TrackId> = Vec::new();
    let mut k: usize = 0;
    while k < uris.len()
        invariant
            prefix@ == track_prefix(),
            k <= uris@.len(),
            track_id_texts(tracks@) == track_ids_of(uri_texts(uris@).take(k as int)),
        decreases uris@.len() - k,
    {
        let uri = chars_of(uris[k]);
        proof {
            assert(uri_texts(uris@).take(k + 1).drop_last() =~= uri_texts(uris@).take(k as int));
        }
        if starts_with(&uri, &prefix) {
            let rest = chars_between(&uri, prefix.len(), uri.len());
            let ghost before = tracks@;
            tracks.push(TrackId(string_from(&rest)));
            proof {
                assert(rest@ =~= uri@.skip(track_prefix().len() as int));
                assert(track_id_texts(tracks@) =~= track_id_texts(before).push(rest@));
            }
        }
        k = k + 1;
    }
    proof {
        assert(uri_texts(uris@).take(k as int) =~= uri_texts(uris@));
    }
    match attributes {
        Some(a) => {
            let name = match &a.name {
                Some(n) => n.clone(),
                None => String::new(),
            };
            let description = match &a.description {
                Some(d) => d.clone(),
                None => String::new(),
            };
            Listing { name, description, images: cover(a), tracks }
        },
        None => Listing { name: String::new(), description: String::new(), images: Vec::new(), tracks },
    }
}

} // verus!
