//! Text the interface shows.
//!
//! The style engine has no way to cut a line that is too long, so a line is cut here. Each budget
//! below is a number of characters that fits its column at the interface's type size.

use vstd::prelude::*;

use crate::text::{chars_of, decimal, push_char, push_decimal};

verus! {

/// How many characters a track title gets in a list.
pub const TITLE: usize = 48;

/// How many an artist gets beside a title.
pub const ARTIST: usize = 40;

/// How many a name gets in the sidebar.
pub const SIDEBAR: usize = 22;

/// How many a name gets in the player bar.
pub const BAR: usize = 28;

/// How many a row of the queue gets.
pub const QUEUE: usize = 34;

/// How many a name gets under a cover in a grid.
pub const CARD: usize = 16;

/// Whether `c` is white space, as Unicode's `White_Space` property lists it.
pub open spec fn is_white(c: char) -> bool {
    let u = c as u32;
    ||| 0x09 <= u <= 0x0d
    ||| u == 0x20
    ||| u == 0x85
    ||| u == 0xa0
    ||| u == 0x1680
    ||| 0x2000 <= u <= 0x200a
    ||| u == 0x2028
    ||| u == 0x2029
    ||| u == 0x202f
    ||| u == 0x205f
    ||| u == 0x3000
}

/// `s` without the white space at its end.
pub open spec fn trim_end(s: Seq<char>) -> Seq<char>
    decreases s.len(),
{
    if s.len() > 0 && is_white(s.last()) {
        trim_end(s.drop_last())
    } else {
        s
    }
}

/// `text` cut to `budget` characters: whole when it fits, and otherwise its first `budget - 1`
/// characters, with the white space at their end dropped, and an ellipsis.
pub open spec fn cut_to(text: Seq<char>, budget: nat) -> Seq<char> {
    if text.len() <= budget {
        text
    } else {
        let keep: int = if budget >= 1 { budget - 1 } else { 0 };
        trim_end(text.take(keep)).push('\u{2026}')
    }
}

/// Whether `c` is white space.
fn white(c: char) -> (w: bool)
    ensures
        w == is_white(c),
{
    let u = c as u32;
    (0x09 <= u && u <= 0x0d) || u == 0x20 || u == 0x85 || u == 0xa0 || u == 0x1680 || (0x2000 <= u
        && u <= 0x200a) || u == 0x2028 || u == 0x2029 || u == 0x202f || u == 0x205f || u == 0x3000
}

/// `text`, cut to `budget` characters.
///
/// A line that was cut ends in an ellipsis. Characters are counted rather than bytes, because a
/// byte cut breaks a letter.
pub fn truncate(text: &str, budget: usize) -> (line: String)
    ensures
        line@ == cut_to(text@, budget as nat),
{
    let chars = chars_of(text);
    if chars.len() <= budget {
        let mut whole = String::new();
        whole.append(text);
        return whole;
    }
    let keep: usize = if budget >= 1 { budget - 1 } else { 0 };
    let mut end: usize = keep;
    while end > 0 && white(chars[end - 1])
        invariant
            end <= keep < chars@.len(),
            trim_end(chars@.take(keep as int)) == trim_end(chars@.take(end as int)),
        decreases end,
    {
        proof {
            assert(chars@.take(end as int).drop_last() =~= chars@.take(end - 1));
        }
        end = end - 1;
    }
    proof {
        if end > 0 {
            assert(chars@.take(end as int).last() == chars@[end - 1]);
        }
        assert(trim_end(chars@.take(end as int)) == chars@.take(end as int));
    }
    let mut line = String::new();
    let mut i: usize = 0;
    while i < end
        invariant
            i <= end <= chars@.len(),
            line@ == chars@.take(i as int),
        decreases end - i,
    {
        push_char(&mut line, chars[i]);
        i = i + 1;
        proof {
            assert(line@ =~= chars@.take(i as int));
        }
    }
    push_char(&mut line, '\u{2026}');
    line
}

/// `s` without the white space at its start.
pub open spec fn trim_start(s: Seq<char>) -> Seq<char>
    decreases s.len(),
{
    if s.len() > 0 && is_white(s[0]) {
        trim_start(s.drop_first())
    } else {
        s
    }
}

/// `s` without the white space at either end.
pub open spec fn trim(s: Seq<char>) -> Seq<char> {
    trim_start(trim_end(s))
}

/// `text` without the white space at either end.
pub fn trimmed(text: &str) -> (t: String)
    ensures
        t@ == trim(text@),
{
    let chars = chars_of(text);
    let mut end: usize = chars.len();
    assert(chars@.take(end as int) =~= chars@);
    while end > 0 && white(chars[end - 1])
        invariant
            end <= chars@.len(),
            trim_end(chars@) == trim_end(chars@.take(end as int)),
        decreases end,
    {
        proof {
            assert(chars@.take(end as int).drop_last() =~= chars@.take(end - 1));
        }
        end = end - 1;
    }
    proof {
        if end > 0 {
            assert(chars@.take(end as int).last() == chars@[end - 1]);
        }
        assert(trim_end(chars@.take(end as int)) == chars@.take(end as int));
    }
    let mut start: usize = 0;
    assert(chars@.subrange(0, end as int) =~= chars@.take(end as int));
    while start < end && white(chars[start])
        invariant
            start <= end <= chars@.len(),
            trim_start(chars@.take(end as int)) == trim_start(chars@.subrange(start as int, end as int)),
        decreases end - start,
    {
        proof {
            assert(chars@.subrange(start as int, end as int).drop_first() =~= chars@.subrange(start + 1, end as int));
            assert(chars@.subrange(start as int, end as int)[0] == chars@[start as int]);
        }
        start = start + 1;
    }
    proof {
        if start < end {
            assert(chars@.subrange(start as int, end as int)[0] == chars@[start as int]);
        }
        assert(trim_start(chars@.subrange(start as int, end as int)) == chars@.subrange(start as int, end as int));
    }
    let mut t = String::new();
    let mut i: usize = start;
    while i < end
        invariant
            start <= i <= end <= chars@.len(),
            t@ == chars@.subrange(start as int, i as int),
        decreases end - i,
    {
        push_char(&mut t, chars[i]);
        i = i + 1;
        proof {
            assert(t@ =~= chars@.subrange(start as int, i as int));
        }
    }
    t
}

/// `n` written with two digits at least.
pub open spec fn two_digits(n: nat) -> Seq<char> {
    if n < 10 { seq!['0'].add(decimal(n)) } else { decimal(n) }
}

/// A length of `millis` milliseconds, as the clock face a track shows: minutes and seconds, and
/// hours in front once there is a whole one.
pub open spec fn clock(millis: nat) -> Seq<char> {
    let total = millis / 1000;
    let minutes = total / 60;
    let seconds = total % 60;
    if minutes >= 60 {
        decimal(minutes / 60) + seq![':'] + two_digits(minutes % 60) + seq![':'] + two_digits(seconds)
    } else {
        decimal(minutes) + seq![':'] + two_digits(seconds)
    }
}

/// Appends `n`, which is below a hundred, with two digits at least.
fn push_two_digits(s: &mut String, n: u64)
    requires
        n < 100,
    ensures
        final(s)@ == old(s)@ + two_digits(n as nat),
{
    if n < 10 {
        push_char(s, '0');
        push_decimal(s, n);
        proof {
            assert(final(s)@ =~= old(s)@ + two_digits(n as nat)) by {
                assert(seq!['0'].add(decimal(n as nat)) =~= seq!['0'] + decimal(n as nat));
            }
        }
    } else {
        push_decimal(s, n);
    }
}

/// A length, as minutes and seconds.
pub fn duration(millis: u64) -> (text: String)
    ensures
        text@ == clock(millis as nat),
{
    let total = millis / 1000;
    let minutes = total / 60;
    let seconds = total % 60;
    let mut text = String::new();
    if minutes >= 60 {
        push_decimal(&mut text, minutes / 60);
        push_char(&mut text, ':');
        push_two_digits(&mut text, minutes % 60);
        push_char(&mut text, ':');
        push_two_digits(&mut text, seconds);
    } else {
        push_decimal(&mut text, minutes);
        push_char(&mut text, ':');
        push_two_digits(&mut text, seconds);
    }
    assert(text@ =~= clock(millis as nat));
    text
}

/// How long a list of `millis` milliseconds runs, in words: whole minutes, and hours once there is
/// a whole one.
pub open spec fn in_words(millis: nat) -> Seq<char> {
    let minutes = millis / 1000 / 60;
    if minutes >= 60 {
        if minutes % 60 == 0 {
            decimal(minutes / 60) + " hr"@
        } else {
            decimal(minutes / 60) + " hr "@ + decimal(minutes % 60) + " min"@
        }
    } else {
        decimal(minutes) + " min"@
    }
}

/// How long a list of tracks runs, in words.
pub fn total_time(millis: u64) -> (text: String)
    ensures
        text@ == in_words(millis as nat),
{
    let minutes = millis / 1000 / 60;
    let mut text = String::new();
    if minutes >= 60 {
        let hours = minutes / 60;
        let rest = minutes % 60;
        push_decimal(&mut text, hours);
        if rest == 0 {
            text.append(" hr");
        } else {
            text.append(" hr ");
            push_decimal(&mut text, rest);
            text.append(" min");
        }
    } else {
        push_decimal(&mut text, minutes);
        text.append(" min");
    }
    text
}

/// How many tracks a list holds, and, when it has any length, how long it runs.
pub open spec fn summary_of(count: nat, millis: nat) -> Seq<char> {
    let songs = if count == 1 { " song"@ } else { " songs"@ };
    if millis == 0 {
        decimal(count) + songs
    } else {
        decimal(count) + songs + " \u{b7} "@ + in_words(millis)
    }
}

/// How many tracks a list holds, and how long it runs.
pub fn summary(count: u32, millis: u64) -> (text: String)
    ensures
        text@ == summary_of(count as nat, millis as nat),
{
    let mut text = String::new();
    push_decimal(&mut text, count as u64);
    if count == 1 {
        text.append(" song");
    } else {
        text.append(" songs");
    }
    if millis != 0 {
        text.append(" \u{b7} ");
        let words = total_time(millis);
        text.append(words.as_str());
    }
    text
}

/// A list with any length says so after its count: its summary is the summary of the count alone,
/// then " · " and the length in words, whatever the count; a list of no length leaves that part out.
pub proof fn a_summary_carries_the_length(count: nat, millis: nat)
    ensures
        millis > 0 ==> summary_of(count, millis) == summary_of(count, 0) + " \u{b7} "@ + in_words(millis),
        summary_of(count, 0) == decimal(count) + (if count == 1 { " song"@ } else { " songs"@ }),
{
}

} // verus!
