//! Finding the elapsed time in a line of diagnostic output.
//!
//! A line carries a time stamp when it holds the marker `time=`; the stamp
//! is the word that follows the first such marker. The stamp is given out as
//! text, split into its fields: hours, minutes and seconds, or one plain
//! number of seconds. Turning the fields into numbers is left to the caller.

use vstd::prelude::*;
use crate::text::{
    chars_of, contains, find_text, is_space, is_whitespace, lemma_trim_start_skips, occurs_at,
    text_of_range, texts, trim, trim_start, trimmed,
};

verus! {

/// The marker that precedes a time stamp.
pub open spec fn time_marker() -> Seq<char> {
    "time="@
}

/// `pat` stands in `s` at `at`, and nowhere before.
pub open spec fn first_occurrence(s: Seq<char>, pat: Seq<char>, at: int) -> bool {
    &&& occurs_at(s, pat, at)
    &&& forall|i: int| 0 <= i < at ==> !occurs_at(s, pat, i)
}

/// The length of the stretch of `s` from `from` on that holds no white
/// space, added to `from`.
pub open spec fn word_end(s: Seq<char>, from: int) -> int
    decreases s.len() - from,
{
    if 0 <= from < s.len() && !is_space(s[from]) {
        word_end(s, from + 1)
    } else {
        from
    }
}

/// The first word of `s`: the first stretch of characters that are not white
/// space, if there is one.
pub open spec fn first_word(s: Seq<char>) -> Option<Seq<char>> {
    let rest = trim_start(s);
    if rest.len() == 0 {
        None
    } else {
        Some(rest.take(word_end(rest, 0)))
    }
}

/// The time stamp of a line: the first word after the first marker.
pub open spec fn time_token(line: Seq<char>) -> Option<Seq<char>> {
    if !contains(line, time_marker()) {
        None
    } else {
        let at = choose|at: int| first_occurrence(line, time_marker(), at);
        first_word(line.skip(at + time_marker().len()))
    }
}

/// The pieces of `s` between the separators `sep`. A text without
/// separators is one piece, and so is the empty text.
pub open spec fn split_on(s: Seq<char>, sep: char) -> Seq<Seq<char>>
    decreases s.len(),
{
    if s.len() == 0 {
        seq![Seq::<char>::empty()]
    } else {
        let before = split_on(s.drop_last(), sep);
        if s.last() == sep {
            before.push(Seq::<char>::empty())
        } else {
            before.drop_last().push(before.last().push(s.last()))
        }
    }
}

/// A time stamp, split into its fields and not yet read as numbers.
#[derive(Debug, Clone, PartialEq, Eq)]
pub enum Timestamp {
    /// Hours, minutes and seconds, as in `00:01:30.5`.
    Clock { hours: String, minutes: String, seconds: String },
    /// One number of seconds; also any text that is not of the form above.
    Plain(String),
}

/// A `Timestamp` with its fields as sequences of characters.
pub enum TimestampView {
    Clock { hours: Seq<char>, minutes: Seq<char>, seconds: Seq<char> },
    Plain(Seq<char>),
}

impl View for Timestamp {
    type V = TimestampView;

    open spec fn view(&self) -> TimestampView {
        match self {
            Timestamp::Clock { hours, minutes, seconds } => TimestampView::Clock {
                hours: hours@,
                minutes: minutes@,
                seconds: seconds@,
            },
            Timestamp::Plain(text) => TimestampView::Plain(text@),
        }
    }
}

/// The fields of a time stamp: the trimmed text split at its colons when
/// that gives three pieces, the trimmed text as a whole otherwise.
pub open spec fn timestamp_of(text: Seq<char>) -> TimestampView {
    let pieces = split_on(trimmed(text), ':');
    if pieces.len() == 3 {
        TimestampView::Clock { hours: pieces[0], minutes: pieces[1], seconds: pieces[2] }
    } else {
        TimestampView::Plain(trimmed(text))
    }
}

/// The time stamp of a line, split into its fields.
pub open spec fn progress_of(line: Seq<char>) -> Option<TimestampView> {
    match time_token(line) {
        Some(token) => Some(timestamp_of(token)),
        None => None,
    }
}

/// Two first occurrences of a pattern are the same.
pub proof fn lemma_first_occurrence_unique(s: Seq<char>, pat: Seq<char>, a: int, b: int)
    requires
        first_occurrence(s, pat, a),
        first_occurrence(s, pat, b),
    ensures
        a == b,
{
    if a < b {
        assert(!occurs_at(s, pat, a));
    } else if b < a {
        assert(!occurs_at(s, pat, b));
    }
}

/// A line without the marker has no time stamp.
pub proof fn lemma_no_marker_no_progress(line: Seq<char>)
    requires
        !contains(line, time_marker()),
    ensures
        progress_of(line) is None,
{
}

/// The first word of the characters `chars[from..]`, if there is one.
fn first_word_from(chars: &Vec<char>, from: usize) -> (r: Option<String>)
    requires
        from <= chars.len(),
    ensures
        match r {
            Some(word) => first_word(chars@.skip(from as int)) == Some(word@),
            None => first_word(chars@.skip(from as int)) is None,
        },
{
    let ghost tail = chars@.skip(from as int);
    let mut start: usize = from;
    while start < chars.len() && is_whitespace(chars[start])
        invariant
            from <= start <= chars.len(),
            tail == chars@.skip(from as int),
            forall|j: int| 0 <= j < start - from ==> is_space(#[trigger] tail[j]),
        decreases chars.len() - start,
    {
        start = start + 1;
    }
    proof {
        lemma_trim_start_skips(tail, start - from);
        assert(tail.skip(start - from) =~= chars@.skip(start as int));
    }
    if start == chars.len() {
        return None;
    }
    let ghost rest = chars@.skip(start as int);
    let mut end: usize = start;
    while end < chars.len() && !is_whitespace(chars[end])
        invariant
            start <= end <= chars.len(),
            rest == chars@.skip(start as int),
            word_end(rest, 0) == word_end(rest, end - start),
        decreases chars.len() - end,
    {
        assert(rest[end - start] == chars@[end as int]);
        end = end + 1;
    }
    proof {
        if end < chars.len() {
            assert(rest[end - start] == chars@[end as int]);
        }
        assert(word_end(rest, end - start) == end - start);
        assert(rest.take(end - start) =~= chars@.subrange(start as int, end as int));
    }
    Some(text_of_range(chars, start, end))
}

/// The time stamp of a line of diagnostic output, as text: the first word
/// after the first `time=`. A line without the marker, or with nothing but
/// white space after it, has none.
pub fn progress_time_token(line: &str) -> (r: Option<String>)
    ensures
        match r {
            Some(token) => time_token(line@) == Some(token@),
            None => time_token(line@) is None,
        },
{
    let chars = chars_of(line);
    let marker = chars_of("time=");
    match find_text(&chars, &marker) {
        Some(at) => {
            proof {
                assert(first_occurrence(line@, time_marker(), at as int));
                let chosen = choose|at: int| first_occurrence(line@, time_marker(), at);
                lemma_first_occurrence_unique(line@, time_marker(), chosen, at as int);
            }
            assert(at + marker.len() <= chars.len());
            first_word_from(&chars, at + marker.len())
        },
        None => None,
    }
}

/// The pieces of `text` between the separators `sep`.
pub fn split_fields(text: &str, sep: char) -> (r: Vec<String>)
    ensures
        texts(r@) == split_on(text@, sep),
{
    let chars = chars_of(text);
    let mut pieces: Vec<String> = Vec::new();
    let mut current = String::new();
    let mut i: usize = 0;
    assert(chars@.take(0) =~= Seq::<char>::empty());
    assert(texts(pieces@).push(current@) =~= split_on(chars@.take(0), sep));
    while i < chars.len()
        invariant
            i <= chars.len(),
            texts(pieces@).push(current@) == split_on(chars@.take(i as int), sep),
        decreases chars.len() - i,
    {
        let c = chars[i];
        let ghost before = texts(pieces@);
        let ghost piece = current@;
        proof {
            let next = chars@.take(i + 1);
            assert(next.drop_last() =~= chars@.take(i as int));
            assert(next.last() == c);
            assert(before.push(piece).drop_last() =~= before);
            assert(before.push(piece).last() == piece);
        }
        if c == sep {
            let done = current;
            pieces.push(done);
            current = String::new();
            assert(texts(pieces@) =~= before.push(piece));
        } else {
            current.push(c);
        }
        i = i + 1;
    }
    assert(chars@.take(chars.len() as int) =~= chars@);
    let ghost before = texts(pieces@);
    pieces.push(current);
    assert(texts(pieces@) =~= before.push(current@));
    pieces
}

/// The fields of a time stamp: hours, minutes and seconds where the trimmed
/// text has exactly two colons, the trimmed text as one field otherwise.
pub fn timestamp_fields(text: &str) -> (r: Timestamp)
    ensures
        r@ == timestamp_of(text@),
{
    let whole = trim(text);
    let mut pieces = split_fields(whole.as_str(), ':');
    if pieces.len() != 3 {
        return Timestamp::Plain(whole);
    }
    assert(texts(pieces@)[0] == pieces@[0]@);
    assert(texts(pieces@)[1] == pieces@[1]@);
    assert(texts(pieces@)[2] == pieces@[2]@);
    let seconds = pieces[2].clone();
    let minutes = pieces[1].clone();
    let hours = pieces[0].clone();
    Timestamp::Clock { hours, minutes, seconds }
}

/// The time stamp of a line of diagnostic output, split into its fields.
/// Most lines carry none.
pub fn parse_progress(line: &str) -> (r: Option<Timestamp>)
    ensures
        match r {
            Some(stamp) => progress_of(line@) == Some(stamp@),
            None => progress_of(line@) is None,
        },
        !contains(line@, time_marker()) ==> r is None,
{
    match progress_time_token(line) {
        Some(token) => Some(timestamp_fields(token.as_str())),
        None => None,
    }
}

} // verus!
