//! Text primitives shared by the rest of the crate.
//!
//! Every string is modelled by its sequence of characters. The predicates and
//! functions below are stated over `Seq<char>`; the executable functions work
//! on `&str` and `String` and are proved to compute them.

use vstd::prelude::*;
use vstd::std_specs::iter::IteratorSpec;

verus! {

/// `String::push` appends one character to the end of the string and leaves
/// the characters before it as they were.
pub assume_specification[ String::push ](s: &mut String, c: char)
    ensures
        final(s)@ == old(s)@.push(c),
;

/// The characters that count as white space: the code points that carry the
/// Unicode property `White_Space`.
pub open spec fn is_space(c: char) -> bool {
    ||| c == ' '
    ||| ('\u{9}' <= c && c <= '\u{d}')
    ||| c == '\u{85}'
    ||| c == '\u{a0}'
    ||| c == '\u{1680}'
    ||| ('\u{2000}' <= c && c <= '\u{200a}')
    ||| c == '\u{2028}'
    ||| c == '\u{2029}'
    ||| c == '\u{202f}'
    ||| c == '\u{205f}'
    ||| c == '\u{3000}'
}

/// `s` without its leading white space.
pub open spec fn trim_start(s: Seq<char>) -> Seq<char>
    decreases s.len(),
{
    if s.len() > 0 && is_space(s[0]) {
        trim_start(s.drop_first())
    } else {
        s
    }
}

/// `s` without its trailing white space.
pub open spec fn trim_end(s: Seq<char>) -> Seq<char>
    decreases s.len(),
{
    if s.len() > 0 && is_space(s.last()) {
        trim_end(s.drop_last())
    } else {
        s
    }
}

/// `s` without leading and trailing white space.
pub open spec fn trimmed(s: Seq<char>) -> Seq<char> {
    trim_end(trim_start(s))
}

/// Some character of `s` is not white space.
pub open spec fn nonblank(s: Seq<char>) -> bool {
    exists|i: int| 0 <= i < s.len() && !is_space(#[trigger] s[i])
}

/// The characters of an optional string.
pub open spec fn text_view(value: Option<String>) -> Option<Seq<char>> {
    match value {
        Some(s) => Some(s@),
        None => None,
    }
}

/// The characters of an optional string slice.
pub open spec fn str_view(value: Option<&str>) -> Option<Seq<char>> {
    match value {
        Some(s) => Some(s@),
        None => None,
    }
}

/// The text that an optional field stands for: its trimmed contents, or the
/// empty text when the field is absent.
pub open spec fn option_text(value: Option<Seq<char>>) -> Seq<char> {
    match value {
        Some(s) => trimmed(s),
        None => Seq::empty(),
    }
}

/// `pat` stands in `s` at position `at`.
pub open spec fn occurs_at(s: Seq<char>, pat: Seq<char>, at: int) -> bool {
    &&& 0 <= at
    &&& at + pat.len() <= s.len()
    &&& s.subrange(at, at + pat.len()) == pat
}

/// `pat` stands somewhere in `s`.
pub open spec fn contains(s: Seq<char>, pat: Seq<char>) -> bool {
    exists|at: int| occurs_at(s, pat, at)
}

/// Some text of `tokens` holds `pat`.
pub open spec fn any_contains(tokens: Seq<Seq<char>>, pat: Seq<char>) -> bool {
    exists|i: int| 0 <= i < tokens.len() && contains(#[trigger] tokens[i], pat)
}

/// `s` with every occurrence of `pat` replaced by `to`, taking occurrences
/// from the left and never inside one another. A pattern without characters
/// replaces nothing.
pub open spec fn replaced(s: Seq<char>, pat: Seq<char>, to: Seq<char>) -> Seq<char>
    decreases s.len(),
{
    if s.len() == 0 || pat.len() == 0 {
        s
    } else if occurs_at(s, pat, 0) {
        to + replaced(s.skip(pat.len() as int), pat, to)
    } else {
        seq![s[0]] + replaced(s.drop_first(), pat, to)
    }
}

/// The character of a decimal digit.
pub open spec fn digit(d: int) -> char
    recommends
        0 <= d < 10,
{
    ((48 + d) as u8) as char
}

/// The decimal digits of a natural number, without leading zeros.
pub open spec fn natural_digits(n: nat) -> Seq<char>
    decreases n,
{
    if n < 10 {
        seq![digit(n as int)]
    } else {
        natural_digits(n / 10).push(digit((n % 10) as int))
    }
}

/// The decimal text of an integer, with a minus sign when it is negative.
pub open spec fn decimal(n: int) -> Seq<char> {
    if n < 0 {
        seq!['-'] + natural_digits((-n) as nat)
    } else {
        natural_digits(n as nat)
    }
}

/// Leading white space of length `k`, followed by none, is what `trim_start`
/// removes.
pub proof fn lemma_trim_start_skips(s: Seq<char>, k: int)
    requires
        0 <= k <= s.len(),
        forall|i: int| 0 <= i < k ==> is_space(#[trigger] s[i]),
        k == s.len() || !is_space(s[k]),
    ensures
        trim_start(s) == s.skip(k),
    decreases k,
{
    if k == 0 {
        assert(s.skip(0) == s);
    } else {
        let rest = s.drop_first();
        assert forall|i: int| 0 <= i < k - 1 implies is_space(#[trigger] rest[i]) by {
            assert(rest[i] == s[i + 1]);
        }
        lemma_trim_start_skips(rest, k - 1);
        assert(rest.skip(k - 1) == s.skip(k));
    }
}

/// Trailing white space from position `e` on, preceded by none, is what
/// `trim_end` removes.
pub proof fn lemma_trim_end_takes(s: Seq<char>, e: int)
    requires
        0 <= e <= s.len(),
        forall|i: int| e <= i < s.len() ==> is_space(#[trigger] s[i]),
        e == 0 || !is_space(s[e - 1]),
    ensures
        trim_end(s) == s.take(e),
    decreases s.len() - e,
{
    if e == s.len() {
        assert(s.take(e) == s);
    } else {
        let rest = s.drop_last();
        assert(is_space(s[s.len() - 1]));
        lemma_trim_end_takes(rest, e);
        assert(rest.take(e) == s.take(e));
    }
}

/// A trimmed text keeps a character that is not white space exactly when the
/// text has one, and then it is not empty; trimming it again changes nothing.
pub proof fn lemma_trimmed_properties(s: Seq<char>)
    ensures
        nonblank(s) <==> trimmed(s).len() > 0,
        nonblank(trimmed(s)) <==> nonblank(s),
        trimmed(trimmed(s)) == trimmed(s),
        trimmed(s).len() > 0 ==> !is_space(trimmed(s)[0]) && !is_space(trimmed(s).last()),
        trimmed(s).len() <= s.len(),
{
    let k = first_text(s, 0);
    lemma_first_text(s, 0);
    lemma_trim_start_skips(s, k);
    let t = s.skip(k);
    let e = last_text(t, t.len() as int);
    lemma_last_text(t, t.len() as int);
    lemma_trim_end_takes(t, e);
    let r = t.take(e);
    assert(trimmed(s) == r);
    if k < s.len() {
        assert(!is_space(t[0]));
        assert(e > 0);
        assert(r[0] == s[k]);
        assert(r[e - 1] == t[e - 1]);
        assert(!is_space(r[0]));
        assert(nonblank(r));
        assert(nonblank(s));
        lemma_trim_start_skips(r, 0);
        lemma_trim_end_takes(r, e);
        assert(r.skip(0) == r);
        assert(r.take(e) == r);
    } else {
        assert(t.len() == 0);
        assert(r.len() == 0);
        assert(!nonblank(s));
        assert(!nonblank(r));
        assert(trim_start(r) == r);
        assert(trim_end(r) == r);
    }
}

/// A blank field and an absent one stand for the same text, the empty one;
/// and the text of a field is what it is after trimming, so that trimming a
/// field beforehand changes nothing.
pub proof fn lemma_blank_is_absent(field: Seq<char>)
    ensures
        !nonblank(field) ==> option_text(Some(field)) == option_text(None),
        option_text(Some(trimmed(field))) == option_text(Some(field)),
        nonblank(option_text(Some(field))) <==> option_text(Some(field)).len() > 0,
        nonblank(option_text(Some(field))) <==> nonblank(field),
{
    lemma_trimmed_properties(field);
    lemma_trimmed_properties(trimmed(field));
    if !nonblank(field) {
        assert(trimmed(field) =~= Seq::<char>::empty());
    }
}

/// The first position from `from` on whose character is not white space, or
/// the length of `s`.
pub open spec fn first_text(s: Seq<char>, from: int) -> int
    decreases s.len() - from,
{
    if 0 <= from < s.len() && is_space(s[from]) {
        first_text(s, from + 1)
    } else {
        from
    }
}

/// The end of the last stretch before `upto` whose final character is not
/// white space, or zero.
pub open spec fn last_text(s: Seq<char>, upto: int) -> int
    decreases upto,
{
    if 0 < upto <= s.len() && is_space(s[upto - 1]) {
        last_text(s, upto - 1)
    } else {
        upto
    }
}

pub proof fn lemma_first_text(s: Seq<char>, from: int)
    requires
        0 <= from <= s.len(),
    ensures
        from <= first_text(s, from) <= s.len(),
        forall|i: int| from <= i < first_text(s, from) ==> is_space(#[trigger] s[i]),
        first_text(s, from) == s.len() || !is_space(s[first_text(s, from)]),
    decreases s.len() - from,
{
    if from < s.len() && is_space(s[from]) {
        lemma_first_text(s, from + 1);
    }
}

pub proof fn lemma_last_text(s: Seq<char>, upto: int)
    requires
        0 <= upto <= s.len(),
    ensures
        0 <= last_text(s, upto) <= upto,
        forall|i: int| last_text(s, upto) <= i < upto ==> is_space(#[trigger] s[i]),
        last_text(s, upto) == 0 || !is_space(s[last_text(s, upto) - 1]),
    decreases upto,
{
    if 0 < upto && is_space(s[upto - 1]) {
        lemma_last_text(s, upto - 1);
    }
}

/// Whether `c` is white space.
pub fn is_whitespace(c: char) -> (r: bool)
    ensures
        r == is_space(c),
{
    c == ' ' || ('\u{9}' <= c && c <= '\u{d}') || c == '\u{85}' || c == '\u{a0}' || c == '\u{1680}'
        || ('\u{2000}' <= c && c <= '\u{200a}') || c == '\u{2028}' || c == '\u{2029}' || c
        == '\u{202f}' || c == '\u{205f}' || c == '\u{3000}'
}

/// The characters of a string slice, in order.
pub fn chars_of(s: &str) -> (r: Vec<char>)
    ensures
        r@ == s@,
{
    broadcast use vstd::string::group_string_axioms;

    let mut out: Vec<char> = Vec::new();
    let mut it = s.chars();
    loop
        invariant
            out@ + it.remaining() == s@,
        ensures
            out@ == s@,
        decreases s@.len() - out@.len(),
    {
        let ghost before = it.remaining();
        match it.next() {
            Some(c) => {
                out.push(c);
                assert(before == seq![c] + it.remaining());
                assert(out@ + it.remaining() == s@);
            },
            None => {
                assert(it.remaining().len() == 0);
                assert(out@ == s@);
                break ;
            },
        }
    }
    out
}

/// The string made of the characters `chars[from..to]`.
pub(crate) fn text_of_range(chars: &Vec<char>, from: usize, to: usize) -> (r: String)
    requires
        from <= to <= chars.len(),
    ensures
        r@ == chars@.subrange(from as int, to as int),
{
    let mut out = String::new();
    let mut i: usize = from;
    while i < to
        invariant
            from <= i <= to <= chars.len(),
            out@ == chars@.subrange(from as int, i as int),
        decreases to - i,
    {
        out.push(chars[i]);
        i = i + 1;
    }
    out
}

/// The string made of the characters of `chars`.
pub fn text_of(chars: &Vec<char>) -> (r: String)
    ensures
        r@ == chars@,
{
    let r = text_of_range(chars, 0, chars.len());
    assert(chars@.subrange(0, chars.len() as int) == chars@);
    r
}

/// Whether two string slices hold the same characters.
pub fn text_eq(a: &str, b: &str) -> (r: bool)
    ensures
        r == (a@ == b@),
{
    let x = chars_of(a);
    let y = chars_of(b);
    if x.len() != y.len() {
        return false;
    }
    let mut i: usize = 0;
    while i < x.len()
        invariant
            x.len() == y.len(),
            x@ == a@,
            y@ == b@,
            i <= x.len(),
            forall|j: int| 0 <= j < i ==> x@[j] == y@[j],
        decreases x.len() - i,
    {
        if x[i] != y[i] {
            return false;
        }
        i = i + 1;
    }
    assert(x@ =~= y@);
    true
}

/// Whether `value` holds a character that is not white space.
pub fn has_text(value: &str) -> (r: bool)
    ensures
        r == nonblank(value@),
{
    let chars = chars_of(value);
    let mut i: usize = 0;
    while i < chars.len()
        invariant
            i <= chars.len(),
            chars@ == value@,
            forall|j: int| 0 <= j < i ==> is_space(#[trigger] chars@[j]),
        decreases chars.len() - i,
    {
        if !is_whitespace(chars[i]) {
            return true;
        }
        i = i + 1;
    }
    false
}

/// `value` without leading and trailing white space.
pub fn trim(value: &str) -> (r: String)
    ensures
        r@ == trimmed(value@),
{
    let chars = chars_of(value);
    let mut start: usize = 0;
    while start < chars.len() && is_whitespace(chars[start])
        invariant
            start <= chars.len(),
            forall|j: int| 0 <= j < start ==> is_space(#[trigger] chars@[j]),
        decreases chars.len() - start,
    {
        start = start + 1;
    }
    let mut end: usize = chars.len();
    while end > start && is_whitespace(chars[end - 1])
        invariant
            start <= end <= chars.len(),
            forall|j: int| end <= j < chars.len() ==> is_space(#[trigger] chars@[j]),
        decreases end - start,
    {
        end = end - 1;
    }
    proof {
        let s = chars@;
        let t = s.skip(start as int);
        lemma_trim_start_skips(s, start as int);
        assert forall|i: int| end - start <= i < t.len() implies is_space(#[trigger] t[i]) by {
            assert(t[i] == s[i + start]);
        }
        if end > start {
            assert(t[end - start - 1] == s[end - 1]);
        }
        lemma_trim_end_takes(t, end - start);
        assert(t.take(end - start) == s.subrange(start as int, end as int));
    }
    text_of_range(&chars, start, end)
}

/// The trimmed contents of an optional field; the empty string when it is
/// absent.
pub fn text_from_option(value: &Option<String>) -> (r: String)
    ensures
        r@ == option_text(text_view(*value)),
{
    match value {
        Some(s) => trim(s.as_str()),
        None => String::new(),
    }
}

/// The views of a sequence of strings.
pub open spec fn texts(v: Seq<String>) -> Seq<Seq<char>> {
    Seq::new(v.len(), |i: int| v[i]@)
}

/// Replacing a pattern that does not occur changes nothing.
pub proof fn lemma_replaced_without_occurrence(s: Seq<char>, pat: Seq<char>, to: Seq<char>)
    requires
        !contains(s, pat),
    ensures
        replaced(s, pat, to) == s,
    decreases s.len(),
{
    if s.len() > 0 && pat.len() > 0 {
        assert(!occurs_at(s, pat, 0));
        let rest = s.drop_first();
        assert forall|at: int| !occurs_at(rest, pat, at) by {
            if occurs_at(rest, pat, at) {
                assert(s.subrange(at + 1, at + 1 + pat.len()) =~= rest.subrange(
                    at,
                    at + pat.len(),
                ));
                assert(occurs_at(s, pat, at + 1));
            }
        }
        lemma_replaced_without_occurrence(rest, pat, to);
        assert(seq![s[0]] + rest =~= s);
    }
}

/// A pattern that stands in a piece of a text stands in the text.
pub proof fn lemma_contains_transitive(s: Seq<char>, piece: Seq<char>, pat: Seq<char>)
    requires
        contains(s, piece),
        contains(piece, pat),
    ensures
        contains(s, pat),
{
    let outer = choose|at: int| occurs_at(s, piece, at);
    let inner = choose|at: int| occurs_at(piece, pat, at);
    assert(s.subrange(outer + inner, outer + inner + pat.len()) =~= piece.subrange(
        inner,
        inner + pat.len(),
    ));
    assert(occurs_at(s, pat, outer + inner));
}

/// Appending is associative.
pub proof fn lemma_concat_assoc<T>(a: Seq<T>, b: Seq<T>, c: Seq<T>)
    ensures
        (a + b) + c == a + (b + c),
{
    assert((a + b) + c =~= a + (b + c));
}

/// The parts one after another, with `sep` between each two.
pub open spec fn joined(parts: Seq<Seq<char>>, sep: Seq<char>) -> Seq<char>
    decreases parts.len(),
{
    if parts.len() == 0 {
        Seq::empty()
    } else if parts.len() == 1 {
        parts[0]
    } else {
        joined(parts.drop_last(), sep) + sep + parts.last()
    }
}

/// The digits pushed so far, last one first.
pub open spec fn backwards(rev: Seq<char>) -> Seq<char> {
    Seq::new(rev.len(), |j: int| rev[rev.len() - 1 - j])
}

/// The decimal text of `n`.
pub fn decimal_text(n: i64) -> (r: String)
    ensures
        r@ == decimal(n as int),
{
    let negative = n < 0;
    let magnitude: u64 = if negative {
        (-(n + 1)) as u64 + 1
    } else {
        n as u64
    };
    let mut rest: u64 = magnitude;
    let mut rev: Vec<char> = Vec::new();
    assert(natural_digits(magnitude as nat) =~= natural_digits(rest as nat) + backwards(rev@));
    while rest >= 10
        invariant
            natural_digits(magnitude as nat) == natural_digits(rest as nat) + backwards(rev@),
        decreases rest,
    {
        let d: u8 = (rest % 10) as u8;
        let c: char = (48u8 + d) as char;
        proof {
            let before = rev@;
            let after = before.push(c);
            assert(natural_digits(rest as nat) == natural_digits((rest / 10) as nat).push(c));
            assert(backwards(after) =~= seq![c] + backwards(before));
            assert(natural_digits((rest / 10) as nat).push(c) + backwards(before)
                =~= natural_digits((rest / 10) as nat) + backwards(after));
        }
        rev.push(c);
        rest = rest / 10;
    }
    let last: char = (48u8 + rest as u8) as char;
    proof {
        let before = rev@;
        let after = before.push(last);
        assert(natural_digits(rest as nat) == seq![last]);
        assert(backwards(after) =~= seq![last] + backwards(before));
    }
    rev.push(last);
    assert(natural_digits(magnitude as nat) == backwards(rev@));
    let mut out = String::new();
    if negative {
        out.push('-');
    }
    let ghost sign = out@;
    let mut k: usize = rev.len();
    while k > 0
        invariant
            k <= rev.len(),
            out@ == sign + backwards(rev@).take(rev.len() - k),
        decreases k,
    {
        k = k - 1;
        proof {
            let b = backwards(rev@);
            assert(b.take(rev.len() - k) =~= b.take(rev.len() - k - 1).push(rev@[k as int]));
            assert(sign + b.take(rev.len() - k - 1).push(rev@[k as int]) =~= (sign + b.take(
                rev.len() - k - 1,
            )).push(rev@[k as int]));
        }
        out.push(rev[k]);
    }
    proof {
        let b = backwards(rev@);
        assert(b.take(rev.len() as int) =~= b);
        if negative {
            assert(sign =~= seq!['-']);
            assert((-(n as int)) as nat == magnitude as nat);
        } else {
            assert(sign =~= Seq::<char>::empty());
            assert(sign + b =~= b);
        }
    }
    out
}

/// Whether `pat` stands in `s` at position `at`.
fn matches_at(s: &Vec<char>, pat: &Vec<char>, at: usize) -> (r: bool)
    requires
        at <= s.len(),
    ensures
        r == occurs_at(s@, pat@, at as int),
{
    if pat.len() > s.len() - at {
        return false;
    }
    let mut j: usize = 0;
    while j < pat.len()
        invariant
            j <= pat.len(),
            at + pat.len() <= s.len(),
            forall|i: int| 0 <= i < j ==> s@[at + i] == pat@[i],
        decreases pat.len() - j,
    {
        if s[at + j] != pat[j] {
            assert(s@.subrange(at as int, at + pat.len())[j as int] != pat@[j as int]);
            return false;
        }
        j = j + 1;
    }
    assert(s@.subrange(at as int, at + pat.len()) =~= pat@);
    true
}

/// The first position at which `pat` stands in `s`, if there is one.
pub fn find_text(s: &Vec<char>, pat: &Vec<char>) -> (r: Option<usize>)
    ensures
        r is Some <==> contains(s@, pat@),
        r matches Some(at) ==> occurs_at(s@, pat@, at as int) && forall|i: int|
            0 <= i < at ==> !occurs_at(s@, pat@, i),
{
    let mut at: usize = 0;
    while at < s.len()
        invariant
            at <= s.len(),
            forall|i: int| 0 <= i < at ==> !occurs_at(s@, pat@, i),
        decreases s.len() - at,
    {
        if matches_at(s, pat, at) {
            return Some(at);
        }
        at = at + 1;
    }
    if matches_at(s, pat, at) {
        return Some(at);
    }
    None
}

/// Whether `pat` stands somewhere in `s`.
pub fn contains_text(s: &str, pat: &str) -> (r: bool)
    ensures
        r == contains(s@, pat@),
{
    let chars = chars_of(s);
    let wanted = chars_of(pat);
    find_text(&chars, &wanted).is_some()
}

/// `s` with every occurrence of `pat`, from the left, replaced by `to`.
pub fn replace_text(s: &str, pat: &str, to: &str) -> (r: String)
    ensures
        r@ == replaced(s@, pat@, to@),
{
    let chars = chars_of(s);
    let wanted = chars_of(pat);
    let fill = chars_of(to);
    if wanted.len() == 0 {
        return text_of(&chars);
    }
    let mut out = String::new();
    let mut at: usize = 0;
    assert(chars@.skip(0) == chars@);
    while at < chars.len()
        invariant
            at <= chars.len(),
            wanted.len() > 0,
            fill@ == to@,
            wanted@ == pat@,
            chars@ == s@,
            replaced(chars@, wanted@, fill@) == out@ + replaced(
                chars@.skip(at as int),
                wanted@,
                fill@,
            ),
        decreases chars.len() - at,
    {
        let ghost rest = chars@.skip(at as int);
        let ghost done = out@;
        if matches_at(&chars, &wanted, at) {
            let mut j: usize = 0;
            while j < fill.len()
                invariant
                    j <= fill.len(),
                    out@ == done + fill@.take(j as int),
                decreases fill.len() - j,
            {
                out.push(fill[j]);
                assert(fill@.take(j + 1) =~= fill@.take(j as int).push(fill@[j as int]));
                j = j + 1;
            }
            proof {
                assert(fill@.take(fill.len() as int) =~= fill@);
                assert(rest.subrange(0, wanted.len() as int) =~= chars@.subrange(
                    at as int,
                    at + wanted.len(),
                ));
                assert(occurs_at(rest, wanted@, 0));
                assert(rest.skip(wanted.len() as int) =~= chars@.skip(at + wanted.len()));
                assert(done + (fill@ + replaced(rest.skip(wanted.len() as int), wanted@, fill@))
                    =~= (done + fill@) + replaced(rest.skip(wanted.len() as int), wanted@, fill@));
            }
            at = at + wanted.len();
        } else {
            proof {
                if at + wanted.len() <= chars.len() {
                    assert(rest.subrange(0, wanted.len() as int) =~= chars@.subrange(
                        at as int,
                        at + wanted.len(),
                    ));
                }
                assert(!occurs_at(rest, wanted@, 0));
                assert(rest.drop_first() =~= chars@.skip(at + 1));
                assert(rest[0] == chars@[at as int]);
                assert(done + (seq![rest[0]] + replaced(rest.drop_first(), wanted@, fill@))
                    =~= done.push(rest[0]) + replaced(rest.drop_first(), wanted@, fill@));
            }
            out.push(chars[at]);
            at = at + 1;
        }
    }
    proof {
        assert(chars@.skip(at as int).len() == 0);
        assert(out@ + Seq::<char>::empty() =~= out@);
    }
    out
}

/// The strings of `parts` one after another, with `sep` between each two.
pub fn join_texts(parts: &Vec<String>, sep: &str) -> (r: String)
    ensures
        r@ == joined(texts(parts@), sep@),
{
    let mut out = String::new();
    let mut i: usize = 0;
    while i < parts.len()
        invariant
            i <= parts.len(),
            out@ == joined(texts(parts@).take(i as int), sep@),
        decreases parts.len() - i,
    {
        proof {
            let all = texts(parts@);
            let next = all.take(i + 1);
            assert(next.drop_last() =~= all.take(i as int));
            assert(next.last() == parts@[i as int]@);
            if i == 0 {
                assert(out@ =~= Seq::<char>::empty());
                assert(Seq::<char>::empty() + parts@[0]@ =~= parts@[0]@);
            }
        }
        if i > 0 {
            out.append(sep);
        }
        out.append(parts[i].as_str());
        i = i + 1;
    }
    assert(texts(parts@).take(parts.len() as int) =~= texts(parts@));
    out
}

} // verus!
