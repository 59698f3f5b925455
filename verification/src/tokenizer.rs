//! Splitting a free-form command line into tokens, with shell-like quoting.
//!
//! The grammar is a small machine that reads one character at a time:
//! - after a backslash, outside single quotes, the next character is taken
//!   as it is;
//! - a double quote, outside single quotes, opens or closes a double-quoted
//!   stretch, and a single quote, outside double quotes, a single-quoted one;
//!   the quotes themselves are dropped;
//! - inside single quotes a backslash is an ordinary character;
//! - white space outside quotes ends the current token;
//! - a token without characters is never given out.

use vstd::prelude::*;
use crate::text::{
    any_contains, chars_of, contains, is_space, is_whitespace, occurs_at, texts,
};

verus! {

/// Why a command line could not be split.
#[derive(Debug, Clone, Copy, PartialEq, Eq)]
pub enum ParseError {
    /// The text ends right after a backslash.
    UnterminatedEscape,
    /// A quote is opened and never closed.
    UnterminatedQuote,
}

impl ParseError {
    /// The message shown to the user.
    pub fn message(&self) -> (r: String)
        ensures
            r@ == self.message_text(),
    {
        match self {
            ParseError::UnterminatedEscape => "Invalid command line: trailing escape".to_string(),
            ParseError::UnterminatedQuote => "Invalid command line: unclosed quote".to_string(),
        }
    }

    pub open spec fn message_text(&self) -> Seq<char> {
        match self {
            ParseError::UnterminatedEscape => "Invalid command line: trailing escape"@,
            ParseError::UnterminatedQuote => "Invalid command line: unclosed quote"@,
        }
    }
}

/// The state of the machine between two characters.
pub struct Scan {
    /// The tokens that are complete.
    pub tokens: Seq<Seq<char>>,
    /// The characters of the token being read.
    pub current: Seq<char>,
    pub in_single_quote: bool,
    pub in_double_quote: bool,
    /// The last character was an escaping backslash.
    pub escape_next: bool,
}

/// The state before the first character.
pub open spec fn scan_start() -> Scan {
    Scan {
        tokens: Seq::empty(),
        current: Seq::empty(),
        in_single_quote: false,
        in_double_quote: false,
        escape_next: false,
    }
}

/// The state with the current token, if it has characters, moved to the
/// complete ones.
pub open spec fn scan_flush(st: Scan) -> Scan {
    if st.current.len() == 0 {
        st
    } else {
        Scan { tokens: st.tokens.push(st.current), current: Seq::empty(), ..st }
    }
}

/// The state after reading `ch` in state `st`.
pub open spec fn scan_step(st: Scan, ch: char) -> Scan {
    if st.escape_next {
        Scan { current: st.current.push(ch), escape_next: false, ..st }
    } else if ch == '\\' && !st.in_single_quote {
        Scan { escape_next: true, ..st }
    } else if ch == '"' && !st.in_single_quote {
        Scan { in_double_quote: !st.in_double_quote, ..st }
    } else if ch == '\'' && !st.in_double_quote {
        Scan { in_single_quote: !st.in_single_quote, ..st }
    } else if is_space(ch) && !st.in_single_quote && !st.in_double_quote {
        scan_flush(st)
    } else {
        Scan { current: st.current.push(ch), ..st }
    }
}

/// The state after reading `s` in state `st`.
pub open spec fn scan_from(st: Scan, s: Seq<char>) -> Scan
    decreases s.len(),
{
    if s.len() == 0 {
        st
    } else {
        scan_step(scan_from(st, s.drop_last()), s.last())
    }
}

/// The state after reading all of `s` from the start.
pub open spec fn scan(s: Seq<char>) -> Scan {
    scan_from(scan_start(), s)
}

/// The tokens of a command line, or the reason why it has none.
pub open spec fn tokenized(s: Seq<char>) -> Result<Seq<Seq<char>>, ParseError> {
    let st = scan(s);
    if st.escape_next {
        Err(ParseError::UnterminatedEscape)
    } else if st.in_single_quote || st.in_double_quote {
        Err(ParseError::UnterminatedQuote)
    } else {
        Ok(scan_flush(st).tokens)
    }
}

/// The state between two tokens or inside an unquoted one: no quote is open
/// and no escape is pending.
pub open spec fn scan_at_rest(tokens: Seq<Seq<char>>, current: Seq<char>) -> Scan {
    Scan { tokens, current, in_single_quote: false, in_double_quote: false, escape_next: false }
}

/// Reading `first` and then `second` is reading `first + second`.
pub proof fn lemma_scan_from_concat(st: Scan, first: Seq<char>, second: Seq<char>)
    ensures
        scan_from(st, first + second) == scan_from(scan_from(st, first), second),
    decreases second.len(),
{
    if second.len() == 0 {
        assert(first + second =~= first);
    } else {
        lemma_scan_from_concat(st, first, second.drop_last());
        assert((first + second).drop_last() =~= first + second.drop_last());
        assert((first + second).last() == second.last());
    }
}

/// Reading one character is one step.
pub proof fn lemma_scan_from_one(st: Scan, ch: char)
    ensures
        scan_from(st, seq![ch]) == scan_step(st, ch),
{
    let one = seq![ch];
    assert(one.drop_last() =~= Seq::<char>::empty());
    assert(one.last() == ch);
    assert(scan_from(st, one.drop_last()) == st);
}

/// Every complete token that the machine holds has at least one character.
pub proof fn lemma_scan_tokens_nonempty(s: Seq<char>)
    ensures
        forall|i: int| 0 <= i < scan(s).tokens.len() ==> (#[trigger] scan(s).tokens[i]).len() > 0,
        !(scan(s).in_single_quote && scan(s).in_double_quote),
    decreases s.len(),
{
    if s.len() > 0 {
        lemma_scan_tokens_nonempty(s.drop_last());
    }
}

/// No command line has a token without characters.
pub proof fn lemma_tokens_nonempty(s: Seq<char>)
    ensures
        tokenized(s) is Ok ==> forall|i: int|
            0 <= i < tokenized(s).unwrap().len() ==> (#[trigger] tokenized(s).unwrap()[i]).len()
                > 0,
{
    lemma_scan_tokens_nonempty(s);
}

/// A character that neither quotes nor escapes.
pub open spec fn unquoting(c: char) -> bool {
    c != '\\' && c != '"' && c != '\''
}

/// A text without quotes and backslashes.
pub open spec fn quote_free(s: Seq<char>) -> bool {
    forall|i: int| 0 <= i < s.len() ==> unquoting(#[trigger] s[i])
}

/// A text without quotes, backslashes and white space.
pub open spec fn plain_text(s: Seq<char>) -> bool {
    forall|i: int| 0 <= i < s.len() ==> unquoting(#[trigger] s[i]) && !is_space(s[i])
}

/// The machine holds `pat` in a complete token or in the token being read.
pub open spec fn scan_holds(st: Scan, pat: Seq<char>) -> bool {
    contains(st.current, pat) || any_contains(st.tokens, pat)
}

/// Reading `more` after `s` leaves the quoting as it was after `s`, when
/// `more` has no quotes and backslashes and `s` does not end in an escape.
pub proof fn lemma_quote_free_keeps_quoting(s: Seq<char>, more: Seq<char>)
    requires
        quote_free(more),
        !scan(s).escape_next,
    ensures
        !scan(s + more).escape_next,
        scan(s + more).in_single_quote == scan(s).in_single_quote,
        scan(s + more).in_double_quote == scan(s).in_double_quote,
    decreases more.len(),
{
    if more.len() == 0 {
        assert(s + more =~= s);
    } else {
        let shorter = more.drop_last();
        assert forall|i: int| 0 <= i < shorter.len() implies unquoting(#[trigger] shorter[i]) by {
            assert(shorter[i] == more[i]);
        }
        lemma_quote_free_keeps_quoting(s, shorter);
        assert((s + more).drop_last() =~= s + shorter);
        assert((s + more).last() == more.last());
        assert(unquoting(more[more.len() - 1]));
    }
}

/// A quote that is opened outside quotes and escapes, and followed by no
/// further quote or backslash, makes the command line fail as an
/// unterminated quote.
pub proof fn lemma_unclosed_quote_fails(before: Seq<char>, quote: char, after: Seq<char>)
    requires
        quote == '"' || quote == '\'',
        tokenized(before) is Ok,
        quote_free(after),
    ensures
        tokenized(before.push(quote) + after) == Err::<Seq<Seq<char>>, ParseError>(
            ParseError::UnterminatedQuote,
        ),
{
    let opened = before.push(quote);
    assert(opened.drop_last() =~= before);
    assert(opened.last() == quote);
    lemma_quote_free_keeps_quoting(opened, after);
}

/// A backslash at the end, outside single quotes and not escaped itself,
/// makes the command line fail as an unterminated escape.
pub proof fn lemma_trailing_backslash_fails(before: Seq<char>)
    requires
        !scan(before).escape_next,
        !scan(before).in_single_quote,
    ensures
        tokenized(before.push('\\')) == Err::<Seq<Seq<char>>, ParseError>(
            ParseError::UnterminatedEscape,
        ),
{
    let s = before.push('\\');
    assert(s.drop_last() =~= before);
    assert(s.last() == '\\');
}

/// What the machine holds of `pat`, it holds after the next character too.
proof fn lemma_step_keeps(st: Scan, ch: char, pat: Seq<char>)
    requires
        pat.len() > 0,
        scan_holds(st, pat),
    ensures
        scan_holds(scan_step(st, ch), pat),
{
    let next = scan_step(st, ch);
    if contains(st.current, pat) {
        let at = choose|at: int| occurs_at(st.current, pat, at);
        if next.current == st.current.push(ch) {
            assert(next.current.subrange(at, at + pat.len()) =~= st.current.subrange(
                at,
                at + pat.len(),
            ));
            assert(occurs_at(next.current, pat, at));
        } else if next.current == st.current {
        } else {
            assert(next.tokens == st.tokens.push(st.current));
            assert(contains(next.tokens[st.tokens.len() as int], pat));
        }
    } else {
        let i = choose|i: int| 0 <= i < st.tokens.len() && contains(#[trigger] st.tokens[i], pat);
        assert(contains(next.tokens[i], pat));
    }
}

/// What the machine holds of `pat` after `from` characters, it holds after
/// any greater number of them.
proof fn lemma_scan_keeps(s: Seq<char>, pat: Seq<char>, from: int, upto: int)
    requires
        pat.len() > 0,
        0 <= from <= upto <= s.len(),
        scan_holds(scan(s.take(from)), pat),
    ensures
        scan_holds(scan(s.take(upto)), pat),
    decreases upto - from,
{
    if upto > from {
        lemma_scan_keeps(s, pat, from, upto - 1);
        let read = s.take(upto);
        assert(read.drop_last() =~= s.take(upto - 1));
        assert(read.last() == s[upto - 1]);
        lemma_step_keeps(scan(s.take(upto - 1)), s[upto - 1], pat);
    }
}

/// The characters of a plain pattern that stands in `s` at `at` all go to the
/// token being read.
proof fn lemma_plain_run(s: Seq<char>, pat: Seq<char>, at: int, count: int)
    requires
        occurs_at(s, pat, at),
        plain_text(pat),
        0 <= count <= pat.len(),
    ensures
        scan(s.take(at + count)).current == scan(s.take(at)).current + pat.take(count),
    decreases count,
{
    if count == 0 {
        assert(scan(s.take(at)).current + pat.take(0) =~= scan(s.take(at)).current);
    } else {
        lemma_plain_run(s, pat, at, count - 1);
        let read = s.take(at + count);
        assert(read.drop_last() =~= s.take(at + count - 1));
        assert(s.subrange(at, at + pat.len())[count - 1] == pat[count - 1]);
        assert(read.last() == pat[count - 1]);
        assert(unquoting(pat[count - 1]) && !is_space(pat[count - 1]));
        assert((scan(s.take(at)).current + pat.take(count - 1)).push(pat[count - 1]) =~= scan(
            s.take(at),
        ).current + pat.take(count));
    }
}

/// A plain pattern that stands in a command line stands in one of its
/// tokens: neither quotes nor escapes around it take it apart.
pub proof fn lemma_pattern_reaches_token(s: Seq<char>, pat: Seq<char>)
    requires
        contains(s, pat),
        pat.len() > 0,
        plain_text(pat),
        tokenized(s) is Ok,
    ensures
        any_contains(tokenized(s).unwrap(), pat),
{
    let at = choose|at: int| occurs_at(s, pat, at);
    let end = at + pat.len();
    lemma_plain_run(s, pat, at, pat.len() as int);
    assert(pat.take(pat.len() as int) =~= pat);
    let lead = scan(s.take(at)).current;
    let current = scan(s.take(end)).current;
    assert(current.subrange(lead.len() as int, (lead.len() + pat.len()) as int) =~= pat);
    assert(occurs_at(current, pat, lead.len() as int));
    lemma_scan_keeps(s, pat, end, s.len() as int);
    assert(s.take(s.len() as int) =~= s);
    let last = scan(s);
    if contains(last.current, pat) {
        let inner = choose|inner: int| occurs_at(last.current, pat, inner);
        assert(last.current.len() > 0);
        let tokens = scan_flush(last).tokens;
        assert(contains(tokens[last.tokens.len() as int], pat));
    } else {
        let i = choose|i: int|
            0 <= i < last.tokens.len() && contains(#[trigger] last.tokens[i], pat);
        assert(contains(scan_flush(last).tokens[i], pat));
    }
}

/// While a command line without quotes and backslashes is read, the token
/// being read is the end of what was read, and every complete token is a
/// piece of it.
proof fn lemma_quote_free_scan_pieces(s: Seq<char>, upto: int)
    requires
        quote_free(s),
        0 <= upto <= s.len(),
    ensures
        !scan(s.take(upto)).escape_next,
        !scan(s.take(upto)).in_single_quote,
        !scan(s.take(upto)).in_double_quote,
        scan(s.take(upto)).current.len() <= upto,
        scan(s.take(upto)).current == s.subrange(
            upto - scan(s.take(upto)).current.len(),
            upto,
        ),
        forall|i: int|
            0 <= i < scan(s.take(upto)).tokens.len() ==> contains(
                s,
                #[trigger] scan(s.take(upto)).tokens[i],
            ),
    decreases upto,
{
    if upto == 0 {
        assert(s.take(0) =~= Seq::<char>::empty());
        assert(s.subrange(0, 0) =~= Seq::<char>::empty());
    } else {
        lemma_quote_free_scan_pieces(s, upto - 1);
        let read = s.take(upto);
        assert(read.drop_last() =~= s.take(upto - 1));
        assert(read.last() == s[upto - 1]);
        assert(unquoting(s[upto - 1]));
        let before = scan(s.take(upto - 1));
        let after = scan(read);
        let start = upto - 1 - before.current.len();
        if is_space(s[upto - 1]) {
            assert(s.subrange(upto, upto) =~= Seq::<char>::empty());
            if before.current.len() > 0 {
                assert(occurs_at(s, before.current, start));
                assert forall|i: int| 0 <= i < after.tokens.len() implies contains(
                    s,
                    #[trigger] after.tokens[i],
                ) by {
                    if i < before.tokens.len() {
                        assert(after.tokens[i] == before.tokens[i]);
                    }
                }
            }
        } else {
            assert(before.current.push(s[upto - 1]) =~= s.subrange(start, upto));
        }
    }
}

/// Every token of a command line without quotes and backslashes is a piece
/// of the command line.
pub proof fn lemma_quote_free_tokens_are_pieces(s: Seq<char>)
    requires
        quote_free(s),
    ensures
        tokenized(s) is Ok,
        forall|i: int|
            0 <= i < tokenized(s).unwrap().len() ==> contains(
                s,
                #[trigger] tokenized(s).unwrap()[i],
            ),
{
    lemma_quote_free_scan_pieces(s, s.len() as int);
    assert(s.take(s.len() as int) =~= s);
    let last = scan(s);
    let tokens = tokenized(s).unwrap();
    if last.current.len() > 0 {
        assert(occurs_at(s, last.current, s.len() - last.current.len()));
    }
    assert forall|i: int| 0 <= i < tokens.len() implies contains(s, #[trigger] tokens[i]) by {
        if i < last.tokens.len() {
            assert(tokens[i] == last.tokens[i]);
        }
    }
}

/// Splits a command line into its tokens.
///
/// Fails with `UnterminatedEscape` when the text ends right after an escaping
/// backslash, and with `UnterminatedQuote` when a quote stays open.
pub fn split_command_line(command_line: &str) -> (r: Result<Vec<String>, ParseError>)
    ensures
        match r {
            Ok(tokens) => tokenized(command_line@) == Ok::<Seq<Seq<char>>, ParseError>(
                texts(tokens@),
            ),
            Err(e) => tokenized(command_line@) == Err::<Seq<Seq<char>>, ParseError>(e),
        },
        r matches Ok(tokens) ==> forall|i: int|
            0 <= i < tokens.len() ==> (#[trigger] tokens[i])@.len() > 0,
{
    let chars = chars_of(command_line);
    let mut tokens: Vec<String> = Vec::new();
    let mut current = String::new();
    let mut in_single_quote = false;
    let mut in_double_quote = false;
    let mut escape_next = false;
    let mut i: usize = 0;
    assert(texts(tokens@) =~= Seq::<Seq<char>>::empty());
    assert(chars@.take(0) =~= Seq::<char>::empty());
    while i < chars.len()
        invariant
            i <= chars.len(),
            scan(chars@.take(i as int)) == (Scan {
                tokens: texts(tokens@),
                current: current@,
                in_single_quote,
                in_double_quote,
                escape_next,
            }),
        decreases chars.len() - i,
    {
        let ch = chars[i];
        proof {
            let next = chars@.take(i + 1);
            assert(next.drop_last() =~= chars@.take(i as int));
            assert(next.last() == ch);
        }
        if escape_next {
            current.push(ch);
            escape_next = false;
        } else if ch == '\\' && !in_single_quote {
            escape_next = true;
        } else if ch == '"' && !in_single_quote {
            in_double_quote = !in_double_quote;
        } else if ch == '\'' && !in_double_quote {
            in_single_quote = !in_single_quote;
        } else if is_whitespace(ch) && !in_single_quote && !in_double_quote {
            if !current.as_str().is_empty() {
                let ghost before = tokens@;
                let done = current;
                tokens.push(done);
                current = String::new();
                assert(texts(tokens@) =~= texts(before).push(done@));
            }
        } else {
            current.push(ch);
        }
        i = i + 1;
    }
    assert(chars@.take(chars.len() as int) =~= chars@);
    if escape_next {
        return Err(ParseError::UnterminatedEscape);
    }
    if in_single_quote || in_double_quote {
        return Err(ParseError::UnterminatedQuote);
    }
    if !current.as_str().is_empty() {
        let ghost before = tokens@;
        let done = current;
        tokens.push(done);
        assert(texts(tokens@) =~= texts(before).push(done@));
    }
    proof {
        let found = texts(tokens@);
        assert(tokenized(command_line@) == Ok::<Seq<Seq<char>>, ParseError>(found));
        lemma_tokens_nonempty(command_line@);
        assert forall|i: int| 0 <= i < tokens.len() implies (#[trigger] tokens[i])@.len() > 0 by {
            let split = tokenized(command_line@).unwrap();
            assert(split[i].len() > 0);
            assert(found[i] == tokens[i]@);
        }
    }
    Ok(tokens)
}

} // verus!
