//! The command line as it is shown to the user.
//!
//! The display string is meant to be pasted into a shell: an argument made
//! of safe characters only stands bare, any other stands in double quotes
//! with its backslashes and double quotes escaped. It is not the inverse of
//! the tokenizer.

use vstd::prelude::*;
use crate::builder::{build_ffmpeg_args_for, ffmpeg_args_for, BuildError, Failure};
use crate::request::{JobPayload, JobRequest};
use crate::text::{
    chars_of, has_text, is_space, join_texts, joined, nonblank, option_text, text_from_option,
    texts, trim, trimmed,
};
use crate::tokenizer::{
    lemma_scan_from_concat, lemma_scan_from_one, scan_at_rest, scan_from, scan_start, scan_step,
    tokenized, ParseError, Scan,
};

verus! {

/// The command line of a request, as tokens and as one display string.
#[derive(Debug, Clone, PartialEq, Eq)]
pub struct PreviewResponse {
    pub args: Vec<String>,
    pub command: String,
}

/// A character that needs no quoting: an ASCII letter or digit, or one of
/// `_ . / : = + , -`.
pub open spec fn safe_char(c: char) -> bool {
    ||| ('a' <= c && c <= 'z')
    ||| ('A' <= c && c <= 'Z')
    ||| ('0' <= c && c <= '9')
    ||| c == '_'
    ||| c == '.'
    ||| c == '/'
    ||| c == ':'
    ||| c == '='
    ||| c == '+'
    ||| c == ','
    ||| c == '-'
}

/// Every character of `s` is safe.
pub open spec fn safe_text(s: Seq<char>) -> bool {
    forall|i: int| 0 <= i < s.len() ==> safe_char(#[trigger] s[i])
}

/// A character as it stands inside double quotes: a backslash in front of a
/// backslash and of a double quote.
pub open spec fn escaped_char(c: char) -> Seq<char> {
    if c == '\\' || c == '"' {
        seq!['\\', c]
    } else {
        seq![c]
    }
}

/// A text as it stands inside double quotes.
pub open spec fn escaped(s: Seq<char>) -> Seq<char>
    decreases s.len(),
{
    if s.len() == 0 {
        Seq::empty()
    } else {
        escaped(s.drop_last()) + escaped_char(s.last())
    }
}

/// An argument as it is displayed: a pair of double quotes for the empty
/// one, itself when it is safe, else quoted and escaped.
pub open spec fn quoted(s: Seq<char>) -> Seq<char> {
    if s.len() == 0 {
        seq!['"', '"']
    } else if safe_text(s) {
        s
    } else {
        seq!['"'] + escaped(s) + seq!['"']
    }
}

/// Every argument as it is displayed.
pub open spec fn quoted_all(args: Seq<Seq<char>>) -> Seq<Seq<char>> {
    Seq::new(args.len(), |i: int| quoted(args[i]))
}

/// The program that is displayed: the trimmed path, or `ffmpeg` when the
/// path is blank.
pub open spec fn binary_name(binary_path: Seq<char>) -> Seq<char> {
    if nonblank(binary_path) {
        trimmed(binary_path)
    } else {
        "ffmpeg"@
    }
}

/// The display string of a program and its arguments: each one quoted as
/// needed, with single blanks between them.
pub open spec fn command_preview(binary_path: Seq<char>, args: Seq<Seq<char>>) -> Seq<char> {
    joined(seq![quoted(binary_name(binary_path))] + quoted_all(args), " "@)
}

/// The input path that a preview is built for: the request's, or the
/// placeholder when the request has none.
pub open spec fn preview_input(job: JobRequest) -> Seq<char> {
    let text = option_text(job.input_path);
    if nonblank(text) {
        text
    } else {
        "{input}"@
    }
}

/// The output path that a preview is built for.
pub open spec fn preview_output(job: JobRequest) -> Seq<char> {
    let text = option_text(job.output_path);
    if nonblank(text) {
        text
    } else {
        "{output}"@
    }
}

/// The program path that a preview shows.
pub open spec fn preview_binary(job: JobRequest) -> Seq<char> {
    let text = option_text(job.ffmpeg_path);
    if nonblank(text) {
        text
    } else {
        "ffmpeg"@
    }
}

/// Whether `c` needs no quoting.
fn is_safe_char(c: char) -> (r: bool)
    ensures
        r == safe_char(c),
{
    ('a' <= c && c <= 'z') || ('A' <= c && c <= 'Z') || ('0' <= c && c <= '9') || c == '_' || c
        == '.' || c == '/' || c == ':' || c == '=' || c == '+' || c == ',' || c == '-'
}

/// Whether `text` can be displayed without quotes: all of its characters are
/// ASCII letters, digits, or among `_ . / : = + , -`.
pub fn is_safe_preview_arg(text: &str) -> (r: bool)
    ensures
        r == safe_text(text@),
{
    let chars = chars_of(text);
    let mut i: usize = 0;
    while i < chars.len()
        invariant
            i <= chars.len(),
            chars@ == text@,
            forall|j: int| 0 <= j < i ==> safe_char(#[trigger] chars@[j]),
        decreases chars.len() - i,
    {
        if !is_safe_char(chars[i]) {
            return false;
        }
        i = i + 1;
    }
    true
}

/// The argument as it is displayed.
pub fn quote_command_arg(value: &str) -> (r: String)
    ensures
        r@ == quoted(value@),
{
    let chars = chars_of(value);
    if chars.len() == 0 {
        let mut empty = String::new();
        empty.push('"');
        empty.push('"');
        assert(empty@ =~= seq!['"', '"']);
        return empty;
    }
    if is_safe_preview_arg(value) {
        return value.to_string();
    }
    let mut out = String::new();
    out.push('"');
    let mut i: usize = 0;
    assert(chars@.take(0) =~= Seq::<char>::empty());
    assert(out@ =~= seq!['"'] + escaped(chars@.take(0)));
    while i < chars.len()
        invariant
            i <= chars.len(),
            out@ == seq!['"'] + escaped(chars@.take(i as int)),
        decreases chars.len() - i,
    {
        let c = chars[i];
        let ghost before = out@;
        proof {
            let next = chars@.take(i + 1);
            assert(next.drop_last() =~= chars@.take(i as int));
            assert(next.last() == c);
        }
        if c == '\\' || c == '"' {
            out.push('\\');
        }
        out.push(c);
        assert(out@ =~= before + escaped_char(c));
        assert(out@ =~= seq!['"'] + escaped(chars@.take(i + 1)));
        i = i + 1;
    }
    assert(chars@.take(chars.len() as int) =~= chars@);
    out.push('"');
    out
}

/// The display string of a program and its arguments. A blank program path
/// is shown as `ffmpeg`.
pub fn format_command_preview(binary_path: &str, args: &[String]) -> (r: String)
    ensures
        r@ == command_preview(binary_path@, texts(args@)),
{
    let binary = if has_text(binary_path) {
        trim(binary_path)
    } else {
        "ffmpeg".to_string()
    };
    let mut command: Vec<String> = Vec::new();
    command.push(quote_command_arg(binary.as_str()));
    let mut i: usize = 0;
    assert(texts(command@) =~= seq![quoted(binary_name(binary_path@))] + quoted_all(
        texts(args@).take(0),
    ));
    while i < args.len()
        invariant
            i <= args.len(),
            texts(command@) == seq![quoted(binary_name(binary_path@))] + quoted_all(
                texts(args@).take(i as int),
            ),
        decreases args.len() - i,
    {
        let ghost before = texts(command@);
        let shown = quote_command_arg(args[i].as_str());
        command.push(shown);
        assert(texts(command@) =~= before.push(shown@));
        assert(texts(command@) =~= seq![quoted(binary_name(binary_path@))] + quoted_all(
            texts(args@).take(i + 1),
        ));
        i = i + 1;
    }
    assert(texts(args@).take(args.len() as int) =~= texts(args@));
    join_texts(&command, " ")
}

/// The argument list and display string that a request would run, with the
/// placeholders `{input}` and `{output}` in place of paths that the request
/// does not give.
pub fn preview(payload: &JobPayload) -> (r: Result<PreviewResponse, BuildError>)
    ensures
        match r {
            Ok(response) => {
                &&& ffmpeg_args_for(payload@, preview_input(payload@), preview_output(payload@))
                    == Ok::<Seq<Seq<char>>, Failure>(texts(response.args@))
                &&& response.command@ == command_preview(
                    preview_binary(payload@),
                    texts(response.args@),
                )
            },
            Err(e) => ffmpeg_args_for(payload@, preview_input(payload@), preview_output(payload@))
                == Err::<Seq<Seq<char>>, Failure>(e@),
        },
{
    let ffmpeg_path = {
        let text = text_from_option(&payload.ffmpeg_path);
        if has_text(text.as_str()) {
            text
        } else {
            "ffmpeg".to_string()
        }
    };
    let input_path = {
        let text = text_from_option(&payload.input_path);
        if has_text(text.as_str()) {
            text
        } else {
            "{input}".to_string()
        }
    };
    let output_path = {
        let text = text_from_option(&payload.output_path);
        if has_text(text.as_str()) {
            text
        } else {
            "{output}".to_string()
        }
    };
    let args = match build_ffmpeg_args_for(payload, input_path, output_path) {
        Ok(args) => args,
        Err(e) => {
            return Err(e);
        },
    };
    let command = format_command_preview(ffmpeg_path.as_str(), args.as_slice());
    Ok(PreviewResponse { args, command })
}

/// The texts of `items` that have a character, in their order.
pub open spec fn kept(items: Seq<Seq<char>>) -> Seq<Seq<char>>
    decreases items.len(),
{
    if items.len() == 0 {
        Seq::empty()
    } else if items.last().len() > 0 {
        kept(items.drop_last()).push(items.last())
    } else {
        kept(items.drop_last())
    }
}

/// The state inside a double-quoted stretch.
spec fn scan_in_double(tokens: Seq<Seq<char>>, current: Seq<char>) -> Scan {
    Scan { tokens, current, in_single_quote: false, in_double_quote: true, escape_next: false }
}

/// Safe characters, read outside quotes, all go to the token being read.
proof fn lemma_safe_text_is_read_bare(tokens: Seq<Seq<char>>, current: Seq<char>, s: Seq<char>)
    requires
        safe_text(s),
    ensures
        scan_from(scan_at_rest(tokens, current), s) == scan_at_rest(tokens, current + s),
    decreases s.len(),
{
    if s.len() == 0 {
        assert(current + s =~= current);
    } else {
        let shorter = s.drop_last();
        assert forall|i: int| 0 <= i < shorter.len() implies safe_char(#[trigger] shorter[i]) by {
            assert(shorter[i] == s[i]);
        }
        lemma_safe_text_is_read_bare(tokens, current, shorter);
        assert(safe_char(s[s.len() - 1]));
        assert(!is_space(s.last()));
        assert((current + shorter).push(s.last()) =~= current + s);
    }
}

/// An escaped text, read inside double quotes, gives back the text.
proof fn lemma_escaped_is_read_back(tokens: Seq<Seq<char>>, current: Seq<char>, s: Seq<char>)
    ensures
        scan_from(scan_in_double(tokens, current), escaped(s)) == scan_in_double(
            tokens,
            current + s,
        ),
    decreases s.len(),
{
    if s.len() == 0 {
        assert(current + s =~= current);
    } else {
        let shorter = s.drop_last();
        let c = s.last();
        lemma_escaped_is_read_back(tokens, current, shorter);
        lemma_scan_from_concat(scan_in_double(tokens, current), escaped(shorter), escaped_char(c));
        let before = scan_in_double(tokens, current + shorter);
        let piece = escaped_char(c);
        assert((current + shorter).push(c) =~= current + s);
        if c == '\\' || c == '"' {
            assert(piece.drop_last() =~= seq!['\\']);
            assert(piece.last() == c);
            lemma_scan_from_one(before, '\\');
            assert(scan_from(before, piece) == scan_step(scan_step(before, '\\'), c));
        } else {
            assert(piece =~= seq![c]);
            lemma_scan_from_one(before, c);
        }
    }
}

/// An argument as it is displayed, read between two tokens, gives back the
/// argument as the token being read.
proof fn lemma_quoted_is_read_back(tokens: Seq<Seq<char>>, s: Seq<char>)
    ensures
        scan_from(scan_at_rest(tokens, Seq::empty()), quoted(s)) == scan_at_rest(tokens, s),
{
    let rest = scan_at_rest(tokens, Seq::empty());
    let open = seq!['"'];
    lemma_scan_from_one(rest, '"');
    assert(scan_from(rest, open) == scan_in_double(tokens, Seq::empty()));
    if s.len() == 0 {
        let both = seq!['"', '"'];
        assert(both.drop_last() =~= open);
        assert(s =~= Seq::<char>::empty());
    } else if safe_text(s) {
        lemma_safe_text_is_read_bare(tokens, Seq::empty(), s);
        assert(Seq::<char>::empty() + s =~= s);
    } else {
        lemma_scan_from_concat(rest, open, escaped(s));
        lemma_escaped_is_read_back(tokens, Seq::empty(), s);
        assert(Seq::<char>::empty() + s =~= s);
        let inner = open + escaped(s);
        assert((inner + open).drop_last() =~= inner);
        assert((inner + open).last() == '"');
    }
}

/// The displayed arguments, joined by blanks and read from the start, leave
/// the machine at rest with the last argument as the token being read and
/// the earlier ones that have a character as the complete tokens.
proof fn lemma_joined_is_read_back(items: Seq<Seq<char>>)
    requires
        items.len() > 0,
    ensures
        scan_from(scan_start(), joined(quoted_all(items), " "@)) == scan_at_rest(
            kept(items.drop_last()),
            items.last(),
        ),
    decreases items.len(),
{
    reveal_strlit(" ");
    let shown = quoted_all(items);
    if items.len() == 1 {
        assert(items.drop_last() =~= Seq::<Seq<char>>::empty());
        assert(shown[0] == quoted(items[0]));
        lemma_quoted_is_read_back(Seq::empty(), items[0]);
    } else {
        let earlier = items.drop_last();
        lemma_joined_is_read_back(earlier);
        assert(shown.drop_last() =~= quoted_all(earlier));
        assert(shown.last() == quoted(items.last()));
        let head = joined(quoted_all(earlier), " "@);
        let blank = " "@;
        assert(blank =~= seq![' ']);
        lemma_scan_from_concat(scan_start(), head + blank, quoted(items.last()));
        lemma_scan_from_concat(scan_start(), head, blank);
        let before = scan_at_rest(kept(earlier.drop_last()), earlier.last());
        lemma_scan_from_one(before, ' ');
        assert(is_space(' '));
        if earlier.last().len() == 0 {
            assert(earlier.last() =~= Seq::<char>::empty());
        }
        assert(scan_step(before, ' ') == scan_at_rest(kept(earlier), Seq::empty()));
        lemma_quoted_is_read_back(kept(earlier), items.last());
    }
}

/// The display string, given back to the tokenizer, splits into the program
/// and the arguments that it was made of, but for those without a character,
/// which vanish.
pub proof fn lemma_preview_splits_back(binary_path: Seq<char>, args: Seq<Seq<char>>)
    ensures
        tokenized(command_preview(binary_path, args)) == Ok::<Seq<Seq<char>>, ParseError>(
            kept(seq![binary_name(binary_path)] + args),
        ),
{
    let items = seq![binary_name(binary_path)] + args;
    assert(quoted_all(items) =~= seq![quoted(binary_name(binary_path))] + quoted_all(args));
    lemma_joined_is_read_back(items);
}

} // verus!
