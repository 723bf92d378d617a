//! Clean-up of submitted text: transliteration to ASCII, removal of markup
//! tags, wrapping and indentation.

use crate::data::texts;
use crate::error::RenderError;
use vstd::prelude::*;

verus! {

/// The column at which text is wrapped.
pub const WRAP_WIDTH: usize = 60;

/// The deepest indentation that is drawn; a comment nested deeper is drawn at
/// this depth.
pub const MAX_DEPTH: u8 = 2;

/// The pattern of a markup tag: from `<` to the nearest `>` on the same line.
pub const TAG_PATTERN: &'static str = "<.*?>";

/// The text that `deunicode::deunicode` gives for `text`.
pub uninterp spec fn transliterated(text: Seq<char>) -> Seq<char>;

/// The text that `regex::Regex::replace_all` gives when every match of
/// `pattern` in `text` is replaced by `replacement`; `None` where
/// `regex::Regex::new` refuses `pattern`.
pub uninterp spec fn replaced_all(
    pattern: Seq<char>,
    text: Seq<char>,
    replacement: Seq<char>,
) -> Option<Seq<char>>;

/// The text that `textwrap::fill` gives for `text` at `width` columns.
pub uninterp spec fn filled(text: Seq<char>, width: usize) -> Seq<char>;

/// Whether `c` is white space, as Unicode's property `White_Space` has it.
pub open spec fn is_space(c: char) -> bool {
    ('\u{9}' <= c && c <= '\u{d}') || c == ' ' || c == '\u{85}' || c == '\u{a0}' || c
        == '\u{1680}' || ('\u{2000}' <= c && c <= '\u{200a}') || c == '\u{2028}' || c
        == '\u{2029}' || c == '\u{202f}' || c == '\u{205f}' || c == '\u{3000}'
}

/// Whether `text` holds nothing but white space.
pub open spec fn is_blank(text: Seq<char>) -> bool {
    forall|i: int| 0 <= i < text.len() ==> is_space(#[trigger] text[i])
}

/// `text` without the white space at its end.
pub open spec fn trimmed_end(text: Seq<char>) -> Seq<char>
    decreases text.len(),
{
    if text.len() > 0 && is_space(text.last()) {
        trimmed_end(text.drop_last())
    } else {
        text
    }
}

/// The number of characters of `text` before its first line break, or all of
/// them where it has none.
pub open spec fn line_length(text: Seq<char>) -> nat
    decreases text.len(),
{
    if text.len() == 0 || text[0] == '\n' {
        0
    } else {
        1 + line_length(text.drop_first())
    }
}

/// What stands before `line` once it is indented by `prefix`: the prefix,
/// or the prefix without the white space at its end where the line is blank.
pub open spec fn line_prefix(line: Seq<char>, prefix: Seq<char>) -> Seq<char> {
    if is_blank(line) {
        trimmed_end(prefix)
    } else {
        prefix
    }
}

/// `text` with every line indented by `prefix`. Lines end at a line break;
/// the breaks stay where they are, and a blank line gets the prefix without
/// the white space at its end. Text without a character has no line.
pub open spec fn indented(text: Seq<char>, prefix: Seq<char>) -> Seq<char>
    decreases text.len(),
{
    if text.len() == 0 {
        Seq::empty()
    } else {
        let n = line_length(text) as int;
        let line = text.take(n);
        if n >= text.len() {
            line_prefix(line, prefix) + line
        } else {
            line_prefix(line, prefix) + line + seq!['\n'] + indented(text.skip(n + 1), prefix)
        }
    }
}

/// Calls `deunicode::deunicode`, which writes every character that is not
/// ASCII as an ASCII approximation. Its documentation guarantees that the
/// result holds ASCII characters only, and that every ASCII character is
/// mapped to itself: text that is ASCII already comes back as it went in.
#[verifier::external_body]
pub(crate) fn deunicode(text: &str) -> (out: String)
    ensures
        out@ == transliterated(text@),
        vstd::utf8::is_ascii_chars(out@),
        vstd::utf8::is_ascii_chars(text@) ==> out@ == text@,
{
    deunicode::deunicode(text)
}

/// Compiles `pattern` with `regex::Regex::new` and, where that succeeds,
/// calls `Regex::replace_all` on `text` with `replacement`. What comes back
/// goes by its name. One thing more is claimed, which the source shows:
/// with nothing put in their place, the matches are cut out and the rest is
/// pieces of `text`, so ASCII text stays ASCII.
#[verifier::external_body]
fn replace_all(pattern: &str, text: &str, replacement: &str) -> (out: Option<String>)
    ensures
        match replaced_all(pattern@, text@, replacement@) {
            Some(replaced) => out matches Some(s) && s@ == replaced,
            None => out is None,
        },
        replacement@.len() == 0 && vstd::utf8::is_ascii_chars(text@) ==> (out matches Some(s)
            ==> vstd::utf8::is_ascii_chars(s@)),
{
    match regex::Regex::new(pattern) {
        Ok(re) => Some(re.replace_all(text, replacement).into_owned()),
        Err(_) => None,
    }
}

/// Calls `textwrap::fill`, which breaks `text` into lines of at most `width`
/// columns. Nothing is claimed of the result beyond its name.
#[verifier::external_body]
fn fill(text: &str, width: usize) -> (out: String)
    ensures
        out@ == filled(text@, width),
{
    textwrap::fill(text, width)
}

/// Calls `textwrap::indent`. Its source splits `text` at the line breaks,
/// puts `prefix` before every line that is not blank and `prefix` without
/// its trailing white space before every blank one, and keeps the breaks, a
/// last one included. The contract says so.
#[verifier::external_body]
fn indent(text: &str, prefix: &str) -> (out: String)
    ensures
        out@ == indented(text@, prefix@),
{
    textwrap::indent(text, prefix)
}

/// The number of tabs drawn before a comment nested `level` deep.
pub open spec fn depth(level: u8) -> nat {
    if level >= MAX_DEPTH {
        MAX_DEPTH as nat
    } else {
        level as nat
    }
}

/// A run of `n` tab characters.
pub open spec fn tabs(n: nat) -> Seq<char> {
    Seq::new(n, |i: int| '\t')
}

/// A comment's text as it is drawn: wrapped at `WRAP_WIDTH` columns, then
/// indented by one tab for each level of nesting, up to `MAX_DEPTH`.
pub open spec fn indent_comment_text(text: Seq<char>, level: u8) -> Seq<char> {
    indented(filled(text, WRAP_WIDTH), tabs(depth(level)))
}

/// Submitted text as plain text: transliterated to ASCII, then without its
/// markup tags. `None` where the tag pattern does not compile.
pub open spec fn cleanup_text(comment: Seq<char>) -> Option<Seq<char>> {
    replaced_all(TAG_PATTERN@, transliterated(comment), Seq::empty())
}

/// Whether two texts hold the same characters.
pub fn same_text(a: &str, b: &str) -> (out: bool)
    ensures
        out == (a@ == b@),
{
    let left = String::from_str(a);
    let right = String::from_str(b);
    left == right
}

/// Whether `text` begins with `prefix`.
pub fn starts_with(text: &str, prefix: &str) -> (out: bool)
    ensures
        out == prefix@.is_prefix_of(text@),
{
    let n = prefix.unicode_len();
    if text.unicode_len() < n {
        return false;
    }
    same_text(text.substring_char(0, n), prefix)
}

/// The texts of `parts` in a row, with `separator` between each two.
pub open spec fn joined(parts: Seq<Seq<char>>, separator: Seq<char>) -> Seq<char>
    decreases parts.len(),
{
    if parts.len() == 0 {
        Seq::empty()
    } else if parts.len() == 1 {
        parts[0]
    } else {
        joined(parts.drop_last(), separator) + separator + parts.last()
    }
}

/// Writes the strings of `parts` in a row, with `separator` between each two.
pub fn join(parts: &Vec<String>, separator: &str) -> (out: String)
    ensures
        out@ == joined(texts(parts@), separator@),
{
    let mut out = String::new();
    let mut i: usize = 0;
    while i < parts.len()
        invariant
            i <= parts.len(),
            out@ == joined(texts(parts@).take(i as int), separator@),
        decreases parts.len() - i,
    {
        let ghost before = texts(parts@).take(i as int);
        let ghost after = texts(parts@).take(i + 1);
        assert(after.drop_last() =~= before);
        assert(after.last() == parts@[i as int]@);
        if i > 0 {
            out.append(separator);
        }
        out.append(parts[i].as_str());
        assert(out@ =~= joined(after, separator@));
        i += 1;
    }
    assert(texts(parts@).take(parts.len() as int) =~= texts(parts@));
    out
}

/// Whether every line of `text` that is not blank begins with `prefix`.
pub open spec fn every_line_begins(text: Seq<char>, prefix: Seq<char>) -> bool
    decreases text.len(),
{
    if text.len() == 0 {
        true
    } else {
        let n = line_length(text) as int;
        let line = text.take(n);
        (is_blank(line) || prefix.is_prefix_of(line)) && (n >= text.len() || every_line_begins(
            text.skip(n + 1),
            prefix,
        ))
    }
}

/// Whether `text` holds no line break.
pub open spec fn is_one_line(text: Seq<char>) -> bool {
    forall|i: int| 0 <= i < text.len() ==> #[trigger] text[i] != '\n'
}

/// A line ends at the first line break: no character before it is one, and
/// where the text goes on, a line break is what follows the line.
pub proof fn lemma_line_length(text: Seq<char>)
    ensures
        line_length(text) <= text.len(),
        is_one_line(text.take(line_length(text) as int)),
        line_length(text) < text.len() ==> text[line_length(text) as int] == '\n',
    decreases text.len(),
{
    if text.len() > 0 && text[0] != '\n' {
        let rest = text.drop_first();
        lemma_line_length(rest);
        let n = line_length(text) as int;
        assert forall|i: int| 0 <= i < n implies #[trigger] text.take(n)[i] != '\n' by {
            if i > 0 {
                assert(rest.take(n - 1)[i - 1] == text[i]);
            }
        }
    }
}

/// Text without a line break is one line, also where a line break and more
/// text follow it.
pub proof fn lemma_first_line(line: Seq<char>, rest: Seq<char>)
    requires
        is_one_line(line),
    ensures
        line_length(line) == line.len(),
        line_length(line + seq!['\n'] + rest) == line.len(),
    decreases line.len(),
{
    let whole = line + seq!['\n'] + rest;
    if line.len() == 0 {
        assert(whole[0] == '\n');
    } else {
        let shorter = line.drop_first();
        assert(is_one_line(shorter)) by {
            assert forall|i: int| 0 <= i < shorter.len() implies #[trigger] shorter[i] != '\n' by {
                assert(shorter[i] == line[i + 1]);
            }
        }
        lemma_first_line(shorter, rest);
        assert(whole[0] == line[0]);
        assert(whole.drop_first() =~= shorter + seq!['\n'] + rest);
    }
}

/// Nothing is left of a blank text once the white space at its end is cut.
pub proof fn lemma_trimmed_blank(text: Seq<char>)
    requires
        is_blank(text),
    ensures
        trimmed_end(text).len() == 0,
    decreases text.len(),
{
    if text.len() > 0 {
        assert(is_space(text.last()));
        assert(is_blank(text.drop_last())) by {
            assert forall|i: int| 0 <= i < text.drop_last().len() implies is_space(
                #[trigger] text.drop_last()[i],
            ) by {
                assert(text.drop_last()[i] == text[i]);
            }
        }
        lemma_trimmed_blank(text.drop_last());
    }
}

/// Text that is indented by white space on one line has that white space at
/// the beginning of each of its lines that is not blank.
pub proof fn lemma_indented_lines_begin(text: Seq<char>, prefix: Seq<char>)
    requires
        is_blank(prefix),
        is_one_line(prefix),
    ensures
        every_line_begins(indented(text, prefix), prefix),
    decreases text.len(),
{
    if text.len() > 0 {
        let n = line_length(text) as int;
        let line = text.take(n);
        lemma_line_length(text);
        lemma_trimmed_blank(prefix);
        let head = line_prefix(line, prefix) + line;
        assert(is_one_line(head)) by {
            assert forall|i: int| 0 <= i < head.len() implies #[trigger] head[i] != '\n' by {
                if is_blank(line) {
                    assert(head =~= line);
                } else if i < prefix.len() {
                    assert(head[i] == prefix[i]);
                } else {
                    assert(head[i] == line[i - prefix.len()]);
                }
            }
        }
        assert(is_blank(head) || prefix.is_prefix_of(head)) by {
            if is_blank(line) {
                assert(head =~= line);
            } else {
                assert(head.subrange(0, prefix.len() as int) =~= prefix);
            }
        }
        let out = indented(text, prefix);
        if n >= text.len() {
            lemma_first_line(head, Seq::empty());
            assert(out == head);
            if out.len() > 0 {
                assert(out.take(out.len() as int) =~= out);
            }
        } else {
            let rest = indented(text.skip(n + 1), prefix);
            lemma_indented_lines_begin(text.skip(n + 1), prefix);
            lemma_first_line(head, rest);
            assert(out == head + seq!['\n'] + rest);
            assert(out.take(head.len() as int) =~= head);
            assert(out.skip(head.len() as int + 1) =~= rest);
        }
    }
}

/// Indents every line of `text` by `prefix`: a line that is not blank gets
/// the prefix, a blank one the prefix without the white space at its end.
/// The line breaks stay where they are.
pub fn indent_lines(text: &str, prefix: &str) -> (out: String)
    ensures
        out@ == indented(text@, prefix@),
{
    indent(text, prefix)
}

/// Wraps `string` at `WRAP_WIDTH` columns and indents every line by one tab
/// for each level of nesting. Levels beyond `MAX_DEPTH` are drawn like
/// `MAX_DEPTH` itself. Every line of the result that is not blank begins
/// with the tabs of its level, and a blank line has none.
pub fn indent_comment(string: String, level: u8) -> (out: String)
    ensures
        out@ == indent_comment_text(string@, level),
        level >= MAX_DEPTH ==> out@ == indent_comment_text(string@, MAX_DEPTH),
        every_line_begins(out@, tabs(depth(level))),
{
    let wrapped = fill(string.as_str(), WRAP_WIDTH);
    proof {
        reveal_strlit("");
        reveal_strlit("\t");
        reveal_strlit("\t\t");
    }
    let prefix = if level == 0 {
        ""
    } else if level == 1 {
        "\t"
    } else {
        "\t\t"
    };
    assert(prefix@ =~= tabs(depth(level)));
    proof {
        lemma_indented_lines_begin(wrapped@, prefix@);
    }
    indent_lines(wrapped.as_str(), prefix)
}

/// Takes out of `text` everything that matches the regular expression
/// `pattern`. Fails where `pattern` is no regular expression. What is left
/// of ASCII text is ASCII.
pub fn strip(pattern: &str, text: &str) -> (out: Result<String, RenderError>)
    ensures
        match replaced_all(pattern@, text@, Seq::empty()) {
            Some(stripped) => out matches Ok(s) && s@ == stripped,
            None => out == Err::<String, RenderError>(RenderError::Pattern),
        },
        vstd::utf8::is_ascii_chars(text@) ==> (out matches Ok(s) ==> vstd::utf8::is_ascii_chars(
            s@,
        )),
{
    proof {
        reveal_strlit("");
    }
    assert(""@ =~= Seq::<char>::empty());
    match replace_all(pattern, text, "") {
        Some(stripped) => Ok(stripped),
        None => Err(RenderError::Pattern),
    }
}

/// Turns submitted text into plain text: transliterates it to ASCII and takes
/// out everything that looks like a markup tag. Fails only where the
/// regular-expression engine refuses the tag pattern. The result is ASCII,
/// and of text that is ASCII already, nothing but the tags is touched.
pub fn cleanup(comment: &str) -> (out: Result<String, RenderError>)
    ensures
        match cleanup_text(comment@) {
            Some(text) => out matches Ok(s) && s@ == text,
            None => out == Err::<String, RenderError>(RenderError::Pattern),
        },
        out matches Ok(s) ==> vstd::utf8::is_ascii_chars(s@),
        vstd::utf8::is_ascii_chars(comment@) ==> cleanup_text(comment@) == replaced_all(
            TAG_PATTERN@,
            comment@,
            Seq::empty(),
        ),
{
    let ascii = deunicode(comment);
    strip(TAG_PATTERN, ascii.as_str())
}

} // verus!
