//! What the selector shows of an example: its name, and a preview of its
//! source in which comments and attributes stand out.
use vstd::prelude::*;
use colored::Colorize;
use crate::text::{
    from_chars, is_space, join, join_with, lemma_line_len, lemma_texts_push, line_len, space,
    texts, to_chars,
};

verus! {

/// What `colored` writes for `text` in bold, where colouring is on.
pub uninterp spec fn bold_form(text: Seq<char>) -> Seq<char>;

/// What `colored` writes for `text` in red on white, where colouring is on.
pub uninterp spec fn alert_form(text: Seq<char>) -> Seq<char>;

/// What `colored` writes for `text` in bold bright white on black, where
/// colouring is on.
pub uninterp spec fn doc_comment_form(text: Seq<char>) -> Seq<char>;

/// What `colored` writes for `text` in bold white, where colouring is on.
pub uninterp spec fn comment_form(text: Seq<char>) -> Seq<char>;

/// What `colored` writes for `text` in italic white, where colouring is on.
pub uninterp spec fn attribute_form(text: Seq<char>) -> Seq<char>;

/// `Colorize::bold` of `colored`, written out. Whether colouring is on
/// depends on the terminal and the environment: the result is the text
/// itself, or its coloured form, named [`bold_form`].
#[verifier::external_body]
fn bold(text: &str) -> (r: String)
    ensures
        r@ == text@ || r@ == bold_form(text@),
{
    text.bold().to_string()
}

/// `Colorize::red` and `on_white` of `colored`, written out: the text
/// itself, or its coloured form, named [`alert_form`].
#[verifier::external_body]
fn red_on_white(text: &str) -> (r: String)
    ensures
        r@ == text@ || r@ == alert_form(text@),
{
    text.red().on_white().to_string()
}

/// `Colorize::bright_white`, `on_black` and `bold` of `colored`, written
/// out: the text itself, or its coloured form, named [`doc_comment_form`].
#[verifier::external_body]
fn bright_white_on_black_bold(text: &str) -> (r: String)
    ensures
        r@ == text@ || r@ == doc_comment_form(text@),
{
    text.bright_white().on_black().bold().to_string()
}

/// `Colorize::white` and `bold` of `colored`, written out: the text itself,
/// or its coloured form, named [`comment_form`].
#[verifier::external_body]
fn white_bold(text: &str) -> (r: String)
    ensures
        r@ == text@ || r@ == comment_form(text@),
{
    text.white().bold().to_string()
}

/// `Colorize::white` and `italic` of `colored`, written out: the text
/// itself, or its coloured form, named [`attribute_form`].
#[verifier::external_body]
fn white_italic(text: &str) -> (r: String)
    ensures
        r@ == text@ || r@ == attribute_form(text@),
{
    text.white().italic().to_string()
}

/// What a line of source is, for the preview.
#[derive(Clone, Copy, Debug, PartialEq, Eq, Structural)]
pub enum LineKind {
    /// A comment that documents what holds it: `//!`
    DocComment,
    /// Any other comment: `//`
    Comment,
    /// An attribute: `#[`
    Attribute,
    /// Anything else
    Plain,
}

/// The number of white-space characters that `s` begins with.
pub open spec fn indent(s: Seq<char>) -> nat
    decreases s.len(),
{
    if s.len() > 0 && is_space(s[0]) {
        1 + indent(s.skip(1))
    } else {
        0
    }
}

/// What is left of `s` without the white space that it begins with.
pub open spec fn trim_start_of(s: Seq<char>) -> Seq<char> {
    s.skip(indent(s) as int)
}

/// The kind of a line goes by what it begins with, after its indentation.
pub open spec fn line_kind(line: Seq<char>) -> LineKind {
    let t = trim_start_of(line);
    if t.len() >= 3 && t[0] == '/' && t[1] == '/' && t[2] == '!' {
        LineKind::DocComment
    } else if t.len() >= 2 && t[0] == '/' && t[1] == '/' {
        LineKind::Comment
    } else if t.len() >= 2 && t[0] == '#' && t[1] == '[' {
        LineKind::Attribute
    } else {
        LineKind::Plain
    }
}

/// A line without the carriage return that stood before its line feed.
pub open spec fn without_cr(line: Seq<char>) -> Seq<char> {
    if line.len() > 0 && line.last() == '\r' {
        line.drop_last()
    } else {
        line
    }
}

/// The lines of a text. A line ends with a line feed, or with a carriage
/// return and a line feed, which are no part of it; the last line needs no
/// line ending.
pub open spec fn lines_of(s: Seq<char>) -> Seq<Seq<char>>
    decreases s.len(),
{
    if s.len() == 0 {
        Seq::empty()
    } else {
        let n = line_len(s) as int;
        if n < s.len() {
            seq![without_cr(s.take(n))] + lines_of(s.skip(n + 1))
        } else {
            seq![s]
        }
    }
}

/// How a line may be shown: a plain line as it is; a comment or an
/// attribute as it is, or in the colours of its kind.
pub open spec fn shows(line: Seq<char>, shown: Seq<char>) -> bool {
    match line_kind(line) {
        LineKind::DocComment => shown == line || shown == doc_comment_form(line),
        LineKind::Comment => shown == line || shown == comment_form(line),
        LineKind::Attribute => shown == line || shown == attribute_form(line),
        LineKind::Plain => shown == line,
    }
}

/// The preview made of the shown lines: a line feed, then the lines with a
/// line feed between neighbours.
pub open spec fn preview_text(shown: Seq<Seq<char>>) -> Seq<char> {
    seq!['\n'] + join_with(shown, "\n"@)
}

/// The text of an error banner: a line feed, the label, a colon and a space,
/// and the message.
pub open spec fn banner_text(label: Seq<char>, message: Seq<char>) -> Seq<char> {
    seq!['\n'] + label + seq![':', ' '] + message
}

/// Whether `shown` is a preview of the source text `contents`.
pub open spec fn is_preview_of(contents: Seq<char>, shown: Seq<char>) -> bool {
    exists|lines: Seq<Seq<char>>|
        #![trigger preview_text(lines)]
        lines.len() == lines_of(contents).len() && (forall|i: int|
            0 <= i < lines.len() ==> shows(lines_of(contents)[i], #[trigger] lines[i])) && shown
            == preview_text(lines)
}

/// Whether `shown` is the banner for an error with this message: the label
/// `error`, plain or bold, and the whole plain or in red on white.
pub open spec fn is_error_banner(message: Seq<char>, shown: Seq<char>) -> bool {
    exists|label: Seq<char>|
        #![trigger banner_text(label, message)]
        (label == "error"@ || label == bold_form("error"@)) && (shown == banner_text(label, message)
            || shown == alert_form(banner_text(label, message)))
}

proof fn lemma_indent(s: Seq<char>, n: int)
    requires
        0 <= n <= s.len(),
        forall|i: int| 0 <= i < n ==> is_space(s[i]),
        n == s.len() || !is_space(s[n]),
    ensures
        indent(s) == n,
    decreases n,
{
    if n > 0 {
        assert forall|i: int| 0 <= i < n - 1 implies is_space(s.skip(1)[i]) by {
            assert(s.skip(1)[i] == s[i + 1]);
        }
        lemma_indent(s.skip(1), n - 1);
    }
}

/// Tells what kind of line this is.
pub fn kind_of_line(line: &str) -> (r: LineKind)
    ensures
        r == line_kind(line@),
{
    let chars = to_chars(line);
    let mut i: usize = 0;
    while i < chars.len() && space(chars[i])
        invariant
            i <= chars.len(),
            forall|j: int| 0 <= j < i ==> is_space(chars@[j]),
        decreases chars.len() - i,
    {
        i += 1;
    }
    proof {
        lemma_indent(chars@, i as int);
    }
    let left = chars.len() - i;
    if left >= 3 && chars[i] == '/' && chars[i + 1] == '/' && chars[i + 2] == '!' {
        LineKind::DocComment
    } else if left >= 2 && chars[i] == '/' && chars[i + 1] == '/' {
        LineKind::Comment
    } else if left >= 2 && chars[i] == '#' && chars[i + 1] == '[' {
        LineKind::Attribute
    } else {
        LineKind::Plain
    }
}

/// Splits a text into its lines.
pub fn lines(contents: &str) -> (r: Vec<String>)
    ensures
        texts(r@) == lines_of(contents@),
{
    let chars = to_chars(contents);
    let mut r: Vec<String> = Vec::new();
    let mut start: usize = 0;
    proof {
        assert(chars@.skip(0) =~= chars@);
        assert(texts(r@) + lines_of(chars@) =~= lines_of(chars@));
    }
    while start < chars.len()
        invariant
            start <= chars.len(),
            texts(r@) + lines_of(chars@.skip(start as int)) == lines_of(chars@),
        decreases chars.len() - start,
    {
        let ghost rest = chars@.skip(start as int);
        let ghost before = texts(r@);
        let mut end: usize = start;
        while end < chars.len() && chars[end] != '\n'
            invariant
                start <= end <= chars.len(),
                forall|j: int| start <= j < end ==> chars@[j] != '\n',
            decreases chars.len() - end,
        {
            end += 1;
        }
        proof {
            assert forall|j: int| 0 <= j < end - start implies rest[j] != '\n' by {
                assert(rest[j] == chars@[start + j]);
            }
            lemma_line_len(rest, end - start);
            assert(rest.take(end - start) =~= chars@.subrange(start as int, end as int));
        }
        if end < chars.len() {
            let stop = if end > start && chars[end - 1] == '\r' {
                end - 1
            } else {
                end
            };
            let line = from_chars(&chars, start, stop);
            proof {
                assert(line@ =~= without_cr(rest.take(end - start)));
                lemma_texts_push(r@, line);
                assert(rest.skip(end - start + 1) =~= chars@.skip(end + 1));
                assert(before.push(line@) + lines_of(chars@.skip(end + 1)) =~= before + (seq![
                    line@,
                ] + lines_of(rest.skip(end - start + 1))));
            }
            r.push(line);
            start = end + 1;
        } else {
            let line = from_chars(&chars, start, end);
            proof {
                assert(line@ =~= rest);
                lemma_texts_push(r@, line);
                assert(chars@.skip(end as int).len() == 0);
                assert(before.push(line@) + lines_of(chars@.skip(end as int)) =~= before + seq![
                    rest,
                ]);
            }
            r.push(line);
            start = end;
        }
    }
    assert(texts(r@) + lines_of(chars@.skip(start as int)) =~= texts(r@));
    r
}

/// Puts the shown lines together into a preview.
pub fn assemble_preview(shown: &Vec<String>) -> (r: String)
    ensures
        r@ == preview_text(texts(shown@)),
{
    let body = join(shown, "\n");
    let mut r = String::new();
    r.push('\n');
    r.append(body.as_str());
    assert(r@ =~= preview_text(texts(shown@)));
    r
}

/// Puts a label and a message together into the text of an error banner.
pub fn assemble_banner(label: &str, message: &str) -> (r: String)
    ensures
        r@ == banner_text(label@, message@),
{
    let mut r = String::new();
    r.push('\n');
    r.append(label);
    r.push(':');
    r.push(' ');
    r.append(message);
    assert(r@ =~= banner_text(label@, message@));
    r
}

/// The banner that stands in for a preview that could not be made.
pub fn format_err<E: std::fmt::Display>(e: E) -> (r: String)
    ensures
        exists|message: String|
            vstd::string::to_string_from_display_ensures::<E>(&e, message) && is_error_banner(
                #[trigger] message@,
                r@,
            ),
{
    let message = e.to_string();
    let label = bold("error");
    let banner = assemble_banner(label.as_str(), message.as_str());
    let r = red_on_white(banner.as_str());
    assert(r@ == banner_text(label@, message@) || r@ == alert_form(banner_text(label@, message@)));
    assert(is_error_banner(message@, r@));
    r
}

/// Represents an *example file* item
#[derive(Clone, Debug)]
pub struct ExampleFileItem {
    /// Absolute file path to the *example*
    pub file_path: String,
    /// Filename of the *example*, excluding the file extension
    pub file_stem: String,
}

/// How one line is shown in the preview.
pub fn show_line(line: &str) -> (r: String)
    ensures
        shows(line@, r@),
{
    match kind_of_line(line) {
        LineKind::DocComment => bright_white_on_black_bold(line),
        LineKind::Comment => white_bold(line),
        LineKind::Attribute => white_italic(line),
        LineKind::Plain => line.to_owned(),
    }
}

impl ExampleFileItem {
    /// The label under which the selector lists the example: its name.
    pub fn text(&self) -> (r: &str)
        ensures
            r@ == self.file_stem@,
    {
        self.file_stem.as_str()
    }

    /// The preview of the example, given what reading its source gave: the
    /// contents, or the text of the error. The preview of contents shows each
    /// line, comments and attributes set apart; that of an error is its
    /// banner.
    pub fn preview(&self, source: Result<&str, &str>) -> (r: String)
        ensures
            match source {
                Ok(contents) => is_preview_of(contents@, r@),
                Err(e) => is_error_banner(e@, r@),
            },
    {
        match source {
            Ok(contents) => {
                let all = lines(contents);
                let mut shown: Vec<String> = Vec::new();
                let mut i: usize = 0;
                while i < all.len()
                    invariant
                        i <= all.len(),
                        shown@.len() == i,
                        forall|j: int|
                            0 <= j < i ==> shows(all@[j]@, #[trigger] texts(shown@)[j]),
                    decreases all.len() - i,
                {
                    let one = show_line(all[i].as_str());
                    proof {
                        lemma_texts_push(shown@, one);
                    }
                    shown.push(one);
                    i += 1;
                }
                let r = assemble_preview(&shown);
                proof {
                    let witness = texts(shown@);
                    assert forall|j: int| 0 <= j < witness.len() implies shows(
                        lines_of(contents@)[j],
                        #[trigger] witness[j],
                    ) by {
                        assert(texts(all@)[j] == all@[j]@);
                    }
                    assert(r@ == preview_text(witness));
                }
                r
            },
            Err(e) => {
                let label = bold("error");
                let banner = assemble_banner(label.as_str(), e);
                let r = red_on_white(banner.as_str());
                assert(r@ == banner_text(label@, e@) || r@ == alert_form(banner_text(label@, e@)));
                r
            },
        }
    }
}

} // verus!
