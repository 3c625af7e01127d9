//! How a command-line argument is shown to the user.
use vstd::prelude::*;
use vstd::string::StringSliceAdditionalSpecFns;
use crate::text::{from_chars, to_chars};

verus! {

/// What `{:?}` writes for an OS string that holds the characters `text`.
pub uninterp spec fn quoted(text: Seq<char>) -> Seq<char>;

/// Formats `text` as the `Debug` impl of an OS string does (`{:?}` on a
/// `Path`, which hands the work on to its OS string). The result is named
/// [`quoted`]; it stands between two double quotes.
#[verifier::external_body]
fn debug_format(text: &str) -> (r: String)
    ensures
        r@ == quoted(text@),
        r@.len() >= 2,
        r@.first() == '"',
        r@.last() == '"',
{
    format!("{:?}", std::path::Path::new(text))
}

/// `s` with every pair of a backslash and the letter `n` turned into a line
/// feed, reading from the left.
pub open spec fn restore_newlines(s: Seq<char>) -> Seq<char>
    decreases s.len(),
{
    if s.len() == 0 {
        s
    } else if s.len() >= 2 && s[0] == '\\' && s[1] == 'n' {
        seq!['\n'] + restore_newlines(s.skip(2))
    } else {
        seq![s[0]] + restore_newlines(s.skip(1))
    }
}

/// How an argument that holds the characters `s` is shown: as it is when it
/// has neither a space nor a line feed; quoted when it has a space; quoted,
/// with its line feeds written out as line feeds, when it has a line feed.
pub open spec fn display_text(s: Seq<char>) -> Seq<char> {
    if s.contains('\n') {
        restore_newlines(quoted(s))
    } else if s.contains(' ') {
        quoted(s)
    } else {
        s
    }
}

/// An argument without a space or a line feed is shown unchanged; with a
/// space and no line feed it is shown in its quoted form; with a line feed
/// that form has its escaped line feeds written as line feeds again.
pub proof fn lemma_display_text(s: Seq<char>)
    ensures
        !s.contains(' ') && !s.contains('\n') ==> display_text(s) == s,
        s.contains(' ') && !s.contains('\n') ==> display_text(s) == quoted(s),
        s.contains('\n') ==> display_text(s) == restore_newlines(quoted(s)),
{
}

/// An escaped line feed is not lost: a text that holds a backslash with
/// the letter `n` behind it holds a line feed once its line feeds are
/// restored.
pub proof fn lemma_escaped_newline_is_restored(s: Seq<char>, at: int)
    requires
        0 <= at < s.len() - 1,
        s[at] == '\\',
        s[at + 1] == 'n',
    ensures
        restore_newlines(s).contains('\n'),
    decreases s.len(),
{
    if s[0] == '\\' && s[1] == 'n' {
        assert(restore_newlines(s)[0] == '\n');
    } else {
        let rest = s.skip(1);
        assert(rest[at - 1] == s[at] && rest[at] == s[at + 1]);
        lemma_escaped_newline_is_restored(rest, at - 1);
        let i = choose|i: int|
            0 <= i < restore_newlines(rest).len() && restore_newlines(rest)[i] == '\n';
        assert(restore_newlines(s)[i + 1] == '\n');
    }
}

/// Whether `c` occurs among the characters.
pub fn contains_char(chars: &Vec<char>, c: char) -> (r: bool)
    ensures
        r == chars@.contains(c),
{
    let mut i: usize = 0;
    while i < chars.len()
        invariant
            i <= chars.len(),
            forall|j: int| 0 <= j < i ==> chars@[j] != c,
        decreases chars.len() - i,
    {
        if chars[i] == c {
            return true;
        }
        i += 1;
    }
    false
}

/// Turns each escaped line feed of `chars` back into a line feed.
pub fn unescape_newlines(chars: &Vec<char>) -> (r: String)
    ensures
        r@ == restore_newlines(chars@),
{
    let mut r = String::new();
    let mut i: usize = 0;
    proof {
        assert(chars@.skip(0) =~= chars@);
        assert(r@ + restore_newlines(chars@) =~= restore_newlines(chars@));
    }
    while i < chars.len()
        invariant
            i <= chars.len(),
            r@ + restore_newlines(chars@.skip(i as int)) == restore_newlines(chars@),
        decreases chars.len() - i,
    {
        let ghost rest = chars@.skip(i as int);
        let ghost before = r@;
        if chars[i] == '\\' && i + 1 < chars.len() && chars[i + 1] == 'n' {
            r.push('\n');
            i += 2;
            proof {
                assert(rest.skip(2) =~= chars@.skip(i as int));
                assert(r@ + restore_newlines(rest.skip(2)) =~= before + (seq!['\n']
                    + restore_newlines(rest.skip(2))));
            }
        } else {
            r.push(chars[i]);
            i += 1;
            proof {
                assert(rest.skip(1) =~= chars@.skip(i as int));
                assert(r@ + restore_newlines(rest.skip(1)) =~= before + (seq![rest[0]]
                    + restore_newlines(rest.skip(1))));
            }
        }
    }
    assert(r@ + restore_newlines(chars@.skip(i as int)) =~= r@);
    r
}

/// Reading a text as bytes.
pub trait OsStrExt3 {
    /// The bytes that encode the text.
    spec fn encoded(&self) -> Seq<u8>;

    /// The bytes of the text, in its UTF-8 encoding.
    fn as_bytes(&self) -> (r: &[u8])
        ensures
            r@ == self.encoded(),
    ;
}

impl OsStrExt3 for str {
    open spec fn encoded(&self) -> Seq<u8> {
        self.spec_bytes()
    }

    fn as_bytes(&self) -> (r: &[u8]) {
        str::as_bytes(self)
    }
}

/// Looking into an argument, and showing it.
pub trait OsStrExt2 {
    /// The characters of the argument.
    spec fn characters(&self) -> Seq<char>;

    /// The bytes that encode the argument.
    spec fn byte_seq(&self) -> Seq<u8>;

    /// Check if the argument contains the byte.
    fn contains_byte(&self, byte: u8) -> (r: bool)
        ensures
            r == self.byte_seq().contains(byte),
    ;

    /// Return the *formatted* string representation of the argument, as it
    /// is shown in a command line.
    fn display_string(&self) -> (r: String)
        ensures
            r@ == display_text(self.characters()),
            self.characters().contains(' ') || self.characters().contains('\n') ==> r@.len() > 0
                && r@[0] == '"',
            self.characters().contains(' ') && !self.characters().contains('\n') ==> r@.len() >= 2
                && r@.last() == '"',
    ;
}

impl OsStrExt2 for str {
    open spec fn characters(&self) -> Seq<char> {
        self@
    }

    open spec fn byte_seq(&self) -> Seq<u8> {
        self.spec_bytes()
    }

    fn contains_byte(&self, byte: u8) -> (r: bool) {
        let bytes = str::as_bytes(self);
        let mut i: usize = 0;
        while i < bytes.len()
            invariant
                i <= bytes.len(),
                bytes@ == self.spec_bytes(),
                forall|j: int| 0 <= j < i ==> bytes@[j] != byte,
            decreases bytes.len() - i,
        {
            if bytes[i] == byte {
                return true;
            }
            i += 1;
        }
        false
    }

    fn display_string(&self) -> (r: String) {
        let chars = to_chars(self);
        if contains_char(&chars, '\n') {
            let shown = debug_format(self);
            let shown_chars = to_chars(shown.as_str());
            assert(restore_newlines(shown@)[0] == shown@[0]);
            unescape_newlines(&shown_chars)
        } else if contains_char(&chars, ' ') {
            debug_format(self)
        } else {
            from_chars(&chars, 0, chars.len())
        }
    }
}

} // verus!
