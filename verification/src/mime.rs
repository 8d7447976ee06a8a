//! The media type of a file: guessed from its name, sniffed from its first
//! bytes where the name says nothing, and completed with a character set.
//!
//! The guess and the sniffing are the work of the `mime_guess` and
//! `mime_sniffer` crates. Their results are given names, and what is done
//! with them is stated over those names.

use vstd::prelude::*;
use crate::text::{
    chars_of, contains_chars, has_occurrence, starts_with_chars, starts_with_seq,
};

verus! {

/// The media type that the extension of a path stands for, or
/// `application/octet-stream` where it stands for none.
pub uninterp spec fn guessed_type(path: Seq<char>) -> Seq<char>;

/// The media type that the first bytes of a file show, for a file behind
/// the given URL, where they show one.
pub uninterp spec fn sniffed_type(content: Seq<u8>, url: Seq<char>) -> Option<Seq<char>>;

/// `mime_guess::from_path` and `MimeGuess::first_or_octet_stream`: the media
/// type for the extension of `path`, as text. No file is looked at.
#[verifier::external_body]
fn guess_from_path(path: &str) -> (r: String)
    ensures
        r@ == guessed_type(path@),
{
    mime_guess::from_path(path).first_or_octet_stream().to_string()
}

/// `MimeTypeSniffer::sniff_mime_type` on a `mime_sniffer::HttpRequest`
/// without a type hint: the media type that `content` shows. The URL is
/// ASCII: the sniffer cuts it by bytes.
#[verifier::external_body]
fn sniff_content(content: &Vec<u8>, url: &String) -> (r: Option<String>)
    requires
        url.is_ascii(),
    ensures
        match r {
            Some(mime) => sniffed_type(content@, url@) == Some(mime@),
            None => sniffed_type(content@, url@) is None,
        },
{
    let request = mime_sniffer::HttpRequest { content, url, type_hint: "" };
    mime_sniffer::MimeTypeSniffer::sniff_mime_type(&request).map(|mime| mime.to_owned())
}

/// A type says nothing when it is `application/octet-stream`.
pub open spec fn is_unknown(mime: Seq<char>) -> bool {
    mime == "application/octet-stream"@
}

/// A text type without a character set is UTF-8.
pub open spec fn completed(mime: Seq<char>) -> Seq<char> {
    if starts_with_seq(mime, "text/"@) && !has_occurrence(mime, "charset"@) {
        mime + "; charset=utf-8"@
    } else {
        mime
    }
}

/// An ASCII character as itself; any other character as `_`.
pub open spec fn ascii_char(c: char) -> char {
    if c <= '\u{7f}' {
        c
    } else {
        '_'
    }
}

/// A text with every character that is not ASCII replaced by `_`.
pub open spec fn ascii_text(s: Seq<char>) -> Seq<char> {
    Seq::new(s.len(), |i: int| ascii_char(s[i]))
}

/// The URL under which the content of a file is sniffed: the local host,
/// then the path made ASCII. The sniffer reads the URL for its extension
/// only, and no extension it knows holds `_`.
pub open spec fn local_url(path: Seq<char>) -> Seq<char> {
    "http://localhost"@ + ascii_text(path)
}

/// The type of a file whose name says nothing, from its first bytes: what
/// they show, completed; the empty type where they show nothing.
pub open spec fn type_of_content(path: Seq<char>, content: Seq<u8>) -> Seq<char> {
    match sniffed_type(content, local_url(path)) {
        Some(mime) => completed(mime),
        None => completed(Seq::empty()),
    }
}

/// The media type for the extension of `path`.
pub fn guess_mime(path: &str) -> (r: String)
    ensures
        r@ == guessed_type(path@),
{
    guess_from_path(path)
}

/// Whether a guessed type says nothing, so that the content is to be
/// sniffed.
pub fn needs_sniffing(mime: &str) -> (r: bool)
    ensures
        r == is_unknown(mime@),
{
    String::from_str(mime) == String::from_str("application/octet-stream")
}

/// Completes a text type that names no character set with UTF-8.
pub fn with_charset(mime: &str) -> (r: String)
    ensures
        r@ == completed(mime@),
{
    let chars = chars_of(mime);
    let text = chars_of("text/");
    let charset = chars_of("charset");
    if starts_with_chars(chars.as_slice(), text.as_slice()) && !contains_chars(
        chars.as_slice(),
        charset.as_slice(),
    ) {
        String::from_str(mime).concat("; charset=utf-8")
    } else {
        String::from_str(mime)
    }
}

/// Replaces every character of `text` that is not ASCII by `_`.
pub fn ascii_of(text: &str) -> (r: String)
    ensures
        r@ == ascii_text(text@),
        r.is_ascii(),
{
    if text.is_ascii() {
        proof {
            assert(ascii_text(text@) =~= text@);
        }
        return text.to_owned();
    }
    let chars = chars_of(text);
    let n: usize = chars.len();
    let mut out: String = String::new();
    let mut i: usize = 0;
    proof {
        assert(out@ =~= ascii_text(text@).take(0));
    }
    while i < n
        invariant
            chars@ == text@,
            n == chars@.len(),
            i <= n,
            out@ == ascii_text(text@).take(i as int),
        decreases n - i,
    {
        if chars[i] <= '\u{7f}' {
            out.append(text.substring_char(i, i + 1));
        } else {
            out.append("_");
        }
        proof {
            reveal_strlit("_");
            assert(out@ =~= ascii_text(text@).take(i + 1));
        }
        i += 1;
    }
    proof {
        assert(ascii_text(text@).take(n as int) =~= ascii_text(text@));
        assert(vstd::utf8::is_ascii_chars(out@));
    }
    out
}

/// The type that the first bytes of a file show, completed, for a file
/// whose name says nothing.
pub fn mime_from_content(path: &str, content: &Vec<u8>) -> (r: String)
    ensures
        r@ == type_of_content(path@, content@),
{
    let host: &'static str = "http://localhost";
    let tail = ascii_of(path);
    proof {
        reveal_strlit("http://localhost");
        reveal_strlit("");
        assert(host.is_ascii());
        assert(""@ =~= Seq::<char>::empty());
    }
    let url = String::from_str(host).concat(tail.as_str());
    proof {
        assert(url.is_ascii());
    }
    match sniff_content(content, &url) {
        Some(mime) => with_charset(mime.as_str()),
        None => with_charset(""),
    }
}

/// The media type of a file from its name alone, where the name says
/// something: the guess, completed. `None` where the content is to be
/// sniffed.
pub fn mime_from_name(path: &str) -> (r: Option<String>)
    ensures
        match r {
            Some(mime) => !is_unknown(guessed_type(path@)) && mime@ == completed(
                guessed_type(path@),
            ),
            None => is_unknown(guessed_type(path@)),
        },
{
    let guess = guess_mime(path);
    if needs_sniffing(guess.as_str()) {
        None
    } else {
        Some(with_charset(guess.as_str()))
    }
}

} // verus!
