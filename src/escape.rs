//! Entity decoding, escaping and case folding, done by outside code.

use vstd::prelude::*;

verus! {

/// What `str::to_lowercase` returns for a string.
pub uninterp spec fn lower_of(s: Seq<char>) -> Seq<char>;

/// What `escapist::unescape_html` decodes a string into.
pub uninterp spec fn unescaped_of(s: Seq<char>) -> Seq<char>;

/// What `escapist::escape_href` writes for a string.
pub uninterp spec fn href_escaped_of(s: Seq<char>) -> Seq<char>;

/// The escape sequence that `escapist::escape_html` writes for one character.
pub open spec fn html_escape_char(c: char) -> Seq<char> {
    if c == '"' {
        seq!['&', 'q', 'u', 'o', 't', ';']
    } else if c == '&' {
        seq!['&', 'a', 'm', 'p', ';']
    } else if c == '<' {
        seq!['&', 'l', 't', ';']
    } else if c == '>' {
        seq!['&', 'g', 't', ';']
    } else {
        seq![c]
    }
}

/// `s` with each of `"`, `&`, `<` and `>` replaced by its escape sequence.
pub open spec fn html_escaped(s: Seq<char>) -> Seq<char>
    decreases s.len(),
{
    if s.len() == 0 {
        Seq::empty()
    } else {
        html_escaped(s.drop_last()) + html_escape_char(s.last())
    }
}

/// Relies on `str::to_lowercase`: the result depends on the characters alone.
#[verifier::external_body]
pub(crate) fn to_lowercase(s: &str) -> (r: String)
    ensures
        r@ == lower_of(s@),
{
    s.to_lowercase()
}

/// Relies on `escapist::unescape_html` to decode character references; its
/// source returns input that holds no `&` unchanged. The bytes it returns are
/// read back as UTF-8.
#[verifier::external_body]
pub(crate) fn unescape_html(s: &str) -> (r: String)
    ensures
        r@ == unescaped_of(s@),
        !s@.contains('&') ==> r@ == s@,
{
    String::from_utf8_lossy(&escapist::unescape_html(s.as_bytes())).to_string()
}

/// Relies on `escapist::escape_html`: it copies the input, writing `&quot;`,
/// `&amp;`, `&lt;` and `&gt;` for `"`, `&`, `<` and `>`; writing to a `String`
/// cannot fail.
#[verifier::external_body]
pub(crate) fn escape_html(s: &str) -> (r: String)
    ensures
        r@ == html_escaped(s@),
{
    let mut buf = String::new();
    let _ = escapist::escape_html(&mut buf, s);
    buf
}

/// Relies on `escapist::escape_href` to percent-encode the bytes that are not
/// safe in a URL; writing to a `String` cannot fail.
#[verifier::external_body]
pub(crate) fn escape_href(s: &str) -> (r: String)
    ensures
        r@ == href_escaped_of(s@),
{
    let mut buf = String::new();
    let _ = escapist::escape_href(&mut buf, s);
    buf
}

} // verus!
