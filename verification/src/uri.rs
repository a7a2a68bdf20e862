//! The boundary to the `http` crate: URIs and status codes are read there,
//! and handed to the rest of the library as plain values.

use http::uri::InvalidUri;
use http::StatusCode;
use http::Uri;
use vstd::prelude::*;

verus! {

/// `http::Uri`. Nothing is known of what a value holds: it is carried from
/// the parser to the transport and never looked into.
#[verifier::external_type_specification]
#[verifier::external_body]
pub struct ExUri(Uri);

/// `http::uri::InvalidUri`, the parser's error. Nothing is known of what a
/// value holds.
#[verifier::external_type_specification]
#[verifier::external_body]
pub struct ExInvalidUri(InvalidUri);

/// The components of a URI, as mathematical values.
pub struct UriView {
    /// The scheme, in the form the parser reports it.
    pub scheme: Option<Seq<char>>,
    /// The authority, absent when it is empty.
    pub authority: Option<Seq<char>>,
    /// The path.
    pub path: Seq<char>,
    /// The whole URI in the parser's own rendering.
    pub text: Seq<char>,
}

/// A URI that the parser accepted: the parser's value, and the components
/// that the library reads from it.
#[derive(Debug)]
pub struct ParsedUri {
    /// The parser's value, kept for the transport to send the request to.
    /// The contracts speak of the components beside it, not of this value.
    pub uri: Uri,
    /// The scheme, in the form the parser reports it.
    pub scheme: Option<String>,
    /// The authority, absent when it is empty.
    pub authority: Option<String>,
    /// The path.
    pub path: String,
    /// The whole URI in the parser's own rendering.
    pub text: String,
}

impl View for ParsedUri {
    type V = UriView;

    open spec fn view(&self) -> UriView {
        UriView {
            scheme: self.scheme.deep_view(),
            authority: self.authority.deep_view(),
            path: self.path@,
            text: self.text@,
        }
    }
}

/// What the URI parser of the `http` crate makes of `text`: the components
/// of the URI it reads, or `None` where it rejects `text`.
pub uninterp spec fn parsed_uri(text: Seq<char>) -> Option<UriView>;

/// Calls `http::Uri::from_str` on `text` and copies out of the result its
/// scheme (`Uri::scheme_str`), authority (`Uri::authority`), path
/// (`Uri::path`) and rendering (`Display`). The contract only gives that
/// outcome its name, `parsed_uri`: whether `text` is accepted, and with which
/// components, depends on nothing but `text`. It says nothing of what the
/// components are.
#[verifier::external_body]
pub(crate) fn parse_uri(text: &str) -> (r: Result<ParsedUri, InvalidUri>)
    ensures
        r is Ok <==> parsed_uri(text@) is Some,
        r is Ok ==> r->Ok_0@ == parsed_uri(text@)->0,
{
    let uri = text.parse::<Uri>()?;
    let scheme = uri.scheme_str().map(String::from);
    let authority = uri.authority().map(|authority| authority.as_str().to_owned());
    let path = uri.path().to_owned();
    let text = uri.to_string();
    Ok(ParsedUri { uri, scheme, authority, path, text })
}

/// Calls `Display` for `http::uri::InvalidUri`, which names the reason for
/// which the parser rejected a text. Nothing is claimed of the wording.
#[verifier::external_body]
pub(crate) fn invalid_uri_reason(e: &InvalidUri) -> String {
    e.to_string()
}

/// The value of a decimal digit.
pub open spec fn digit(c: char) -> int {
    c as u32 - '0' as u32
}

/// Whether `c` is one of `'0'` to `'9'`.
pub open spec fn is_digit(c: char) -> bool {
    '0' <= c <= '9'
}

/// The number that three decimal digits denote, the first of them not `0`.
pub open spec fn three_digits(s: Seq<char>) -> Option<u16> {
    if s.len() == 3 && is_digit(s[0]) && s[0] != '0' && is_digit(s[1]) && is_digit(s[2]) {
        Some((100 * digit(s[0]) + 10 * digit(s[1]) + digit(s[2])) as u16)
    } else {
        None
    }
}

/// Calls `http::StatusCode::from_bytes` on the bytes of `text`, and
/// `StatusCode::as_u16` on what it accepts. It accepts exactly three ASCII
/// digits of which the first is not `0`, and gives the number they denote.
#[verifier::external_body]
pub(crate) fn status_from_text(text: &str) -> (r: Option<u16>)
    ensures
        r == three_digits(text@),
{
    match StatusCode::from_bytes(text.as_bytes()) {
        Ok(code) => Some(code.as_u16()),
        Err(_) => None,
    }
}

} // verus!
