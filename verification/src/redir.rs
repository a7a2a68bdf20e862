//! Redirect rules: where requests come from, where they are sent, and how
//! a request's path is matched against them.

use crate::text::{
    chars_of, decimal, decimal_string, digit_char, ends_with, ends_with_char, find_char,
    lemma_position, lemma_position_unique, position, same, starts_with, starts_with_char,
    strip_prefix, stripped,
};
use crate::uri::{
    invalid_uri_reason, parse_uri, parsed_uri, status_from_text, three_digits, ParsedUri,
    UriView,
};
use http::uri::InvalidUri;
use vstd::prelude::*;
use vstd::string::{StrSliceExecFns, StringExecFns};

verus! {

/// Whether `s` can be the source of a rule: a path prefix that starts and
/// ends with a slash.
pub open spec fn is_from(s: Seq<char>) -> bool {
    starts_with_char(s, '/') && ends_with_char(s, '/')
}

/// The prefix of request paths that a rule applies to.
#[derive(Debug)]
pub struct From(String);

/// Why a text is no source of a rule.
#[derive(Debug, Clone, Copy, PartialEq, Eq, Structural)]
pub enum BadRedirectFrom {
    NoLeadingSlash,
    NoTrailingSlash,
}

impl BadRedirectFrom {
    /// The error in words.
    pub fn to_string(&self) -> (r: String)
        ensures
            *self == BadRedirectFrom::NoLeadingSlash ==> r@ == "path does not start with slash"@,
            *self == BadRedirectFrom::NoTrailingSlash ==> r@ == "path does not end with slash"@,
    {
        match self {
            BadRedirectFrom::NoLeadingSlash => "path does not start with slash".to_owned(),
            BadRedirectFrom::NoTrailingSlash => "path does not end with slash".to_owned(),
        }
    }
}

/// What reading `s` as the source of a rule gives.
pub open spec fn parse_from(s: Seq<char>) -> Result<Seq<char>, BadRedirectFrom> {
    if !starts_with_char(s, '/') {
        Err(BadRedirectFrom::NoLeadingSlash)
    } else if !ends_with_char(s, '/') {
        Err(BadRedirectFrom::NoTrailingSlash)
    } else {
        Ok(s)
    }
}

impl View for From {
    type V = Seq<char>;

    closed spec fn view(&self) -> Seq<char> {
        self.0@
    }
}

impl From {
    /// Every source starts and ends with a slash.
    #[verifier::type_invariant]
    spec fn well_formed(&self) -> bool {
        is_from(self.0@)
    }

    /// Reads the source of a rule. It is accepted if and only if it starts
    /// and ends with a slash, and is then kept as it is.
    pub fn from_str(s: &str) -> (r: Result<From, BadRedirectFrom>)
        ensures
            r is Ok <==> is_from(s@),
            match parse_from(s@) {
                Ok(text) => r is Ok && r->Ok_0@ == text,
                Err(e) => r == Err::<From, BadRedirectFrom>(e),
            },
    {
        if !starts_with(s, '/') {
            Err(BadRedirectFrom::NoLeadingSlash)
        } else if !ends_with(s, '/') {
            Err(BadRedirectFrom::NoTrailingSlash)
        } else {
            Ok(From(s.to_owned()))
        }
    }

    /// The prefix as text. It always starts and ends with a slash.
    pub fn as_str(&self) -> (r: &str)
        ensures
            r@ == self@,
            is_from(self@),
    {
        proof {
            use_type_invariant(self);
        }
        self.0.as_str()
    }
}

/// Where the requests that match a rule are sent.
#[derive(Debug)]
pub enum To {
    /// Forwarded to the address made of this prefix and the rest of the path.
    Http(String),
    /// Answered with the file at this prefix and the rest of the path, or,
    /// where that file cannot be opened, with the second file if there is one.
    File(String, Option<String>),
    /// Answered with this status and no body.
    Status(u16),
}

/// A destination as a mathematical value.
pub enum ToView {
    Http(Seq<char>),
    File(Seq<char>, Option<Seq<char>>),
    Status(u16),
}

impl View for To {
    type V = ToView;

    open spec fn view(&self) -> ToView {
        match self {
            To::Http(prefix) => ToView::Http(prefix@),
            To::File(prefix, fallback) => ToView::File(prefix@, fallback.deep_view()),
            To::Status(code) => ToView::Status(*code),
        }
    }
}

/// Whether `to` has the shape of a destination that was read from a
/// text: its prefix ends with a slash, its status lies between 100 and 599.
pub open spec fn is_to(to: ToView) -> bool {
    match to {
        ToView::Http(prefix) => ends_with_char(prefix, '/'),
        ToView::File(prefix, _) => ends_with_char(prefix, '/'),
        ToView::Status(code) => 100 <= code <= 599,
    }
}

/// Why a text is no destination of a rule.
#[derive(Debug)]
pub enum BadRedirectTo {
    /// The address is no URI; the parser's error says why.
    InvalidUri(InvalidUri),
    /// The scheme is none of `http`, `https`, `file` and `status`.
    InvalidScheme(String),
    /// The authority of a `status` address is no status code from 100 to 599.
    InvalidStatus(String),
    /// The text holds more than one `|`.
    TooManyFallbacks,
    /// A fallback was given to a destination that is no file.
    FallbackNotAllowed(String),
    /// The prefix that the address gives does not end with a slash.
    NoTrailingSlash,
    /// The address is a URI without a scheme.
    NoScheme,
}

/// An error of reading a destination as a mathematical value.
pub enum BadRedirectToView {
    InvalidUri,
    InvalidScheme(Seq<char>),
    InvalidStatus(Seq<char>),
    TooManyFallbacks,
    FallbackNotAllowed(Seq<char>),
    NoTrailingSlash,
    NoScheme,
}

impl View for BadRedirectTo {
    type V = BadRedirectToView;

    open spec fn view(&self) -> BadRedirectToView {
        match self {
            BadRedirectTo::InvalidUri(_) => BadRedirectToView::InvalidUri,
            BadRedirectTo::InvalidScheme(scheme) => BadRedirectToView::InvalidScheme(scheme@),
            BadRedirectTo::InvalidStatus(text) => BadRedirectToView::InvalidStatus(text@),
            BadRedirectTo::TooManyFallbacks => BadRedirectToView::TooManyFallbacks,
            BadRedirectTo::FallbackNotAllowed(fallback) => BadRedirectToView::FallbackNotAllowed(
                fallback@,
            ),
            BadRedirectTo::NoTrailingSlash => BadRedirectToView::NoTrailingSlash,
            BadRedirectTo::NoScheme => BadRedirectToView::NoScheme,
        }
    }
}

/// The error in words, but for the reason that the URI parser gives for an
/// address it rejects.
pub open spec fn error_text(e: BadRedirectToView) -> Seq<char> {
    match e {
        BadRedirectToView::InvalidUri => "invalid uri: "@,
        BadRedirectToView::InvalidScheme(scheme) => "invalid scheme: "@ + scheme,
        BadRedirectToView::InvalidStatus(text) => "invalid status code: "@ + text,
        BadRedirectToView::TooManyFallbacks => "too many fallbacks provided"@,
        BadRedirectToView::FallbackNotAllowed(fallback) => "fallback not allowed: "@ + fallback,
        BadRedirectToView::NoTrailingSlash => "path does not end with slash"@,
        BadRedirectToView::NoScheme => "does not begin with scheme"@,
    }
}

impl BadRedirectTo {
    /// The error in words. For an address that is no URI the words end with
    /// the parser's reason.
    pub fn to_string(&self) -> (r: String)
        ensures
            self@ != BadRedirectToView::InvalidUri ==> r@ == error_text(self@),
            self@ == BadRedirectToView::InvalidUri ==> error_text(self@).is_prefix_of(r@),
    {
        match self {
            BadRedirectTo::InvalidUri(e) => {
                let reason = invalid_uri_reason(e);
                "invalid uri: ".to_owned().concat(reason.as_str())
            },
            BadRedirectTo::InvalidScheme(scheme) => "invalid scheme: ".to_owned().concat(
                scheme.as_str(),
            ),
            BadRedirectTo::InvalidStatus(text) => "invalid status code: ".to_owned().concat(
                text.as_str(),
            ),
            BadRedirectTo::TooManyFallbacks => "too many fallbacks provided".to_owned(),
            BadRedirectTo::FallbackNotAllowed(fallback) => {
                "fallback not allowed: ".to_owned().concat(fallback.as_str())
            },
            BadRedirectTo::NoTrailingSlash => "path does not end with slash".to_owned(),
            BadRedirectTo::NoScheme => "does not begin with scheme".to_owned(),
        }
    }
}

/// The address and the fallback that a destination text is made of: the
/// text up to its only `|` and the text behind it. `None` where the text
/// holds more than one `|`.
pub open spec fn split_fallback(s: Seq<char>) -> Option<(Seq<char>, Option<Seq<char>>)> {
    let bar = position(s, '|', 0);
    if bar >= s.len() {
        Some((s, None))
    } else if position(s, '|', bar + 1) < s.len() {
        None
    } else {
        Some((s.take(bar), Some(s.skip(bar + 1))))
    }
}

/// The authority of a URI as text, empty where the URI has none.
pub open spec fn authority_text(uri: UriView) -> Seq<char> {
    match uri.authority {
        Some(authority) => authority,
        None => Seq::empty(),
    }
}

/// The status code that `text` denotes: three digits that make a number
/// from 100 to 599.
pub open spec fn status_code(text: Seq<char>) -> Option<u16> {
    match three_digits(text) {
        Some(code) => if code <= 599 {
            Some(code)
        } else {
            None
        },
        None => None,
    }
}

/// The destination that a parsed address and a fallback denote.
pub open spec fn to_of_uri(parsed: Option<UriView>, fallback: Option<Seq<char>>) -> Result<
    ToView,
    BadRedirectToView,
> {
    match parsed {
        None => Err(BadRedirectToView::InvalidUri),
        Some(uri) => match uri.scheme {
            None => Err(BadRedirectToView::NoScheme),
            Some(scheme) => if scheme == "file"@ {
                let prefix = authority_text(uri) + uri.path;
                if ends_with_char(prefix, '/') {
                    Ok(ToView::File(prefix, fallback))
                } else {
                    Err(BadRedirectToView::NoTrailingSlash)
                }
            } else if fallback is Some {
                Err(BadRedirectToView::FallbackNotAllowed(fallback->0))
            } else if scheme == "http"@ || scheme == "https"@ {
                if ends_with_char(uri.text, '/') {
                    Ok(ToView::Http(uri.text))
                } else {
                    Err(BadRedirectToView::NoTrailingSlash)
                }
            } else if scheme == "status"@ {
                match status_code(authority_text(uri)) {
                    Some(code) => Ok(ToView::Status(code)),
                    None => Err(BadRedirectToView::InvalidStatus(authority_text(uri))),
                }
            } else {
                Err(BadRedirectToView::InvalidScheme(scheme))
            },
        },
    }
}

/// What reading `s` as the destination of a rule gives.
pub open spec fn parse_to(s: Seq<char>) -> Result<ToView, BadRedirectToView> {
    match split_fallback(s) {
        None => Err(BadRedirectToView::TooManyFallbacks),
        Some((address, fallback)) => to_of_uri(parsed_uri(address), fallback),
    }
}

/// The address of a destination, as it is written in a rule.
pub open spec fn address(to: ToView) -> Seq<char> {
    match to {
        ToView::Http(prefix) => prefix,
        ToView::File(prefix, _) => "file://"@ + prefix,
        ToView::Status(code) => "status://"@ + decimal(code as nat),
    }
}

/// A destination as it is written in a rule: its address, and behind a
/// `|` its fallback if it has one.
pub open spec fn render(to: ToView) -> Seq<char> {
    match to {
        ToView::File(_, Some(fallback)) => address(to) + seq!['|'] + fallback,
        _ => address(to),
    }
}

/// Whether the outcome `r` is the one that `expected` describes.
pub open spec fn read_as(
    r: Result<To, BadRedirectTo>,
    expected: Result<ToView, BadRedirectToView>,
) -> bool {
    match expected {
        Ok(to) => r is Ok && r->Ok_0@ == to,
        Err(e) => r is Err && r->Err_0@ == e,
    }
}

/// The parser's outcome as a mathematical value.
pub open spec fn outcome_view(parsed: Result<ParsedUri, InvalidUri>) -> Option<UriView> {
    match parsed {
        Ok(uri) => Some(uri@),
        Err(_) => None,
    }
}

/// Splits a destination text at its `|` into address and fallback.
pub fn split_at_bar<'a>(s: &'a str) -> (r: Option<(&'a str, Option<&'a str>)>)
    ensures
        r.deep_view() == split_fallback(s@),
{
    let chars = chars_of(s);
    let bar = find_char(&chars, '|', 0);
    if bar >= chars.len() {
        let whole = s.substring_char(0, chars.len());
        assert(whole@ =~= s@);
        Some((whole, None))
    } else if find_char(&chars, '|', bar + 1) < chars.len() {
        None
    } else {
        let address = s.substring_char(0, bar);
        let fallback = s.substring_char(bar + 1, chars.len());
        Some((address, Some(fallback)))
    }
}

impl To {
    /// Builds the destination from what the URI parser made of the address,
    /// and from the fallback.
    pub fn from_parts(parsed: Result<ParsedUri, InvalidUri>, fallback: Option<&str>) -> (r: Result<
        To,
        BadRedirectTo,
    >)
        ensures
            read_as(r, to_of_uri(outcome_view(parsed), fallback.deep_view())),
    {
        let uri = match parsed {
            Ok(uri) => uri,
            Err(e) => {
                return Err(BadRedirectTo::InvalidUri(e));
            },
        };
        let ghost view = uri@;
        let ParsedUri { uri: _, scheme, authority, path, text } = uri;
        let scheme = match scheme {
            Some(scheme) => scheme,
            None => {
                return Err(BadRedirectTo::NoScheme);
            },
        };
        let authority = match authority {
            Some(authority) => authority,
            None => String::new(),
        };
        assert(authority@ == authority_text(view));
        if same(scheme.as_str(), "file") {
            let prefix = authority.concat(path.as_str());
            if ends_with(prefix.as_str(), '/') {
                let fallback = match fallback {
                    Some(fallback) => Some(fallback.to_owned()),
                    None => None,
                };
                Ok(To::File(prefix, fallback))
            } else {
                Err(BadRedirectTo::NoTrailingSlash)
            }
        } else if let Some(fallback) = fallback {
            Err(BadRedirectTo::FallbackNotAllowed(fallback.to_owned()))
        } else if same(scheme.as_str(), "http") || same(scheme.as_str(), "https") {
            if ends_with(text.as_str(), '/') {
                Ok(To::Http(text))
            } else {
                Err(BadRedirectTo::NoTrailingSlash)
            }
        } else if same(scheme.as_str(), "status") {
            match status_from_text(authority.as_str()) {
                Some(code) if code <= 599 => Ok(To::Status(code)),
                _ => Err(BadRedirectTo::InvalidStatus(authority)),
            }
        } else {
            Err(BadRedirectTo::InvalidScheme(scheme))
        }
    }

    /// Writes the destination as it stands in a rule.
    pub fn to_string(&self) -> (r: String)
        ensures
            r@ == render(self@),
    {
        match self {
            To::Http(prefix) => prefix.clone(),
            To::File(prefix, fallback) => {
                let address = "file://".to_owned().concat(prefix.as_str());
                match fallback {
                    Some(fallback) => {
                        proof {
                            reveal_strlit("|");
                        }
                        assert("|"@ =~= seq!['|']);
                        address.concat("|").concat(fallback.as_str())
                    },
                    None => address,
                }
            },
            To::Status(code) => "status://".to_owned().concat(decimal_string(*code).as_str()),
        }
    }

    /// Reads the destination of a rule: an address, and behind a `|` a
    /// fallback where the address names a file.
    pub fn from_str(to_str: &str) -> (r: Result<To, BadRedirectTo>)
        ensures
            read_as(r, parse_to(to_str@)),
            r is Ok ==> is_to(r->Ok_0@),
    {
        proof {
            lemma_parsed_is_to(to_str@);
        }
        match split_at_bar(to_str) {
            None => Err(BadRedirectTo::TooManyFallbacks),
            Some((address, fallback)) => To::from_parts(parse_uri(address), fallback),
        }
    }
}

/// Every destination that is read from a text has the shape of one, and
/// its fallback holds no `|`.
pub proof fn lemma_parsed_is_to(s: Seq<char>)
    ensures
        parse_to(s) matches Ok(to) ==> is_to(to),
        parse_to(s) matches Ok(ToView::File(_, Some(fallback))) ==> !fallback.contains('|'),
{
    if let Ok(ToView::File(_, Some(fallback))) = parse_to(s) {
        let bar = position(s, '|', 0);
        lemma_position(s, '|', 0);
        lemma_position(s, '|', bar + 1);
        assert(fallback == s.skip(bar + 1));
        assert forall|k: int| 0 <= k < fallback.len() implies fallback[k] != '|' by {
            assert(fallback[k] == s[bar + 1 + k]);
        }
    }
}

/// A fallback is accepted with a `file` address and with no other. With a
/// fallback, an address of any other scheme (`http`, `https` and `status`
/// among them) is refused as `FallbackNotAllowed`; a `file` address is read
/// the same with and without it, but for the fallback that the destination
/// keeps.
pub proof fn lemma_fallback_only_for_files(uri: UriView, scheme: Seq<char>, fallback: Seq<char>)
    requires
        uri.scheme == Some(scheme),
    ensures
        scheme != "file"@ ==> to_of_uri(Some(uri), Some(fallback)) == Err::<
            ToView,
            BadRedirectToView,
        >(BadRedirectToView::FallbackNotAllowed(fallback)),
        scheme == "http"@ || scheme == "https"@ || scheme == "status"@ ==> to_of_uri(
            Some(uri),
            Some(fallback),
        ) == Err::<ToView, BadRedirectToView>(BadRedirectToView::FallbackNotAllowed(fallback)),
        scheme == "file"@ ==> match to_of_uri(Some(uri), None) {
            Ok(ToView::File(prefix, _)) => to_of_uri(Some(uri), Some(fallback)) == Ok::<
                ToView,
                BadRedirectToView,
            >(ToView::File(prefix, Some(fallback))),
            Ok(_) => false,
            Err(e) => to_of_uri(Some(uri), Some(fallback)) == Err::<ToView, BadRedirectToView>(e),
        },
{
    lemma_schemes_differ();
}

/// The schemes that stand for a destination are four different texts.
pub proof fn lemma_schemes_differ()
    ensures
        "http"@ != "file"@,
        "https"@ != "file"@,
        "status"@ != "file"@,
        "http"@ != "https"@,
        "http"@ != "status"@,
        "https"@ != "status"@,
{
    reveal_strlit("http");
    reveal_strlit("https");
    reveal_strlit("status");
    reveal_strlit("file");
    assert("http"@[0] != "file"@[0]);
    assert("https"@.len() != "file"@.len());
    assert("status"@.len() != "file"@.len());
    assert("http"@.len() != "https"@.len());
    assert("http"@.len() != "status"@.len());
    assert("https"@.len() != "status"@.len());
}

/// Three digits that make a number from 100 to 599 are read back as that
/// number.
pub proof fn lemma_status_code_of_decimal(code: u16)
    requires
        100 <= code <= 599,
    ensures
        status_code(decimal(code as nat)) == Some(code),
{
    let n = code as nat;
    reveal_with_fuel(decimal, 3);
    let text = decimal(n);
    assert(text =~= seq![
        digit_char((n / 100) as int),
        digit_char(((n / 10) % 10) as int),
        digit_char((n % 10) as int),
    ]);
    assert(three_digits(text) == Some(code));
}

/// Whether the URI parser reads the address of `to`, as `address` writes
/// it, as a URI that says what `to` says: it holds no `|`, has the scheme of
/// the destination, and gives the prefix or the status that the address was
/// written from.
pub open spec fn address_rereads(to: ToView) -> bool {
    &&& !address(to).contains('|')
    &&& parsed_uri(address(to)) matches Some(uri)
    &&& match to {
        ToView::Http(prefix) => (uri.scheme == Some("http"@) || uri.scheme == Some("https"@))
            && uri.text == prefix,
        ToView::File(prefix, _) => uri.scheme == Some("file"@) && authority_text(uri) + uri.path
            == prefix,
        ToView::Status(code) => uri.scheme == Some("status"@) && authority_text(uri) == decimal(
            code as nat,
        ),
    }
}

/// A destination that was read from a text is read again from what
/// `render` writes of it, wherever the URI parser reads the written address
/// as the address it was written from.
pub proof fn lemma_render_reads_back(s: Seq<char>, to: ToView)
    ensures
        parse_to(s) == Ok::<ToView, BadRedirectToView>(to) && address_rereads(to) ==> parse_to(
            render(to),
        ) == Ok::<ToView, BadRedirectToView>(to),
{
    if parse_to(s) == Ok::<ToView, BadRedirectToView>(to) && address_rereads(to) {
        lemma_schemes_differ();
        let written = address(to);
        let end = written.len() as int;
        let uri = parsed_uri(written)->0;
        let (source, fallback) = split_fallback(s)->0;
        assert(to_of_uri(parsed_uri(source), fallback) == Ok::<ToView, BadRedirectToView>(to));
        assert forall|k: int| 0 <= k < written.len() implies written[k] != '|' by {
            assert(written.contains(written[k]));
        }
        match to {
            ToView::File(prefix, Some(kept)) => {
                let bar = position(s, '|', 0);
                lemma_position(s, '|', 0);
                lemma_position(s, '|', bar + 1);
                assert(kept == s.skip(bar + 1));
                let text = render(to);
                assert(text.len() == end + 1 + kept.len());
                assert(forall|k: int| 0 <= k < end ==> text[k] == written[k]);
                assert(text[end] == '|');
                assert(forall|k: int| end < k < text.len() ==> text[k] == kept[k - end - 1]);
                assert(forall|k: int| 0 <= k < kept.len() ==> kept[k] == s[bar + 1 + k]);
                lemma_position_unique(text, '|', 0, end);
                lemma_position_unique(text, '|', end + 1, text.len() as int);
                assert(text.take(end) =~= written);
                assert(text.skip(end + 1) =~= kept);
                assert(split_fallback(text) == Some((written, Some(kept))));
            },
            _ => {
                lemma_position_unique(written, '|', 0, end);
                assert(split_fallback(written) == Some((written, None::<Seq<char>>)));
                match to {
                    ToView::Status(code) => {
                        lemma_status_code_of_decimal(code);
                    },
                    _ => {},
                }
            },
        }
    }
}

/// Why no set of rules could be made.
#[derive(Debug, Clone, Copy, PartialEq, Eq, Structural)]
pub enum BadRedirect {
    UnequalFromTo,
}

impl BadRedirect {
    /// The error in words.
    pub fn to_string(&self) -> (r: String)
        ensures
            r@ == "unequal number of `from` and `to` arguments"@,
    {
        "unequal number of `from` and `to` arguments".to_owned()
    }
}

/// The part of a request's target that rules are matched against.
#[derive(Debug)]
pub struct RequestUri {
    /// The path of the target.
    pub path: String,
    /// The path and the query of the target as one text, where the target
    /// has them.
    pub path_and_query: Option<String>,
}

/// A request's target as a mathematical value.
pub struct RequestUriView {
    pub path: Seq<char>,
    pub path_and_query: Option<Seq<char>>,
}

impl View for RequestUri {
    type V = RequestUriView;

    open spec fn view(&self) -> RequestUriView {
        RequestUriView { path: self.path@, path_and_query: self.path_and_query.deep_view() }
    }
}

/// What is done with one request.
#[derive(Debug)]
pub enum Action {
    /// It is sent on to this address.
    Http(ParsedUri),
    /// It is answered with the file at `path`, or with the one at `fallback`.
    File { path: String, fallback: Option<String> },
    /// It is answered with this status and no body.
    Status(u16),
}

/// An action as a mathematical value.
pub enum ActionView {
    Http(UriView),
    File { path: Seq<char>, fallback: Option<Seq<char>> },
    Status(u16),
}

impl View for Action {
    type V = ActionView;

    open spec fn view(&self) -> ActionView {
        match self {
            Action::Http(uri) => ActionView::Http(uri@),
            Action::File { path, fallback } => ActionView::File {
                path: path@,
                fallback: fallback.deep_view(),
            },
            Action::Status(code) => ActionView::Status(*code),
        }
    }
}

/// What looking a request up in the rules comes to.
pub enum Resolution {
    /// No rule applies to the request.
    NoMatch,
    /// A rule applies, and the address it makes for the request is no URI.
    InvalidUri,
    /// A rule applies, and asks for this.
    Action(ActionView),
}

/// A rule as a mathematical value: its source and its destination.
pub type RuleView = (Seq<char>, ToView);

/// What a rule with the source `from` leaves of `path`. The rule applies
/// where `path` starts with `from`, unless taking `from` away leaves the
/// whole of `path`.
pub open spec fn tail(from: Seq<char>, path: Seq<char>) -> Option<Seq<char>> {
    match stripped(path, from) {
        Some(rest) => if rest == path {
            None
        } else {
            Some(rest)
        },
        None => None,
    }
}

/// The text of the request that a rule with the destination `to` is
/// matched against: path and query for a forwarding rule, the path alone
/// for the others.
pub open spec fn compared(to: ToView, uri: RequestUriView) -> Option<Seq<char>> {
    match to {
        ToView::Http(_) => uri.path_and_query,
        ToView::File(_, _) => Some(uri.path),
        ToView::Status(_) => Some(uri.path),
    }
}

/// What `rule` leaves of the request, where it applies to it.
pub open spec fn rule_tail(rule: RuleView, uri: RequestUriView) -> Option<Seq<char>> {
    match compared(rule.1, uri) {
        Some(path) => tail(rule.0, path),
        None => None,
    }
}

/// The index of the first rule at or after `from` that applies to the
/// request, or `rules.len()` when none does.
pub open spec fn first_match(rules: Seq<RuleView>, uri: RequestUriView, from: int) -> int
    decreases rules.len() - from,
{
    if from < 0 || from >= rules.len() {
        rules.len() as int
    } else if rule_tail(rules[from], uri) is Some {
        from
    } else {
        first_match(rules, uri, from + 1)
    }
}

/// What a rule with the destination `to` asks for, given what it left of
/// the request.
pub open spec fn action_of(to: ToView, rest: Seq<char>) -> Resolution {
    match to {
        ToView::Http(prefix) => match parsed_uri(prefix + rest) {
            Some(uri) => Resolution::Action(ActionView::Http(uri)),
            None => Resolution::InvalidUri,
        },
        ToView::File(prefix, fallback) => Resolution::Action(
            ActionView::File { path: prefix + rest, fallback },
        ),
        ToView::Status(code) => Resolution::Action(ActionView::Status(code)),
    }
}

/// What looking the request up in `rules` comes to: the first rule that
/// applies decides, and no rule after it is looked at.
pub open spec fn resolve(rules: Seq<RuleView>, uri: RequestUriView) -> Resolution {
    let index = first_match(rules, uri, 0);
    if index >= rules.len() {
        Resolution::NoMatch
    } else {
        action_of(rules[index].1, rule_tail(rules[index], uri)->0)
    }
}

/// The outcome of a lookup as a mathematical value.
pub open spec fn resolution_of(r: Option<Result<Action, InvalidUri>>) -> Resolution {
    match r {
        None => Resolution::NoMatch,
        Some(Err(_)) => Resolution::InvalidUri,
        Some(Ok(action)) => Resolution::Action(action@),
    }
}

/// The rules in the order in which they are tried.
#[derive(Debug)]
pub struct Rules {
    redirects: Vec<(From, To)>,
}

impl View for Rules {
    type V = Seq<RuleView>;

    closed spec fn view(&self) -> Seq<RuleView> {
        Seq::new(self.redirects@.len(), |i: int| (self.redirects@[i].0@, self.redirects@[i].1@))
    }
}

/// The rules made of the sources and destinations at equal indices.
pub open spec fn zipped(from: Seq<From>, to: Seq<To>) -> Seq<RuleView> {
    Seq::new(from.len(), |i: int| (from[i]@, to[i]@))
}

impl Rules {
    /// Pairs each source with the destination at the same index, in the
    /// order given. Fails if and only if the two lists differ in length.
    pub fn zip(from: Vec<From>, to: Vec<To>) -> (r: Result<Rules, BadRedirect>)
        ensures
            r is Err <==> from@.len() != to@.len(),
            r is Err ==> r == Err::<Rules, BadRedirect>(BadRedirect::UnequalFromTo),
            r is Ok ==> r->Ok_0@ == zipped(from@, to@),
    {
        if from.len() != to.len() {
            return Err(BadRedirect::UnequalFromTo);
        }
        let ghost from_seq = from@;
        let ghost to_seq = to@;
        let mut from = from;
        let mut to = to;
        let mut reversed: Vec<(From, To)> = Vec::new();
        while from.len() > 0
            invariant
                from@.len() == to@.len(),
                from@.len() + reversed@.len() == from_seq.len(),
                from_seq.len() == to_seq.len(),
                from@ == from_seq.take(from@.len() as int),
                to@ == to_seq.take(to@.len() as int),
                forall|k: int|
                    0 <= k < reversed@.len() ==> reversed@[k] == (
                        from_seq[from_seq.len() - 1 - k],
                        to_seq[to_seq.len() - 1 - k],
                    ),
            decreases from@.len(),
        {
            let source = from.pop().unwrap();
            let destination = to.pop().unwrap();
            reversed.push((source, destination));
        }
        let mut redirects: Vec<(From, To)> = Vec::new();
        while reversed.len() > 0
            invariant
                from_seq.len() == to_seq.len(),
                redirects@.len() + reversed@.len() == from_seq.len(),
                forall|k: int|
                    0 <= k < reversed@.len() ==> reversed@[k] == (
                        from_seq[from_seq.len() - 1 - k],
                        to_seq[to_seq.len() - 1 - k],
                    ),
                forall|k: int|
                    0 <= k < redirects@.len() ==> redirects@[k] == (from_seq[k], to_seq[k]),
            decreases reversed@.len(),
        {
            let rule = reversed.pop().unwrap();
            redirects.push(rule);
        }
        let rules = Rules { redirects };
        assert(rules@ =~= zipped(from_seq, to_seq));
        Ok(rules)
    }

    /// The number of rules.
    pub fn len(&self) -> (n: usize)
        ensures
            n == self@.len(),
    {
        self.redirects.len()
    }

    /// Finds the first rule that applies to the request: its index, and
    /// what it leaves of the request.
    pub fn find<'a>(&self, uri: &'a RequestUri) -> (r: Option<(usize, &'a str)>)
        ensures
            match r {
                Some((index, rest)) => index == first_match(self@, uri@, 0) && index < self@.len()
                    && rule_tail(self@[index as int], uri@) == Some(rest@),
                None => first_match(self@, uri@, 0) == self@.len(),
            },
    {
        let mut index: usize = 0;
        while index < self.redirects.len()
            invariant
                index <= self@.len(),
                self@.len() == self.redirects@.len(),
                first_match(self@, uri@, 0) == first_match(self@, uri@, index as int),
            decreases self@.len() - index,
        {
            let from = &self.redirects[index].0;
            let to = &self.redirects[index].1;
            assert(self@[index as int] == (from@, to@));
            let path: Option<&'a str> = match to {
                To::Http(_) => match &uri.path_and_query {
                    Some(path_and_query) => Some(path_and_query.as_str()),
                    None => None,
                },
                To::File(_, _) => Some(uri.path.as_str()),
                To::Status(_) => Some(uri.path.as_str()),
            };
            assert(path.deep_view() == compared(to@, uri@));
            if let Some(path) = path {
                if let Some(rest) = strip_prefix(path, from.as_str()) {
                    if !same(rest, path) {
                        return Some((index, rest));
                    }
                }
            }
            index = index + 1;
        }
        None
    }

    /// Looks the request up: the first rule that applies to it decides what
    /// is done with it.
    pub fn try_match(&self, uri: &RequestUri) -> (r: Option<Result<Action, InvalidUri>>)
        ensures
            resolution_of(r) == resolve(self@, uri@),
    {
        match self.find(uri) {
            None => None,
            Some((index, rest)) => {
                let to = &self.redirects[index].1;
                assert(self@[index as int].1 == to@);
                Some(
                    match to {
                        To::Http(prefix) => {
                            let address = prefix.clone().concat(rest);
                            match parse_uri(address.as_str()) {
                                Ok(uri) => Ok(Action::Http(uri)),
                                Err(e) => Err(e),
                            }
                        },
                        To::File(prefix, fallback) => Ok(
                            Action::File {
                                path: prefix.clone().concat(rest),
                                fallback: match fallback {
                                    Some(fallback) => Some(fallback.clone()),
                                    None => None,
                                },
                            },
                        ),
                        To::Status(code) => Ok(Action::Status(*code)),
                    },
                )
            },
        }
    }
}

/// Two lists of sources and destinations make the same rules if and only
/// if they hold the same sources and the same destinations in the same
/// order.
pub proof fn lemma_zipped_equal(
    from: Seq<From>,
    to: Seq<To>,
    other_from: Seq<From>,
    other_to: Seq<To>,
)
    requires
        from.len() == to.len(),
        other_from.len() == other_to.len(),
    ensures
        zipped(from, to) == zipped(other_from, other_to) <==> {
            &&& from.len() == other_from.len()
            &&& forall|i: int|
                0 <= i < from.len() ==> from[i]@ == other_from[i]@ && to[i]@ == other_to[i]@
        },
{
    let left = zipped(from, to);
    let right = zipped(other_from, other_to);
    if left == right {
        assert(left.len() == right.len());
        assert forall|i: int| 0 <= i < from.len() implies from[i]@ == other_from[i]@ && to[i]@
            == other_to[i]@ by {
            assert(left[i] == right[i]);
        }
    }
    if from.len() == other_from.len() && (forall|i: int|
        0 <= i < from.len() ==> from[i]@ == other_from[i]@ && to[i]@ == other_to[i]@) {
        assert(left =~= right);
    }
}

/// The first rule that applies to the request decides what is done with
/// it, whatever rules stand behind it.
pub proof fn lemma_first_match_decides(rules: Seq<RuleView>, uri: RequestUriView, index: int)
    requires
        0 <= index < rules.len(),
        rule_tail(rules[index], uri) is Some,
        forall|k: int| 0 <= k < index ==> rule_tail(rules[k], uri) is None,
    ensures
        first_match(rules, uri, 0) == index,
        resolve(rules, uri) == action_of(rules[index].1, rule_tail(rules[index], uri)->0),
{
    lemma_first_match_from(rules, uri, 0, index);
}

proof fn lemma_first_match_from(rules: Seq<RuleView>, uri: RequestUriView, from: int, index: int)
    requires
        0 <= from <= index < rules.len(),
        rule_tail(rules[index], uri) is Some,
        forall|k: int| from <= k < index ==> rule_tail(rules[k], uri) is None,
    ensures
        first_match(rules, uri, from) == index,
    decreases index - from,
{
    if from < index {
        lemma_first_match_from(rules, uri, from + 1, index);
    }
}

/// No request is matched where no rule applies to it.
pub proof fn lemma_no_rule_applies(rules: Seq<RuleView>, uri: RequestUriView)
    requires
        forall|k: int| 0 <= k < rules.len() ==> rule_tail(rules[k], uri) is None,
    ensures
        resolve(rules, uri) == Resolution::NoMatch,
{
    lemma_no_match_from(rules, uri, 0);
}

proof fn lemma_no_match_from(rules: Seq<RuleView>, uri: RequestUriView, from: int)
    requires
        0 <= from <= rules.len(),
        forall|k: int| from <= k < rules.len() ==> rule_tail(rules[k], uri) is None,
    ensures
        first_match(rules, uri, from) == rules.len(),
    decreases rules.len() - from,
{
    if from < rules.len() {
        lemma_no_match_from(rules, uri, from + 1);
    }
}

/// A source that starts with a slash always takes something away: for
/// it, a rule applies exactly where the path starts with the source.
pub proof fn lemma_tail_of_source(from: Seq<char>, path: Seq<char>)
    requires
        is_from(from),
    ensures
        tail(from, path) == stripped(path, from),
{
    if from.is_prefix_of(path) {
        assert(path.skip(from.len() as int).len() < path.len());
    }
}

} // verus!
