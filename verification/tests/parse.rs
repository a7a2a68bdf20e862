use redirector::redir::{BadRedirect, BadRedirectFrom, BadRedirectTo, From, Rules, To};

#[test]
fn from_just_slash() {
    assert!(matches!(From::from_str("/"), Ok(_)));
}

#[test]
fn from_slash_api() {
    assert!(matches!(From::from_str("/api/"), Ok(_)));
}

#[test]
fn from_multi_slash() {
    assert!(matches!(From::from_str("/resources/static/"), Ok(_)));
}

#[test]
fn from_no_leading() {
    assert!(matches!(From::from_str("foo/"), Err(BadRedirectFrom::NoLeadingSlash)));
}

#[test]
fn from_no_trailing() {
    assert!(matches!(From::from_str("/foo"), Err(BadRedirectFrom::NoTrailingSlash)));
}

#[test]
fn from_empty_has_no_leading_slash() {
    assert!(matches!(From::from_str(""), Err(BadRedirectFrom::NoLeadingSlash)));
}

#[test]
fn from_keeps_its_text() {
    assert_eq!(From::from_str("/api/").unwrap().as_str(), "/api/");
    assert_eq!(From::from_str("/é/").unwrap().as_str(), "/é/");
}

#[test]
fn from_errors_in_words() {
    assert_eq!(BadRedirectFrom::NoLeadingSlash.to_string(), "path does not start with slash");
    assert_eq!(BadRedirectFrom::NoTrailingSlash.to_string(), "path does not end with slash");
}

#[test]
fn to_localhost() {
    assert!(matches!(To::from_str("http://localhost:3000/"), Ok(To::Http(_))));
}

#[test]
fn to_localhost_path() {
    assert!(matches!(To::from_str("http://localhost:8080/services/api/"), Ok(To::Http(_))));
}

#[test]
fn to_localhost_https() {
    assert!(matches!(To::from_str("https://localhost:8080/"), Ok(To::Http(_))));
}

#[test]
fn to_file() {
    assert!(matches!(To::from_str("file://./"), Ok(To::File(_, None))));
}

#[test]
fn to_file_path() {
    assert!(matches!(To::from_str("file://./static/"), Ok(To::File(_, None))));
}

#[test]
fn to_file_fallback() {
    assert!(matches!(
        To::from_str("file://./static/|./static/index.html"),
        Ok(To::File(_, Some(_)))
    ));
}

#[test]
fn to_bad_uri() {
    assert!(matches!(To::from_str("example.com/"), Err(BadRedirectTo::InvalidUri(_))));
}

#[test]
fn to_bad_scheme() {
    assert!(matches!(To::from_str("ftp://example.com/"), Err(BadRedirectTo::InvalidScheme(_))));
}

#[test]
fn to_many_fallbacks() {
    assert!(matches!(To::from_str("file://./|./|./"), Err(BadRedirectTo::TooManyFallbacks)));
}

#[test]
fn to_bad_fallback() {
    assert!(matches!(
        To::from_str("http://example.com/|./"),
        Err(BadRedirectTo::FallbackNotAllowed(_))
    ));
}

#[test]
fn to_no_trailing() {
    assert!(matches!(To::from_str("http://example.com/foo"), Err(BadRedirectTo::NoTrailingSlash)));
}

#[test]
fn to_no_scheme() {
    assert!(matches!(To::from_str("/foo"), Err(BadRedirectTo::NoScheme)));
}

#[test]
fn rules_zip_unequal() {
    assert!(matches!(Rules::zip(vec![From::from_str("/").unwrap()], vec![]), Err(_)));
}

#[test]
fn rules_zip() {
    assert!(matches!(
        Rules::zip(vec![From::from_str("/").unwrap()], vec![To::Http("/".to_string())]),
        Ok(_)
    ));
}

#[test]
fn rules_zip_unequal_names_the_error() {
    let r = Rules::zip(vec![], vec![To::Status(404)]);
    assert!(matches!(r, Err(BadRedirect::UnequalFromTo)));
    assert_eq!(
        BadRedirect::UnequalFromTo.to_string(),
        "unequal number of `from` and `to` arguments"
    );
}

#[test]
fn rules_zip_of_nothing() {
    assert_eq!(Rules::zip(vec![], vec![]).unwrap().len(), 0);
}

#[test]
fn to_http_keeps_the_address() {
    match To::from_str("http://localhost:8080/services/api/") {
        Ok(To::Http(prefix)) => assert_eq!(prefix, "http://localhost:8080/services/api/"),
        other => panic!("{:?}", other),
    }
}

#[test]
fn to_http_without_path_gets_a_slash() {
    match To::from_str("http://example.com") {
        Ok(To::Http(prefix)) => assert_eq!(prefix, "http://example.com/"),
        other => panic!("{:?}", other),
    }
}

#[test]
fn to_file_joins_authority_and_path() {
    match To::from_str("file://./static/") {
        Ok(To::File(prefix, None)) => assert_eq!(prefix, "./static/"),
        other => panic!("{:?}", other),
    }
}

#[test]
fn to_file_keeps_the_fallback_as_written() {
    match To::from_str("file://./static/|./static/index.html") {
        Ok(To::File(prefix, Some(fallback))) => {
            assert_eq!(prefix, "./static/");
            assert_eq!(fallback, "./static/index.html");
        }
        other => panic!("{:?}", other),
    }
}

#[test]
fn to_file_with_empty_fallback() {
    match To::from_str("file://./|") {
        Ok(To::File(prefix, Some(fallback))) => {
            assert_eq!(prefix, "./");
            assert_eq!(fallback, "");
        }
        other => panic!("{:?}", other),
    }
}

#[test]
fn to_file_no_trailing() {
    assert!(matches!(To::from_str("file://./static"), Err(BadRedirectTo::NoTrailingSlash)));
    assert!(matches!(
        To::from_str("file://./static|./index.html"),
        Err(BadRedirectTo::NoTrailingSlash)
    ));
}

#[test]
fn to_status() {
    assert!(matches!(To::from_str("status://404"), Ok(To::Status(404))));
    assert!(matches!(To::from_str("status://100"), Ok(To::Status(100))));
    assert!(matches!(To::from_str("status://599"), Ok(To::Status(599))));
}

#[test]
fn to_status_ignores_the_path() {
    assert!(matches!(To::from_str("status://404/gone"), Ok(To::Status(404))));
}

#[test]
fn to_status_ignores_the_query() {
    assert!(matches!(To::from_str("status://404?x=1"), Ok(To::Status(404))));
}

#[test]
fn to_status_out_of_range() {
    for text in ["status://600", "status://999", "status://099", "status://40", "status://4040"] {
        match To::from_str(text) {
            Err(BadRedirectTo::InvalidStatus(rejected)) => assert_eq!(rejected, &text[9..]),
            other => panic!("{}: {:?}", text, other),
        }
    }
}

#[test]
fn to_status_not_a_number() {
    match To::from_str("status://abc") {
        Err(BadRedirectTo::InvalidStatus(rejected)) => assert_eq!(rejected, "abc"),
        other => panic!("{:?}", other),
    }
}

#[test]
fn to_status_with_fallback() {
    match To::from_str("status://404|./index.html") {
        Err(BadRedirectTo::FallbackNotAllowed(fallback)) => assert_eq!(fallback, "./index.html"),
        other => panic!("{:?}", other),
    }
}

#[test]
fn to_https_with_fallback() {
    match To::from_str("https://example.com/|x") {
        Err(BadRedirectTo::FallbackNotAllowed(fallback)) => assert_eq!(fallback, "x"),
        other => panic!("{:?}", other),
    }
}

#[test]
fn to_other_scheme_with_fallback() {
    assert!(matches!(
        To::from_str("ftp://example.com/|x"),
        Err(BadRedirectTo::FallbackNotAllowed(_))
    ));
}

#[test]
fn to_bad_scheme_names_the_scheme() {
    match To::from_str("ftp://example.com/") {
        Err(BadRedirectTo::InvalidScheme(scheme)) => assert_eq!(scheme, "ftp"),
        other => panic!("{:?}", other),
    }
}

#[test]
fn to_many_fallbacks_comes_before_the_address() {
    assert!(matches!(To::from_str("not a uri|a|b"), Err(BadRedirectTo::TooManyFallbacks)));
}

#[test]
fn to_file_needs_an_authority() {
    assert!(matches!(To::from_str("file:///static/"), Err(BadRedirectTo::InvalidUri(_))));
}

#[test]
fn to_empty_is_no_uri() {
    assert!(matches!(To::from_str(""), Err(BadRedirectTo::InvalidUri(_))));
}

#[test]
fn to_errors_in_words() {
    let words = |text: &str| To::from_str(text).unwrap_err().to_string();
    assert_eq!(words("example.com/"), "invalid uri: invalid format");
    assert_eq!(words("ftp://example.com/"), "invalid scheme: ftp");
    assert_eq!(words("status://abc"), "invalid status code: abc");
    assert_eq!(words("file://./|./|./"), "too many fallbacks provided");
    assert_eq!(words("http://example.com/|./"), "fallback not allowed: ./");
    assert_eq!(words("http://example.com/foo"), "path does not end with slash");
    assert_eq!(words("/foo"), "does not begin with scheme");
}

#[test]
fn to_string_writes_the_rule() {
    assert_eq!(To::Http("http://h/".to_string()).to_string(), "http://h/");
    assert_eq!(To::File("./static/".to_string(), None).to_string(), "file://./static/");
    assert_eq!(
        To::File("./static/".to_string(), Some("./index.html".to_string())).to_string(),
        "file://./static/|./index.html"
    );
    assert_eq!(To::Status(404).to_string(), "status://404");
    assert_eq!(To::Status(7).to_string(), "status://7");
    assert_eq!(To::Status(65535).to_string(), "status://65535");
}

fn same_to(a: &To, b: &To) -> bool {
    match (a, b) {
        (To::Http(x), To::Http(y)) => x == y,
        (To::File(x, f), To::File(y, g)) => x == y && f == g,
        (To::Status(x), To::Status(y)) => x == y,
        _ => false,
    }
}

#[test]
fn to_string_then_from_str_gives_the_same() {
    for text in [
        "http://localhost:3000/",
        "http://example.com",
        "HTTPS://Example.com/a/?q=/",
        "https://user@example.com:8443/v1/",
        "file://./",
        "file://./static/",
        "file://./static/?x=1",
        "file://./static/|./static/index.html",
        "file://./|",
        "status://404",
        "status://200/ignored?x",
    ] {
        let to = To::from_str(text).unwrap();
        let again = To::from_str(&to.to_string()).unwrap();
        assert!(same_to(&to, &again), "{}: {:?} and {:?}", text, to, again);
    }
}
