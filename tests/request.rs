use crawler::{parse_seed, Request, Url};

fn fp(url: &str) -> u64 {
    Request::from_str(url).get_fingerprint()
}

#[test]
fn test_fingerprint() {
    assert_eq!(fp("http://a.com"), fp("http://a.com"));
    assert!(fp("http://a.com") != fp("http://a.com/foo"));
    assert!(fp("http://a.com") != fp("http://b.com"));
    assert!(fp("http://a.com") != fp("https://a.com"));
    assert_eq!(fp("http://a.com/"), fp("http://a.com"));
    assert_eq!(fp("http://a.com/#foo"), fp("http://a.com"));
    assert_eq!(fp("http://a.com/b#foo"), fp("http://a.com/b"));
    assert!(fp("http://a.com/b") != fp("http://a.com/b?a=1"));
    assert_eq!(fp("http://a.com/b"), fp("http://a.com/b?"));
}

#[test]
fn test_parse_seed() {
    assert_eq!(parse_seed("foo.com").unwrap(), Url::parse("http://foo.com").unwrap());
    assert_eq!(parse_seed("http://foo.com").unwrap(), Url::parse("http://foo.com").unwrap());
    assert_eq!(parse_seed("https://foo.com").unwrap(), Url::parse("https://foo.com").unwrap());
}

#[test]
fn canonical_key_spells_out_the_default_port_and_drops_the_fragment() {
    let request = Request::from_str("http://A.com/b?x=1#frag");
    assert_eq!(request.canonical_key(), "http://a.com:80/b?x=1");
    let request = Request::from_str("https://a.com:8443");
    assert_eq!(request.canonical_key(), "https://a.com:8443/?");
}

#[test]
fn fingerprint_keeps_query_order() {
    assert!(fp("http://a.com/b?x=1&y=2") != fp("http://a.com/b?y=2&x=1"));
}

#[test]
fn explicit_default_port_has_the_same_fingerprint() {
    assert_eq!(fp("http://a.com:80/b"), fp("http://a.com/b"));
    assert!(fp("http://a.com:8080/b") != fp("http://a.com/b"));
}

#[test]
fn url_components_come_from_the_parser() {
    let url = Url::parse("https://user@Example.com:8443/p/q?k=v#f").unwrap();
    assert_eq!(url.scheme(), "https");
    assert_eq!(url.host_str(), Some("example.com"));
    assert_eq!(url.port_or_known_default(), Some(8443));
    assert_eq!(url.path(), "/p/q");
    assert_eq!(url.query(), Some("k=v"));
    assert_eq!(url.fragment(), Some("f"));
    assert_eq!(url.as_str(), "https://user@example.com:8443/p/q?k=v#f");
}

#[test]
fn relative_text_is_not_an_absolute_url() {
    assert_eq!(Url::parse("/a/b"), None);
    assert_eq!(Request::parse("/a/b"), None);
    assert_eq!(Request::parse("http://a.com/b").unwrap().url.as_str(), "http://a.com/b");
}

#[test]
fn join_resolves_relative_and_absolute_targets() {
    let base = Url::parse("http://foo.com/a/").unwrap();
    assert_eq!(base.join("../boo.txt").unwrap().as_str(), "http://foo.com/boo.txt");
    assert_eq!(base.join("http://example.com/zoo").unwrap().as_str(), "http://example.com/zoo");
}

#[test]
fn seeds_without_scheme_get_http() {
    assert_eq!(parse_seed("example.com/x").unwrap().as_str(), "http://example.com/x");
    assert_eq!(parse_seed("http://").map(|u| u.as_str().to_string()), None);
}
