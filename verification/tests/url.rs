use http_request::url::{Protocol, Url};

fn parts(raw: &str) -> (Protocol, String, String, String) {
    let url = Url::new(raw);
    (url.protocol(), url.host(), url.path(), url.to_string())
}

fn expect(raw: &str, protocol: Protocol, host: &str, path: &str) {
    assert_eq!(
        parts(raw),
        (
            protocol,
            String::from(host),
            String::from(path),
            String::from(raw)
        ),
        "for {:?}",
        raw
    );
}

#[test]
fn https_url_with_path() {
    expect(
        "https://example.com/index/index.html",
        Protocol::Https,
        "example.com",
        "/index/index.html",
    );
}

#[test]
fn http_url_with_path() {
    expect(
        "http://example.com/index.html",
        Protocol::Http,
        "example.com",
        "/index.html",
    );
}

#[test]
fn url_without_path() {
    expect("https://example.com", Protocol::Https, "example.com", "");
    expect("http://example.com", Protocol::Http, "example.com", "");
}

#[test]
fn url_with_root_path() {
    expect("https://example.com/", Protocol::Https, "example.com", "/");
}

#[test]
fn url_without_scheme() {
    expect("example.com/a/b", Protocol::Http, "example.com", "/a/b");
    expect("example.com", Protocol::Http, "example.com", "");
    expect("/only/a/path", Protocol::Http, "", "/only/a/path");
}

#[test]
fn empty_url() {
    expect("", Protocol::Http, "", "");
}

#[test]
fn scheme_alone() {
    expect("https://", Protocol::Https, "", "");
    expect("http://", Protocol::Http, "", "");
    expect("https:///x", Protocol::Https, "", "/x");
}

#[test]
fn scheme_is_matched_exactly() {
    expect("HTTPS://example.com/x", Protocol::Http, "HTTPS:", "//example.com/x");
    expect("https:/example.com", Protocol::Http, "https:", "/example.com");
    expect("http:", Protocol::Http, "http:", "");
    expect("https", Protocol::Http, "https", "");
    expect("ftp://example.com/x", Protocol::Http, "ftp:", "//example.com/x");
}

#[test]
fn host_keeps_port_and_path_keeps_query() {
    expect(
        "http://localhost:8080/a?b=c#d",
        Protocol::Http,
        "localhost:8080",
        "/a?b=c#d",
    );
    expect(
        "https://example.com?x=1",
        Protocol::Https,
        "example.com?x=1",
        "",
    );
}

#[test]
fn non_ascii_url() {
    expect(
        "https://m\u{fc}nchen.example/stra\u{df}e/\u{65e5}\u{672c}",
        Protocol::Https,
        "m\u{fc}nchen.example",
        "/stra\u{df}e/\u{65e5}\u{672c}",
    );
    expect("\u{1f600}", Protocol::Http, "\u{1f600}", "");
    expect("\u{1f600}/\u{1f600}", Protocol::Http, "\u{1f600}", "/\u{1f600}");
}

#[test]
fn to_string_gives_the_text_back() {
    for raw in [
        "",
        "https://example.com/index/index.html",
        "not a url at all",
        "  spaces  ",
        "http://a//b///c",
    ] {
        assert_eq!(Url::new(raw).to_string(), raw);
    }
}

#[test]
fn parts_put_together_give_the_text() {
    for raw in [
        "https://example.com/index/index.html",
        "http://example.com",
        "example.com/a",
        "",
        "https://",
    ] {
        let url = Url::new(raw);
        let scheme = match (url.protocol(), raw.starts_with("http")) {
            (Protocol::Https, _) => "https://",
            (Protocol::Http, true) => "http://",
            (Protocol::Http, false) => "",
        };
        assert_eq!(format!("{}{}{}", scheme, url.host(), url.path()), raw);
        assert!(!url.host().contains('/'));
        assert!(url.path().is_empty() || url.path().starts_with('/'));
    }
}

#[test]
fn urls_compare_by_text() {
    assert_eq!(Url::new("http://a/b"), Url::new("http://a/b"));
    assert_ne!(Url::new("http://a/b"), Url::new("http://a/c"));
    assert_ne!(Url::new("http://a/b"), Url::new("https://a/b"));
    let url = Url::new("https://example.com/x");
    assert_eq!(url.clone(), url);
}
