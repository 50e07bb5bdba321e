use tough::{parse_url, Error, Url};

// A URL with a trailing slash and one without are both accepted as a base,
// and give the same base.
#[test]
fn url_missing_trailing_slash() {
    let parsed_url_without_trailing_slash =
        parse_url(Url::parse("https://example.org/a/b/c").unwrap()).unwrap();
    let parsed_url_with_trailing_slash =
        parse_url(Url::parse("https://example.org/a/b/c/").unwrap()).unwrap();
    assert_eq!(
        parsed_url_without_trailing_slash,
        parsed_url_with_trailing_slash
    );
}

#[test]
fn normalizing_twice_changes_nothing() {
    for text in [
        "https://example.org/a/b/c",
        "https://example.org/a/b/c/",
        "https://example.org",
        "file:///tmp/repo/metadata",
        "https://example.org/a?query",
    ] {
        let once = parse_url(Url::parse(text).unwrap()).unwrap();
        assert!(once.as_str().ends_with('/'));
        let twice = parse_url(once.clone()).unwrap();
        assert_eq!(once, twice);
    }
}

#[test]
fn base_with_slash_is_used_verbatim() {
    let base = parse_url(Url::parse("https://example.org/metadata/").unwrap()).unwrap();
    assert_eq!(base.as_str(), "https://example.org/metadata/");
    let added = parse_url(Url::parse("https://example.org/metadata").unwrap()).unwrap();
    assert_eq!(added.as_str(), "https://example.org/metadata/");
}

#[test]
fn parse_rejects_what_is_no_url() {
    match Url::parse("not a url") {
        Err(Error::ParseUrl { url }) => assert_eq!(url, "not a url"),
        other => panic!("unexpected result: {:?}", other),
    }
}

#[test]
fn join_resolves_a_file_name_against_a_base() {
    let base = Url::parse("https://example.org/metadata/").unwrap();
    let joined = base.join("1.root.json").unwrap();
    assert_eq!(joined.as_str(), "https://example.org/metadata/1.root.json");
    // Without the trailing slash the last segment is replaced.
    let file = Url::parse("https://example.org/metadata").unwrap();
    assert_eq!(
        file.join("1.root.json").unwrap().as_str(),
        "https://example.org/1.root.json"
    );
}

#[test]
fn join_reports_the_path_and_the_base() {
    let base = Url::parse("mailto:someone@example.org").unwrap();
    match base.join("timestamp.json") {
        Err(Error::JoinUrl { path, url }) => {
            assert_eq!(path, "timestamp.json");
            assert_eq!(url, "mailto:someone@example.org");
        }
        other => panic!("unexpected result: {:?}", other),
    }
}

#[test]
fn parse_gives_the_serialization_of_the_url() {
    let url = Url::parse("HTTPS://Example.ORG:443/a/./b/../c d?q#f").unwrap();
    assert_eq!(url.as_str(), "https://example.org/a/c%20d?q#f");
    let url = Url::parse("https://example.org").unwrap();
    assert_eq!(url.as_str(), "https://example.org/");
    // A serialization parses to itself.
    assert_eq!(Url::parse(url.as_str()).unwrap(), url);
    assert_eq!(url.clone(), url);
}
