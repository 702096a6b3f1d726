use canonical_build::locator::{Locator, LocatorError};

#[test]
fn parse_cuts_a_url_into_its_parts() {
    let locator = Locator::parse("HTTPS://User:Pw@Example.COM:8443/A/b.git?q=1#Frag").unwrap();
    assert_eq!(
        locator,
        Locator {
            scheme: "https".to_owned(),
            host: Some("example.com".to_owned()),
            before_host: "://User:Pw@".to_owned(),
            after_host: ":8443".to_owned(),
            path: "/A/b.git".to_owned(),
            suffix: "?q=1#Frag".to_owned(),
            opaque: false,
        }
    );
    assert_eq!(
        locator.to_text(),
        "https://User:Pw@example.com:8443/A/b.git?q=1#Frag"
    );
}

#[test]
fn parse_agrees_with_the_parser_of_urls() {
    for text in [
        "https://github.com/software-mansion/scarb",
        "https://example.com",
        "git://GitHub.com/Foo",
        "unix:/run/foo.socket",
        "file:///tmp/foo",
        "data:text/plain,Stuff",
        "https://example.com/countries/vi\u{1ec7}t nam",
        "web+demo:/.//not-a-host/",
        "https://User:Pw@Example.COM:8443/A/b.git?q=1#Frag",
        "ssh://git@example.com:2222/team/project.git",
        "http://[::1]:8080/x",
        "http://192.168.0.1/x",
        "git://Token@GitHub.com:9418/Foo",
        "mailto:someone@example.com",
    ] {
        let url = url::Url::parse(text).unwrap();
        let locator = Locator::parse(text).unwrap();
        assert_eq!(locator.scheme, url.scheme(), "{text}");
        assert_eq!(locator.host.as_deref(), url.host_str(), "{text}");
        assert_eq!(locator.path, url.path(), "{text}");
        assert_eq!(locator.opaque, url.cannot_be_a_base(), "{text}");
        assert_eq!(locator.to_text(), url.as_str(), "{text}");
    }
}

#[test]
fn parse_fills_in_the_root_path_and_drops_the_default_port() {
    let locator = Locator::parse("https://example.com:443").unwrap();
    assert_eq!(locator.before_host, "://");
    assert_eq!(locator.host.as_deref(), Some("example.com"));
    assert_eq!(locator.after_host, "");
    assert_eq!(locator.path, "/");
    assert_eq!(locator.suffix, "");
    assert_eq!(locator.to_text(), "https://example.com/");
}

#[test]
fn parse_of_an_opaque_locator() {
    let locator = Locator::parse("mailto:someone@example.com").unwrap();
    assert_eq!(
        locator,
        Locator {
            scheme: "mailto".to_owned(),
            host: None,
            before_host: ":".to_owned(),
            after_host: String::new(),
            path: "someone@example.com".to_owned(),
            suffix: String::new(),
            opaque: true,
        }
    );
}

#[test]
fn parse_refuses_what_is_not_an_absolute_url() {
    for text in ["", "not a url", "/relative/path", "//example.com/x", "https://"] {
        let error = Locator::parse(text).unwrap_err();
        assert_eq!(
            error,
            LocatorError::Unparsable {
                text: text.to_owned()
            },
            "{text}"
        );
        assert_eq!(
            error.message(),
            format!("invalid url `{text}`: not an absolute URL")
        );
    }
}

#[test]
fn to_text_puts_the_pieces_in_a_row() {
    let locator = Locator {
        scheme: "a".to_owned(),
        host: None,
        before_host: "b".to_owned(),
        after_host: "c".to_owned(),
        path: "d".to_owned(),
        suffix: "e".to_owned(),
        opaque: false,
    };
    assert_eq!(locator.to_text(), "abcde");
    let hosted = Locator {
        host: Some("h".to_owned()),
        ..locator
    };
    assert_eq!(hosted.to_text(), "abhcde");
}

#[test]
fn invalid_locator_message_quotes_the_text() {
    let error = LocatorError::InvalidLocator {
        text: "data:x".to_owned(),
    };
    assert_eq!(
        error.message(),
        "invalid url `data:x`: cannot-be-a-base-URLs are not supported"
    );
}

#[test]
fn locators_are_equal_where_all_their_parts_are() {
    let base = Locator::parse("https://example.com/a?b").unwrap();
    assert_eq!(base, base.clone());
    let mut other = base.clone();
    other.scheme = "http".to_owned();
    assert_ne!(base, other);
    let mut other = base.clone();
    other.host = None;
    assert_ne!(base, other);
    let mut other = base.clone();
    other.host = Some("example.org".to_owned());
    assert_ne!(base, other);
    let mut other = base.clone();
    other.before_host = "://me@".to_owned();
    assert_ne!(base, other);
    let mut other = base.clone();
    other.after_host = ":8443".to_owned();
    assert_ne!(base, other);
    let mut other = base.clone();
    other.path = "/A".to_owned();
    assert_ne!(base, other);
    let mut other = base.clone();
    other.suffix = String::new();
    assert_ne!(base, other);
    let mut other = base.clone();
    other.opaque = true;
    assert_ne!(base, other);
    let no_host = Locator::parse("unix:/run/foo.socket").unwrap();
    assert_eq!(no_host, no_host.clone());
}
