use usync::protocol::{parse_path, remote_from_url, Path, PathParseError, Protocol, RemoteUrl};

#[test]
fn protocol_test_parse_local_path() {
    let result = parse_path("./test.txt");
    assert!(matches!(result, Ok(Path::Local(_))));
}

#[test]
fn test_parse_http_url() {
    let result = parse_path("http://example.com/file.txt");
    assert!(matches!(result, Ok(Path::Remote(_))));
    if let Ok(Path::Remote(rp)) = result {
        assert_eq!(rp.protocol, Protocol::Http);
        assert_eq!(rp.path, "/file.txt");
    }
}

#[test]
fn test_parse_https_url() {
    let result = parse_path("https://example.com/path/to/file.txt");
    assert!(matches!(result, Ok(Path::Remote(_))));
    if let Ok(Path::Remote(rp)) = result {
        assert_eq!(rp.protocol, Protocol::Https);
        assert_eq!(rp.path, "/path/to/file.txt");
    }
}

#[test]
fn test_parse_ssh_url() {
    let result = parse_path("ssh://user@host:/path/to/file");
    assert!(matches!(result, Ok(Path::Remote(_))));
    if let Ok(Path::Remote(rp)) = result {
        assert_eq!(rp.protocol, Protocol::Ssh);
    }
}

#[test]
fn test_parse_sftp_url() {
    let result = parse_path("sftp://user@host:2222/path/to/file");
    assert!(matches!(result, Ok(Path::Remote(_))));
    if let Ok(Path::Remote(rp)) = result {
        assert_eq!(rp.protocol, Protocol::Sftp);
    }
}

#[test]
fn test_parse_ssh_style_path() {
    let result = parse_path("user@host:/path/to/file");
    assert!(matches!(result, Ok(Path::Remote(_))));
    if let Ok(Path::Remote(rp)) = result {
        assert_eq!(rp.protocol, Protocol::Ssh);
        assert_eq!(rp.path, "/path/to/file");
    }
}

#[test]
fn test_parse_unknown_protocol() {
    let result = parse_path("ftp://example.com/file.txt");
    assert!(matches!(result, Ok(Path::Remote(_))));
    if let Ok(Path::Remote(rp)) = result {
        assert!(matches!(rp.protocol, Protocol::Unknown(_)));
    }
}

#[test]
fn test_protocol_from_str() {
    assert_eq!(Protocol::from_str("SSH"), Protocol::Ssh);
    assert_eq!(Protocol::from_str("sftp"), Protocol::Sftp);
    assert_eq!(Protocol::from_str("HTTP"), Protocol::Http);
    assert_eq!(Protocol::from_str("https"), Protocol::Https);
    assert!(matches!(Protocol::from_str("unknown"), Protocol::Unknown(_)));
}

#[test]
fn test_protocol_display() {
    assert_eq!(Protocol::Ssh.to_string(), "ssh");
    assert_eq!(Protocol::Http.to_string(), "http");
    assert_eq!(Protocol::Https.to_string(), "https");
}

#[test]
fn every_protocol_goes_by_its_name() {
    assert_eq!(Protocol::from_str("S3"), Protocol::S3);
    assert_eq!(Protocol::from_str("File"), Protocol::File);
    assert_eq!(Protocol::from_lowercase("ssh"), Protocol::Ssh);
    assert_eq!(Protocol::from_lowercase("sftp"), Protocol::Sftp);
    assert_eq!(Protocol::from_lowercase("http"), Protocol::Http);
    assert_eq!(Protocol::from_lowercase("https"), Protocol::Https);
    assert_eq!(Protocol::from_lowercase("s3"), Protocol::S3);
    assert_eq!(Protocol::from_lowercase("file"), Protocol::File);
    assert_eq!(Protocol::Sftp.as_str(), "sftp");
    assert_eq!(Protocol::S3.as_str(), "s3");
    assert_eq!(Protocol::File.as_str(), "file");
}

#[test]
fn unknown_protocol_keeps_its_lower_case_name() {
    assert_eq!(Protocol::from_str("FTP"), Protocol::Unknown("ftp".to_string()));
    assert_eq!(Protocol::from_str("Gopher").as_str(), "gopher");
    // Only the lower-case form is looked up.
    assert_eq!(Protocol::from_lowercase("SSH"), Protocol::Unknown("SSH".to_string()));
    assert_eq!(Protocol::from_lowercase(""), Protocol::Unknown(String::new()));
    assert_eq!(Protocol::from_lowercase("sshx"), Protocol::Unknown("sshx".to_string()));
}

#[test]
fn parsed_url_gives_its_parts() {
    match parse_path("sftp://alice@example.org:2222/srv/data.bin") {
        Ok(Path::Remote(rp)) => {
            assert_eq!(rp.url.scheme(), "sftp");
            assert_eq!(rp.url.username(), "alice");
            assert_eq!(rp.url.host_str(), Some("example.org"));
            assert_eq!(rp.url.port(), Some(2222));
            assert_eq!(rp.url.path(), "/srv/data.bin");
            assert_eq!(rp.url.as_str(), "sftp://alice@example.org:2222/srv/data.bin");
            assert_eq!(rp.path, "/srv/data.bin");
        }
        other => panic!("unexpected: {:?}", other),
    }
}

#[test]
fn scheme_of_a_url_is_read_in_lower_case() {
    match parse_path("HTTPS://Example.com/x") {
        Ok(Path::Remote(rp)) => {
            assert_eq!(rp.protocol, Protocol::Https);
            assert_eq!(rp.url.host_str(), Some("example.com"));
        }
        other => panic!("unexpected: {:?}", other),
    }
}

#[test]
fn ssh_style_path_becomes_an_ssh_url() {
    match parse_path("bob@server:/var/log/app.log") {
        Ok(Path::Remote(rp)) => {
            assert_eq!(rp.protocol, Protocol::Ssh);
            assert_eq!(rp.url.scheme(), "ssh");
            assert_eq!(rp.url.username(), "bob");
            assert_eq!(rp.url.host_str(), Some("server"));
            assert_eq!(rp.url.port(), None);
            assert_eq!(rp.path, "/var/log/app.log");
        }
        other => panic!("unexpected: {:?}", other),
    }
}

#[test]
fn ssh_style_path_is_cut_at_the_first_colon_after_the_at_sign() {
    match parse_path("bob@server:/a:b") {
        Ok(Path::Remote(rp)) => assert_eq!(rp.path, "/a:b"),
        other => panic!("unexpected: {:?}", other),
    }
}

#[test]
fn url_that_does_not_parse_is_an_invalid_url() {
    match parse_path("http://") {
        Err(PathParseError::InvalidUrl { path, error }) => {
            assert_eq!(path, "http://");
            assert!(!error.is_empty());
        }
        other => panic!("unexpected: {:?}", other),
    }
    // A relative path after the colon does not make a URL.
    match parse_path("user@host:relative/path") {
        Err(PathParseError::InvalidUrl { path, .. }) => assert_eq!(path, "user@host:relative/path"),
        other => panic!("unexpected: {:?}", other),
    }
}

#[test]
fn what_is_neither_url_nor_ssh_style_is_local() {
    for text in ["", "plain", "dir/file@2x.png", "a@b@c:d", "user@//host:x", "C:\\x"] {
        match parse_path(text) {
            Ok(Path::Local(local)) => assert_eq!(local.to_string_lossy(), text),
            other => panic!("unexpected for {:?}: {:?}", text, other),
        }
    }
}

#[test]
fn remote_from_url_takes_the_parser_answer_as_it_is() {
    let url = RemoteUrl {
        text: "ssh://u@h/p".to_string(),
        scheme: "ssh".to_string(),
        username: "u".to_string(),
        host: Some("h".to_string()),
        port: None,
        path: "/p".to_string(),
    };
    match remote_from_url("given", Ok(url.clone()), None) {
        Ok(Path::Remote(rp)) => {
            assert_eq!(rp.protocol, Protocol::Ssh);
            assert_eq!(rp.path, "/p");
            assert_eq!(rp.url.as_str(), "ssh://u@h/p");
        }
        other => panic!("unexpected: {:?}", other),
    }
    match remote_from_url("given", Ok(url), Some("raw".to_string())) {
        Ok(Path::Remote(rp)) => {
            assert_eq!(rp.protocol, Protocol::Ssh);
            assert_eq!(rp.path, "raw");
        }
        other => panic!("unexpected: {:?}", other),
    }
    match remote_from_url("given", Err("bad".to_string()), None) {
        Err(PathParseError::InvalidUrl { path, error }) => {
            assert_eq!(path, "given");
            assert_eq!(error, "bad");
        }
        other => panic!("unexpected: {:?}", other),
    }
}

#[test]
fn path_parse_error_texts() {
    let e = PathParseError::InvalidUrl { path: "x://".to_string(), error: "empty host".to_string() };
    assert_eq!(e.to_string(), "Invalid URL 'x://': empty host");
    let e = PathParseError::LocalPathError(usync::path::PathError::RemotePathNotAllowed);
    assert_eq!(
        e.to_string(),
        "Remote paths (e.g., user@host:path) are not allowed. Only local paths are supported."
    );
}
