use usync::backend::local::{DeleteAction, ListingShape, LocalBackend, PathKind};
use usync::backend::traits::{presence_from_listing, ChecksumAlgorithm, CopyOptions, FileInfo};
use usync::backend::{backend_kind, BackendError, BackendKind};
use usync::protocol::{parse_path, Path, Protocol, RemotePath, RemoteUrl};

#[test]
fn backend_error_texts() {
    assert_eq!(
        BackendError::IoError { message: "Failed to read".into(), error: "denied".into() }
            .to_string(),
        "IO error: Failed to read (denied)"
    );
    assert_eq!(BackendError::ConnectionError("down".into()).to_string(), "Connection error: down");
    assert_eq!(
        BackendError::UnsupportedOperation("no".into()).to_string(),
        "Unsupported operation: no"
    );
    assert_eq!(BackendError::NotFound("/x".into()).to_string(), "Path not found: /x");
    assert_eq!(BackendError::InvalidPath("/x".into()).to_string(), "Invalid path: /x");
    assert_eq!(
        BackendError::ChecksumMismatch { expected: "aa".into(), actual: "bb".into() }.to_string(),
        "Checksum mismatch: expected aa, got bb"
    );
    assert_eq!(BackendError::Other("odd".into()).to_string(), "Error: odd");
}

#[test]
fn presence_is_read_off_a_listing_attempt() {
    assert_eq!(presence_from_listing(Ok(vec![])).unwrap(), true);
    let entry = FileInfo { path: "a".into(), size: 1, is_dir: false, modified: None };
    assert_eq!(presence_from_listing(Ok(vec![entry])).unwrap(), true);
    assert_eq!(presence_from_listing(Err(BackendError::NotFound("a".into()))).unwrap(), false);
    match presence_from_listing(Err(BackendError::ConnectionError("down".into()))) {
        Err(BackendError::ConnectionError(why)) => assert_eq!(why, "down"),
        other => panic!("unexpected: {:?}", other),
    }
    assert!(matches!(
        presence_from_listing(Err(BackendError::InvalidPath("a".into()))),
        Err(BackendError::InvalidPath(_))
    ));
}

#[test]
fn local_backend_goes_by_the_name_local() {
    assert_eq!(LocalBackend::new().name(), "local");
    assert_eq!(LocalBackend::default().name(), "local");
}

#[test]
fn file_copy_needs_a_regular_file() {
    let rules = LocalBackend::new();
    assert!(rules.check_file_source("/a", PathKind::File).is_ok());
    match rules.check_file_source("/a", PathKind::Missing) {
        Err(BackendError::NotFound(path)) => assert_eq!(path, "/a"),
        other => panic!("unexpected: {:?}", other),
    }
    for kind in [PathKind::Directory, PathKind::Other] {
        match rules.check_file_source("/a", kind) {
            Err(BackendError::InvalidPath(why)) => assert_eq!(why, "Source is not a file: /a"),
            other => panic!("unexpected: {:?}", other),
        }
    }
}

#[test]
fn directory_copy_needs_the_recursive_option_and_a_directory() {
    let rules = LocalBackend::new();
    let flat = CopyOptions::default();
    let mut recursive = CopyOptions::default();
    recursive.recursive = true;
    for kind in [PathKind::Directory, PathKind::Missing, PathKind::File, PathKind::Other] {
        match rules.check_directory_source("/d", kind, &flat) {
            Err(BackendError::UnsupportedOperation(why)) => {
                assert_eq!(why, "Recursive copy requires -r flag")
            }
            other => panic!("unexpected: {:?}", other),
        }
    }
    assert!(rules.check_directory_source("/d", PathKind::Directory, &recursive).is_ok());
    match rules.check_directory_source("/d", PathKind::Missing, &recursive) {
        Err(BackendError::NotFound(path)) => assert_eq!(path, "/d"),
        other => panic!("unexpected: {:?}", other),
    }
    for kind in [PathKind::File, PathKind::Other] {
        match rules.check_directory_source("/d", kind, &recursive) {
            Err(BackendError::InvalidPath(why)) => {
                assert_eq!(why, "Source is not a directory: /d")
            }
            other => panic!("unexpected: {:?}", other),
        }
    }
}

#[test]
fn listing_depends_on_what_stands_at_the_path() {
    let rules = LocalBackend::new();
    assert_eq!(rules.listing_shape("/p", PathKind::File).unwrap(), ListingShape::Single);
    assert_eq!(rules.listing_shape("/p", PathKind::Directory).unwrap(), ListingShape::Children);
    assert_eq!(rules.listing_shape("/p", PathKind::Other).unwrap(), ListingShape::Nothing);
    match rules.listing_shape("/p", PathKind::Missing) {
        Err(BackendError::NotFound(path)) => assert_eq!(path, "/p"),
        other => panic!("unexpected: {:?}", other),
    }
}

#[test]
fn only_regular_files_are_listed_with_a_size() {
    let rules = LocalBackend::new();
    let entry = rules.describe("/d/f".to_string(), PathKind::File, 42, Some(9));
    assert_eq!(
        (entry.path.as_str(), entry.size, entry.is_dir, entry.modified),
        ("/d/f", 42, false, Some(9))
    );
    let entry = rules.describe("/d/sub".to_string(), PathKind::Directory, 4096, None);
    assert_eq!(
        (entry.path.as_str(), entry.size, entry.is_dir, entry.modified),
        ("/d/sub", 0, true, None)
    );
    let entry = rules.describe("/d/pipe".to_string(), PathKind::Other, 7, Some(1));
    assert_eq!((entry.size, entry.is_dir), (0, false));
}

#[test]
fn deletion_depends_on_what_stands_at_the_path() {
    let rules = LocalBackend::new();
    assert_eq!(rules.plan_delete("/p", PathKind::File).unwrap(), DeleteAction::RemoveFile);
    assert_eq!(rules.plan_delete("/p", PathKind::Directory).unwrap(), DeleteAction::RemoveTree);
    match rules.plan_delete("/p", PathKind::Missing) {
        Err(BackendError::NotFound(path)) => assert_eq!(path, "/p"),
        other => panic!("unexpected: {:?}", other),
    }
    match rules.plan_delete("/p", PathKind::Other) {
        Err(BackendError::InvalidPath(why)) => {
            assert_eq!(why, "Path is neither file nor directory: /p")
        }
        other => panic!("unexpected: {:?}", other),
    }
}

#[test]
fn only_a_regular_file_can_be_digested() {
    let rules = LocalBackend::new();
    assert!(rules.check_checksum_source("/p", PathKind::File).is_ok());
    for kind in [PathKind::Missing, PathKind::Directory, PathKind::Other] {
        match rules.check_checksum_source("/p", kind) {
            Err(BackendError::NotFound(path)) => assert_eq!(path, "/p"),
            other => panic!("unexpected: {:?}", other),
        }
    }
}

#[test]
fn io_failure_says_what_was_attempted_and_where() {
    match LocalBackend::new().io_failure("Failed to read directory", "/d", "denied".to_string()) {
        BackendError::IoError { message, error } => {
            assert_eq!(message, "Failed to read directory: /d");
            assert_eq!(error, "denied");
        }
        other => panic!("unexpected: {:?}", other),
    }
}

fn remote_with(protocol: Protocol) -> Path {
    let url = RemoteUrl {
        text: "x://h/p".to_string(),
        scheme: "x".to_string(),
        username: String::new(),
        host: Some("h".to_string()),
        port: None,
        path: "/p".to_string(),
    };
    Path::Remote(RemotePath { protocol, url, path: "/p".to_string() })
}

#[test]
fn backend_is_picked_by_the_kind_of_location() {
    assert_eq!(backend_kind(&parse_path("./local").unwrap()).unwrap(), BackendKind::Local);
    assert_eq!(backend_kind(&parse_path("ssh://u@h/p").unwrap()).unwrap(), BackendKind::Ssh);
    assert_eq!(backend_kind(&parse_path("u@h:/p").unwrap()).unwrap(), BackendKind::Ssh);
    assert_eq!(backend_kind(&remote_with(Protocol::Sftp)).unwrap(), BackendKind::Ssh);
    assert_eq!(backend_kind(&remote_with(Protocol::S3)).unwrap(), BackendKind::S3);
    assert_eq!(backend_kind(&remote_with(Protocol::Http)).unwrap(), BackendKind::Http);
    assert_eq!(backend_kind(&remote_with(Protocol::Https)).unwrap(), BackendKind::Http);
    assert_eq!(
        backend_kind(&remote_with(Protocol::File)).unwrap_err(),
        "Unsupported protocol: file"
    );
    assert_eq!(
        backend_kind(&parse_path("ftp://example.com/f").unwrap()).unwrap_err(),
        "Unsupported protocol: ftp"
    );
}

#[test]
fn checksum_algorithms_are_three() {
    assert_ne!(ChecksumAlgorithm::Md5, ChecksumAlgorithm::Sha1);
    assert_ne!(ChecksumAlgorithm::Sha1, ChecksumAlgorithm::Sha256);
    assert_eq!(ChecksumAlgorithm::Md5, ChecksumAlgorithm::Md5.clone());
}
