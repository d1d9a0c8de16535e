use usync::protocol::{parse_path, Path, Protocol, RemotePath, RemoteUrl};
use usync::remote::{
    copy_from_ssh, copy_remote, copy_ssh_to_ssh, copy_to_ssh, is_over_ssh, judge_exit,
    scp_download_arguments, scp_upload_arguments, RemoteCopyError,
};

fn remote(text: &str) -> RemotePath {
    match parse_path(text) {
        Ok(Path::Remote(remote)) => remote,
        other => panic!("not a remote location: {:?}", other),
    }
}

fn refusal(src: &str, dst: &str) -> RemoteCopyError {
    copy_remote(&remote(src), &remote(dst), false, &[], false).unwrap_err()
}

#[test]
fn remote_to_remote_between_ssh_locations_is_not_implemented() {
    for (src, dst) in [
        ("ssh://a@h/x", "ssh://b@i/y"),
        ("sftp://a@h/x", "ssh://b@i/y"),
        ("ssh://a@h/x", "sftp://b@i/y"),
        ("sftp://a@h/x", "sftp://b@i/y"),
    ] {
        match refusal(src, dst) {
            RemoteCopyError::NotImplemented(why) => {
                assert_eq!(why, "SSH to SSH copy is not yet fully implemented")
            }
            other => panic!("unexpected: {:?}", other),
        }
    }
}

#[test]
fn remote_to_remote_between_object_stores_is_not_implemented() {
    match refusal("s3://bucket/a", "s3://other/b") {
        RemoteCopyError::NotImplemented(why) => {
            assert_eq!(why, "S3 to S3 copy is not yet implemented")
        }
        other => panic!("unexpected: {:?}", other),
    }
}

#[test]
fn remote_to_remote_with_ssh_on_one_side_names_what_to_use() {
    match refusal("ssh://a@h/x", "https://example.com/y") {
        RemoteCopyError::NotImplemented(why) => {
            assert_eq!(why, "Use copy_from_ssh_to_file for file operations")
        }
        other => panic!("unexpected: {:?}", other),
    }
    match refusal("s3://bucket/x", "sftp://b@i/y") {
        RemoteCopyError::NotImplemented(why) => {
            assert_eq!(why, "Use copy_file_to_ssh for file operations")
        }
        other => panic!("unexpected: {:?}", other),
    }
}

#[test]
fn other_remote_combinations_are_unsupported() {
    match refusal("http://example.com/x", "s3://bucket/y") {
        RemoteCopyError::UnsupportedProtocol { src, dst } => {
            assert_eq!(src, "http");
            assert_eq!(dst, "s3");
        }
        other => panic!("unexpected: {:?}", other),
    }
    match refusal("ftp://example.com/x", "https://example.com/y") {
        RemoteCopyError::UnsupportedProtocol { src, dst } => {
            assert_eq!(src, "ftp");
            assert_eq!(dst, "https");
        }
        other => panic!("unexpected: {:?}", other),
    }
}

#[test]
fn the_three_ssh_transfers_between_remotes_are_not_implemented() {
    let a = remote("ssh://a@h/x");
    let b = remote("ssh://b@i/y");
    assert!(matches!(copy_from_ssh(&a, &b, true), Err(RemoteCopyError::NotImplemented(_))));
    assert!(matches!(copy_to_ssh(&a, &b, false), Err(RemoteCopyError::NotImplemented(_))));
    assert!(matches!(
        copy_ssh_to_ssh(&a, &b, false, &[], true),
        Err(RemoteCopyError::NotImplemented(_))
    ));
    assert!(is_over_ssh(&Protocol::Ssh));
    assert!(is_over_ssh(&Protocol::Sftp));
    assert!(!is_over_ssh(&Protocol::Http));
    assert!(!is_over_ssh(&Protocol::Unknown("ssh2".into())));
}

#[test]
fn secure_copy_download_is_quiet_by_default() {
    let args =
        scp_download_arguments(&remote("ssh://user@host/path/to/file"), "local.txt", false, &[], false)
            .unwrap();
    assert_eq!(args, vec!["-q", "user@host:/path/to/file", "local.txt"]);
}

#[test]
fn secure_copy_names_the_port_only_where_it_is_unusual() {
    let args =
        scp_download_arguments(&remote("sftp://user@host:2222/f"), "out", true, &[], false).unwrap();
    assert_eq!(args, vec!["-P", "2222", "user@host:/f", "out"]);
    let args =
        scp_download_arguments(&remote("ssh://user@host:22/f"), "out", true, &[], false).unwrap();
    assert_eq!(args, vec!["user@host:/f", "out"]);
    let args =
        scp_download_arguments(&remote("ssh://user@host:65535/f"), "out", true, &[], false).unwrap();
    assert_eq!(args, vec!["-P", "65535", "user@host:/f", "out"]);
    let args = scp_download_arguments(&remote("ssh://user@host:7/f"), "out", true, &[], false).unwrap();
    assert_eq!(args, vec!["-P", "7", "user@host:/f", "out"]);
}

#[test]
fn secure_copy_flags_follow_progress_and_verbosity() {
    let location = remote("ssh://u@h/f");
    let progress = scp_download_arguments(&location, "out", false, &[], true).unwrap();
    assert_eq!(progress, vec!["-v", "u@h:/f", "out"]);
    let both = scp_download_arguments(&location, "out", true, &[], true).unwrap();
    assert_eq!(both, vec!["-v", "u@h:/f", "out"]);
    let verbose = scp_download_arguments(&location, "out", true, &[], false).unwrap();
    assert_eq!(verbose, vec!["u@h:/f", "out"]);
}

#[test]
fn secure_copy_passes_every_option_behind_its_own_flag() {
    let opts = vec!["IdentityFile=~/.ssh/id_rsa".to_string(), "StrictHostKeyChecking=no".to_string()];
    let args =
        scp_upload_arguments("data.bin", &remote("u@h:/srv/data.bin"), false, &opts, false).unwrap();
    assert_eq!(
        args,
        vec![
            "-q",
            "-o",
            "IdentityFile=~/.ssh/id_rsa",
            "-o",
            "StrictHostKeyChecking=no",
            "data.bin",
            "u@h:/srv/data.bin"
        ]
    );
}

#[test]
fn secure_copy_upload_puts_the_local_file_first() {
    let args =
        scp_upload_arguments("a.txt", &remote("ssh://u@h:2200/b.txt"), true, &[], true).unwrap();
    assert_eq!(args, vec!["-P", "2200", "-v", "a.txt", "u@h:/b.txt"]);
}

#[test]
fn secure_copy_needs_a_host() {
    let url = RemoteUrl {
        text: "ssh:/p".to_string(),
        scheme: "ssh".to_string(),
        username: String::new(),
        host: None,
        port: None,
        path: "/p".to_string(),
    };
    let no_host = RemotePath { protocol: Protocol::Ssh, url, path: "/p".to_string() };
    match scp_download_arguments(&no_host, "out", false, &[], false) {
        Err(RemoteCopyError::ConnectionError(why)) => assert_eq!(why, "No host specified in SSH URL"),
        other => panic!("unexpected: {:?}", other),
    }
    match scp_upload_arguments("in", &no_host, false, &[], false) {
        Err(RemoteCopyError::ConnectionError(why)) => assert_eq!(why, "No host specified in SSH URL"),
        other => panic!("unexpected: {:?}", other),
    }
}

#[test]
fn exit_of_a_tool_is_success_or_an_io_failure_with_its_code() {
    assert!(judge_exit(true, Some(0), "scp failed to copy file").is_ok());
    assert!(judge_exit(true, None, "x").is_ok());
    let cases: Vec<(Option<i32>, &str)> = vec![
        (Some(1), "Exit code: 1"),
        (Some(0), "Exit code: 0"),
        (Some(255), "Exit code: 255"),
        (Some(-1), "Exit code: -1"),
        (Some(-15), "Exit code: -15"),
        (Some(i32::MAX), "Exit code: 2147483647"),
        (Some(i32::MIN), "Exit code: -2147483648"),
        (None, "Exit code: -1"),
    ];
    for (code, text) in cases {
        match judge_exit(false, code, "scp failed to copy file") {
            Err(RemoteCopyError::IoError { message, error }) => {
                assert_eq!(message, "scp failed to copy file");
                assert_eq!(error, text);
            }
            other => panic!("unexpected: {:?}", other),
        }
    }
}

#[test]
fn remote_copy_error_texts() {
    assert_eq!(
        RemoteCopyError::NotImplemented("later".into()).to_string(),
        "Feature not yet implemented: later"
    );
    assert_eq!(
        RemoteCopyError::UnsupportedProtocol { src: "http".into(), dst: "s3".into() }.to_string(),
        "Unsupported protocol combination: http -> s3"
    );
    assert_eq!(
        RemoteCopyError::ConnectionError("no route".into()).to_string(),
        "Connection error: no route"
    );
    assert_eq!(
        RemoteCopyError::AuthenticationError("denied".into()).to_string(),
        "Authentication error: denied"
    );
    assert_eq!(
        RemoteCopyError::IoError { message: "scp failed".into(), error: "Exit code: 1".into() }
            .to_string(),
        "scp failed: Exit code: 1"
    );
}
