use usync::backend::local::PathKind;
use usync::backend::traits::{Backend, ChecksumAlgorithm, CopyOptions, FileInfo};
use usync::backend::BackendError;
use usync::copy::{
    add_bytes, add_count, backend_failure, check_local_source, copy_options, copy_through,
    copy_under, copy_with_backends,
    download_tool, final_destination, initial_stats, listing_has_directory, location_text,
    stats_for_one_file, upload_tool, CopyError, CopyStats, LocalSource, RemoteTool,
};
use usync::path::LocalPath;
use usync::protocol::{parse_path, Protocol};
use usync::remote::RemoteCopyError;

fn kind_of(path: &LocalPath) -> PathKind {
    if !path.path_exists() {
        PathKind::Missing
    } else if path.is_file() {
        PathKind::File
    } else if path.is_dir() {
        PathKind::Directory
    } else {
        PathKind::Other
    }
}

#[test]
fn test_copy_to_nonexistent_source() {
    let src = LocalPath::parse("/nonexistent/path/file.txt").unwrap();
    let _dst = LocalPath::parse("dest.txt").unwrap();

    let result = check_local_source(&src.to_string_lossy(), kind_of(&src));
    assert!(result.is_err());
    assert!(matches!(result, Err(CopyError::SourceNotFound(_))));
}

#[test]
fn test_copy_error_display() {
    let error = CopyError::SourceNotFound("test.txt".to_string());
    let display = error.to_string();
    assert!(display.contains("test.txt"));
    assert!(display.contains("not found"));
}

#[test]
fn copy_error_texts() {
    assert_eq!(
        CopyError::SourceNotFound("a.txt".into()).to_string(),
        "Source path not found: a.txt\n\nSuggestion: Check that the file or directory exists and you have read permissions."
    );
    assert_eq!(
        CopyError::InvalidSource("odd".into()).to_string(),
        "Invalid source: odd\n\nSuggestion: Ensure the source is a valid file or directory."
    );
    assert_eq!(
        CopyError::IoError { message: "Failed".into(), error: "denied".into() }.to_string(),
        "Failed\n\nError details: denied\n\nSuggestion: Check file permissions and available disk space."
    );
    assert_eq!(
        CopyError::RemoteError(RemoteCopyError::ConnectionError("down".into())).to_string(),
        "Remote copy error: Connection error: down\n\nSuggestion: Verify network connectivity and remote server access."
    );
    assert_eq!(
        CopyError::UnsupportedProtocol("ftp".into()).to_string(),
        "Unsupported protocol: ftp\n\nSupported protocols: ssh://, sftp://, http://, https://, s3://\nFor more information, see: https://github.com/yassinbousaadi/usync"
    );
    assert_eq!(CopyError::Other("plain".into()).to_string(), "plain");
}

#[test]
fn local_source_is_judged_by_what_stands_at_its_path() {
    assert_eq!(check_local_source("f", PathKind::File).unwrap(), LocalSource::File);
    assert_eq!(check_local_source("d", PathKind::Directory).unwrap(), LocalSource::Directory);
    match check_local_source("gone", PathKind::Missing) {
        Err(CopyError::SourceNotFound(path)) => assert_eq!(path, "gone"),
        other => panic!("unexpected: {:?}", other),
    }
    match check_local_source("pipe", PathKind::Other) {
        Err(CopyError::InvalidSource(why)) => {
            assert_eq!(why, "Source path is neither a file nor a directory")
        }
        other => panic!("unexpected: {:?}", other),
    }
}

#[test]
fn file_copied_onto_a_directory_goes_into_it() {
    assert_eq!(final_destination("in/test1.txt", "out", true).unwrap(), "out/test1.txt");
    assert_eq!(final_destination("in/test1.txt", "out/", true).unwrap(), "out/test1.txt");
    assert_eq!(final_destination("/test1.txt", "/", true).unwrap(), "/test1.txt");
    assert_eq!(final_destination("in/test1.txt", "out/copy.txt", false).unwrap(), "out/copy.txt");
    assert_eq!(final_destination("..", "out", false).unwrap(), "out");
}

#[test]
fn source_without_a_name_cannot_go_into_a_directory() {
    for src in ["", "/", "..", "dir/..", ".", "a/."] {
        match final_destination(src, "out", true) {
            Err(CopyError::InvalidSource(why)) => assert_eq!(why, "Source file has no name"),
            other => panic!("unexpected for {:?}: {:?}", src, other),
        }
    }
}

#[test]
fn counters_start_at_zero_in_both_modes() {
    let kept = CopyStats::new();
    assert_eq!((kept.files_copied, kept.bytes_copied, kept.files_skipped), (0, 0, 0));
    assert!(kept.start_time.is_some());
    assert!(kept.is_tracking());
    let minimal = CopyStats::new_minimal();
    assert_eq!((minimal.files_copied, minimal.bytes_copied, minimal.files_skipped), (0, 0, 0));
    assert!(minimal.start_time.is_none());
    assert!(!minimal.is_tracking());
    assert!(CopyStats::default().start_time.is_none());
}

#[test]
fn kept_counters_count_and_minimal_ones_do_not() {
    let mut kept = CopyStats::new();
    kept.record_copy(10);
    kept.record_copy(32);
    kept.record_skipped(3);
    assert_eq!((kept.files_copied, kept.bytes_copied, kept.files_skipped), (2, 42, 3));

    let mut minimal = CopyStats::new_minimal();
    minimal.record_copy(10);
    minimal.record_skipped(3);
    minimal.merge(&kept);
    assert_eq!((minimal.files_copied, minimal.bytes_copied, minimal.files_skipped), (0, 0, 0));
}

#[test]
fn worker_counters_share_the_mode_and_start_at_zero() {
    let mut kept = CopyStats::new();
    kept.record_copy(10);
    let worker = kept.worker();
    assert_eq!((worker.files_copied, worker.bytes_copied, worker.files_skipped), (0, 0, 0));
    assert_eq!(worker.start_time, kept.start_time);
    assert!(CopyStats::new_minimal().worker().start_time.is_none());
}

#[test]
fn merging_adds_every_counter() {
    let mut shared = CopyStats::new();
    shared.record_copy(1);
    let mut partial = shared.worker();
    partial.record_copy(10);
    partial.record_copy(20);
    partial.record_skipped(4);
    shared.merge(&partial);
    assert_eq!((shared.files_copied, shared.bytes_copied, shared.files_skipped), (3, 31, 4));
}

#[test]
fn parallel_workers_add_up_whatever_the_order() {
    let sizes: Vec<u64> = vec![5, 0, 1_000_000, 17, 4096, 1, 999];
    let total: u64 = sizes.iter().sum();
    let shared = CopyStats::new();
    let partials: Vec<CopyStats> = sizes
        .iter()
        .map(|size| {
            let mut partial = shared.worker();
            partial.record_copy(*size);
            partial
        })
        .collect();

    let orders: Vec<Vec<usize>> = vec![
        vec![0, 1, 2, 3, 4, 5, 6],
        vec![6, 5, 4, 3, 2, 1, 0],
        vec![3, 0, 6, 1, 5, 2, 4],
        vec![1, 3, 5, 0, 2, 4, 6],
    ];
    for order in orders {
        let mut merged = shared.worker();
        for at in order {
            merged.merge(&partials[at]);
        }
        assert_eq!(merged.files_copied, sizes.len());
        assert_eq!(merged.bytes_copied, total);
        assert_eq!(merged.files_skipped, 0);
    }

    // Workers that took several files each.
    let mut left = shared.worker();
    let mut right = shared.worker();
    for (at, size) in sizes.iter().enumerate() {
        if at % 2 == 0 {
            left.record_copy(*size);
        } else {
            right.record_copy(*size);
        }
    }
    let mut one = shared.worker();
    one.merge(&left);
    one.merge(&right);
    let mut other = shared.worker();
    other.merge(&right);
    other.merge(&left);
    assert_eq!((one.files_copied, one.bytes_copied), (sizes.len(), total));
    assert_eq!((other.files_copied, other.bytes_copied), (sizes.len(), total));
}

#[test]
fn counters_stay_at_the_largest_value() {
    assert_eq!(add_bytes(u64::MAX, 1), u64::MAX);
    assert_eq!(add_bytes(u64::MAX - 1, 1), u64::MAX);
    assert_eq!(add_bytes(3, 4), 7);
    assert_eq!(add_count(usize::MAX, usize::MAX), usize::MAX);
    assert_eq!(add_count(3, 4), 7);
    let mut kept = CopyStats::new();
    kept.record_copy(u64::MAX);
    kept.record_copy(5);
    assert_eq!(kept.bytes_copied, u64::MAX);
    assert_eq!(kept.files_copied, 2);
}

#[test]
fn plain_copy_options_are_recursive() {
    let ssh = vec!["IdentityFile=~/.ssh/id".to_string(), "Port=2222".to_string()];
    let opts = copy_options(true, &ssh, false, true);
    assert!(opts.verbose);
    assert!(!opts.progress);
    assert!(opts.use_ram);
    assert!(opts.recursive);
    assert!(!opts.dry_run);
    assert!(opts.filters.is_none());
    assert_eq!(opts.ssh_opts, ssh);
}

#[test]
fn default_copy_options_ask_for_nothing() {
    let opts = CopyOptions::default();
    assert!(!opts.verbose && !opts.progress && !opts.use_ram && !opts.recursive && !opts.dry_run);
    assert!(opts.ssh_opts.is_empty());
    assert!(opts.filters.is_none());
    let recursive = opts.recursively();
    assert!(recursive.recursive);
    assert!(!recursive.verbose);
    let copy = recursive.clone();
    assert!(copy.recursive);
}

#[test]
fn location_is_told_by_path_or_by_url() {
    assert_eq!(location_text(&parse_path("./dir/file.txt").unwrap()), "./dir/file.txt");
    assert_eq!(
        location_text(&parse_path("https://example.com/a b").unwrap()),
        "https://example.com/a%20b"
    );
    assert_eq!(location_text(&parse_path("u@h:/p").unwrap()), "ssh://u@h/p");
}

#[test]
fn counters_are_kept_where_a_summary_is_wanted() {
    let mut opts = CopyOptions::default();
    assert!(initial_stats(&opts).start_time.is_none());
    opts.verbose = true;
    assert!(initial_stats(&opts).start_time.is_some());
    opts.verbose = false;
    opts.progress = true;
    let stats = initial_stats(&opts);
    assert!(stats.start_time.is_some());
    assert_eq!((stats.files_copied, stats.bytes_copied, stats.files_skipped), (0, 0, 0));
}

#[test]
fn single_file_counts_once_where_a_summary_is_wanted() {
    let mut opts = CopyOptions::default();
    let quiet = stats_for_one_file(&opts, 77);
    assert_eq!((quiet.files_copied, quiet.bytes_copied), (0, 0));
    assert!(quiet.start_time.is_none());
    opts.progress = true;
    let counted = stats_for_one_file(&opts, 77);
    assert_eq!((counted.files_copied, counted.bytes_copied, counted.files_skipped), (1, 77, 0));
    assert!(counted.start_time.is_some());
}

#[test]
fn backend_failure_is_wrapped_with_what_was_attempted() {
    let failure = BackendError::NotFound("/x".into());
    match backend_failure("Backend copy failed", &failure) {
        CopyError::IoError { message, error } => {
            assert_eq!(message, "Backend copy failed: Path not found: /x");
            assert_eq!(error, "Path not found: /x");
        }
        other => panic!("unexpected: {:?}", other),
    }
}

#[test]
fn listing_shows_a_directory_only_where_it_holds_one() {
    let file = FileInfo { path: "f".into(), size: 1, is_dir: false, modified: None };
    let dir = FileInfo { path: "d".into(), size: 0, is_dir: true, modified: None };
    assert!(!listing_has_directory(&Ok(vec![])));
    assert!(!listing_has_directory(&Ok(vec![file.clone()])));
    assert!(listing_has_directory(&Ok(vec![file.clone(), dir.clone()])));
    assert!(listing_has_directory(&Ok(vec![dir, file])));
    assert!(!listing_has_directory(&Err(BackendError::Other("x".into()))));
}

#[test]
fn download_tool_goes_by_the_protocol() {
    assert_eq!(download_tool(&Protocol::Ssh).unwrap(), RemoteTool::SecureCopy);
    assert_eq!(download_tool(&Protocol::Sftp).unwrap(), RemoteTool::SecureCopy);
    assert_eq!(download_tool(&Protocol::Http).unwrap(), RemoteTool::HttpDownload);
    assert_eq!(download_tool(&Protocol::Https).unwrap(), RemoteTool::HttpDownload);
    assert_eq!(download_tool(&Protocol::S3).unwrap(), RemoteTool::ObjectCopy);
    match download_tool(&Protocol::File) {
        Err(CopyError::UnsupportedProtocol(why)) => {
            assert_eq!(why, "Copying from file protocol is not supported")
        }
        other => panic!("unexpected: {:?}", other),
    }
    match download_tool(&Protocol::Unknown("ftp".into())) {
        Err(CopyError::UnsupportedProtocol(why)) => {
            assert_eq!(why, "Copying from ftp protocol is not supported")
        }
        other => panic!("unexpected: {:?}", other),
    }
}

#[test]
fn upload_tool_goes_by_protocol_and_kind_of_source() {
    assert_eq!(upload_tool(&Protocol::Ssh, PathKind::File).unwrap(), RemoteTool::SecureCopy);
    assert_eq!(upload_tool(&Protocol::Sftp, PathKind::File).unwrap(), RemoteTool::SecureCopy);
    assert_eq!(upload_tool(&Protocol::S3, PathKind::File).unwrap(), RemoteTool::ObjectCopy);
    assert_eq!(upload_tool(&Protocol::S3, PathKind::Directory).unwrap(), RemoteTool::ObjectSync);
    for kind in [PathKind::Directory, PathKind::Missing, PathKind::Other] {
        match upload_tool(&Protocol::Ssh, kind) {
            Err(CopyError::UnsupportedProtocol(why)) => {
                assert_eq!(why, "Directory copying to remote is not yet implemented")
            }
            other => panic!("unexpected: {:?}", other),
        }
    }
    for kind in [PathKind::Missing, PathKind::Other] {
        match upload_tool(&Protocol::S3, kind) {
            Err(CopyError::UnsupportedProtocol(why)) => {
                assert_eq!(why, "Source must be a file or directory")
            }
            other => panic!("unexpected: {:?}", other),
        }
    }
    match upload_tool(&Protocol::Https, PathKind::File) {
        Err(CopyError::UnsupportedProtocol(why)) => {
            assert_eq!(why, "Copying to https protocol is not supported")
        }
        other => panic!("unexpected: {:?}", other),
    }
}

/// A backend that answers from what it was told and notes what it was asked.
struct Scripted {
    listing: Vec<FileInfo>,
    fail: bool,
    asked: std::sync::Mutex<Vec<String>>,
}

impl Scripted {
    fn new(listing: Vec<FileInfo>, fail: bool) -> Self {
        Scripted { listing, fail, asked: std::sync::Mutex::new(Vec::new()) }
    }

    fn asked(&self) -> Vec<String> {
        self.asked.lock().unwrap().clone()
    }
}

impl Backend for Scripted {
    fn name(&self) -> &str {
        "scripted"
    }

    fn copy_file(&self, src: &str, dst: &str, _opts: &CopyOptions) -> Result<u64, BackendError> {
        self.asked.lock().unwrap().push(format!("copy_file {} {}", src, dst));
        if self.fail {
            Err(BackendError::NotFound(src.to_string()))
        } else {
            Ok(123)
        }
    }

    fn copy_directory(
        &self,
        src: &str,
        dst: &str,
        _opts: &CopyOptions,
    ) -> Result<CopyStats, BackendError> {
        self.asked.lock().unwrap().push(format!("copy_directory {} {}", src, dst));
        if self.fail {
            Err(BackendError::Other("no".to_string()))
        } else {
            let mut stats = CopyStats::new();
            stats.record_copy(9);
            Ok(stats)
        }
    }

    fn list(&self, path: &str) -> Result<Vec<FileInfo>, BackendError> {
        self.asked.lock().unwrap().push(format!("list {}", path));
        Ok(self.listing.clone())
    }

    fn delete(&self, _path: &str) -> Result<(), BackendError> {
        Ok(())
    }

    fn checksum(&self, _path: &str, _algorithm: ChecksumAlgorithm) -> Result<String, BackendError> {
        Ok(String::new())
    }
}

#[test]
fn remote_file_is_copied_by_the_backend_of_the_source() {
    let src = parse_path("https://example.com/file.txt").unwrap();
    let dst = parse_path("/nonexistent/out.txt").unwrap();
    let file = FileInfo { path: "x".into(), size: 1, is_dir: false, modified: None };
    let src_backend = Scripted::new(vec![file], false);
    let dst_backend = Scripted::new(vec![], false);
    let mut opts = CopyOptions::default();
    opts.verbose = true;
    let stats = copy_with_backends(&src, &dst, &src_backend, &dst_backend, &opts).unwrap();
    assert_eq!((stats.files_copied, stats.bytes_copied), (1, 123));
    assert_eq!(
        src_backend.asked(),
        vec![
            "list https://example.com/file.txt",
            "copy_file https://example.com/file.txt /nonexistent/out.txt"
        ]
    );
    assert!(dst_backend.asked().is_empty());
}

#[test]
fn remote_directory_is_copied_by_the_backend_of_the_destination() {
    let src = parse_path("s3://bucket/prefix/").unwrap();
    let dst = parse_path("/nonexistent/out").unwrap();
    let dir = FileInfo { path: "x".into(), size: 0, is_dir: true, modified: None };
    let src_backend = Scripted::new(vec![dir], false);
    let dst_backend = Scripted::new(vec![], false);
    let stats =
        copy_with_backends(&src, &dst, &src_backend, &dst_backend, &CopyOptions::default()).unwrap();
    assert_eq!((stats.files_copied, stats.bytes_copied), (1, 9));
    assert_eq!(dst_backend.asked(), vec!["copy_directory s3://bucket/prefix/ /nonexistent/out"]);
}

#[test]
fn local_source_that_is_no_directory_is_copied_as_a_file() {
    let src = parse_path("/nonexistent/in.txt").unwrap();
    let dst = parse_path("/nonexistent/out.txt").unwrap();
    let src_backend = Scripted::new(vec![], false);
    let dst_backend = Scripted::new(vec![], false);
    let stats =
        copy_with_backends(&src, &dst, &src_backend, &dst_backend, &CopyOptions::default()).unwrap();
    assert_eq!((stats.files_copied, stats.bytes_copied), (0, 0));
    assert_eq!(src_backend.asked(), vec!["copy_file /nonexistent/in.txt /nonexistent/out.txt"]);
}

#[test]
fn failure_of_a_backend_comes_back_as_an_io_failure_of_the_copy() {
    let src = parse_path("/nonexistent/in.txt").unwrap();
    let dst = parse_path("/nonexistent/out.txt").unwrap();
    let src_backend = Scripted::new(vec![], true);
    let dst_backend = Scripted::new(vec![], true);
    match copy_with_backends(&src, &dst, &src_backend, &dst_backend, &CopyOptions::default()) {
        Err(CopyError::IoError { message, error }) => {
            assert_eq!(message, "Backend copy failed: Path not found: /nonexistent/in.txt");
            assert_eq!(error, "Path not found: /nonexistent/in.txt");
        }
        other => panic!("unexpected: {:?}", other.map(|s| s.files_copied)),
    }
    let dir = FileInfo { path: "x".into(), size: 0, is_dir: true, modified: None };
    let remote = parse_path("sftp://host/dir").unwrap();
    let listing_backend = Scripted::new(vec![dir], false);
    match copy_with_backends(&remote, &dst, &listing_backend, &dst_backend, &CopyOptions::default())
    {
        Err(CopyError::IoError { message, error }) => {
            assert_eq!(message, "Backend directory copy failed: Error: no");
            assert_eq!(error, "Error: no");
        }
        other => panic!("unexpected: {:?}", other.map(|s| s.files_copied)),
    }
}

#[test]
fn copying_through_backends_goes_by_the_kind_of_the_source() {
    let src_backend = Scripted::new(vec![], false);
    let dst_backend = Scripted::new(vec![], false);
    let mut opts = CopyOptions::default();
    opts.progress = true;
    let stats = copy_through(&src_backend, &dst_backend, &opts, "in.txt", "out.txt", false).unwrap();
    assert_eq!((stats.files_copied, stats.bytes_copied, stats.files_skipped), (1, 123, 0));
    assert_eq!(src_backend.asked(), vec!["copy_file in.txt out.txt"]);
    assert!(dst_backend.asked().is_empty());

    let stats = copy_through(&src_backend, &dst_backend, &opts, "in", "out", true).unwrap();
    assert_eq!((stats.files_copied, stats.bytes_copied), (1, 9));
    assert_eq!(dst_backend.asked(), vec!["copy_directory in out"]);

    let failing = Scripted::new(vec![], true);
    match copy_through(&failing, &failing, &opts, "in.txt", "out.txt", false) {
        Err(CopyError::IoError { message, error }) => {
            assert_eq!(message, "Backend copy failed: Path not found: in.txt");
            assert_eq!(error, "Path not found: in.txt");
        }
        other => panic!("unexpected: {:?}", other.map(|s| s.files_copied)),
    }
    match copy_through(&failing, &failing, &opts, "in", "out", true) {
        Err(CopyError::IoError { message, error }) => {
            assert_eq!(message, "Backend directory copy failed: Error: no");
            assert_eq!(error, "Error: no");
        }
        other => panic!("unexpected: {:?}", other.map(|s| s.files_copied)),
    }
}

#[test]
fn copy_under_options_puts_a_file_into_a_directory() {
    let src = parse_path("in/test1.txt").unwrap();
    let dst = parse_path("out").unwrap();
    let src_backend = Scripted::new(vec![], false);
    let dst_backend = Scripted::new(vec![], false);
    let mut opts = CopyOptions::default();
    opts.verbose = true;
    let stats =
        copy_under(&src, &dst, &src_backend, &dst_backend, &opts, None, false, true).unwrap();
    assert_eq!((stats.files_copied, stats.bytes_copied), (1, 123));
    assert_eq!(src_backend.asked(), vec!["copy_file in/test1.txt out/test1.txt"]);

    let stats =
        copy_under(&src, &dst, &src_backend, &dst_backend, &opts, None, false, false).unwrap();
    assert_eq!((stats.files_copied, stats.bytes_copied), (1, 123));
    assert_eq!(src_backend.asked()[1], "copy_file in/test1.txt out");

    let remote = parse_path("s3://bucket/key").unwrap();
    copy_under(&src, &remote, &src_backend, &dst_backend, &opts, None, false, true).unwrap();
    assert_eq!(src_backend.asked()[2], "copy_file in/test1.txt s3://bucket/key");

    let stats =
        copy_under(&src, &dst, &src_backend, &dst_backend, &opts, None, true, false).unwrap();
    assert_eq!((stats.files_copied, stats.bytes_copied), (1, 9));
    assert_eq!(dst_backend.asked(), vec!["copy_directory in/test1.txt out"]);
}

#[test]
fn copy_under_options_refuses_a_source_without_a_name() {
    let src = parse_path("..").unwrap();
    let dst = parse_path("out").unwrap();
    let src_backend = Scripted::new(vec![], false);
    let dst_backend = Scripted::new(vec![], false);
    let opts = CopyOptions::default();
    match copy_under(&src, &dst, &src_backend, &dst_backend, &opts, None, false, true) {
        Err(CopyError::InvalidSource(why)) => assert_eq!(why, "Source file has no name"),
        other => panic!("unexpected: {:?}", other.map(|s| s.files_copied)),
    }
    assert!(src_backend.asked().is_empty());
}

#[test]
fn copy_under_options_asks_nothing_in_a_dry_run() {
    let src = parse_path("in/test1.txt").unwrap();
    let dst = parse_path("out").unwrap();
    let src_backend = Scripted::new(vec![], true);
    let dst_backend = Scripted::new(vec![], true);
    let mut opts = CopyOptions::default();
    opts.dry_run = true;
    opts.verbose = true;
    for as_directory in [false, true] {
        let stats = copy_under(
            &src,
            &dst,
            &src_backend,
            &dst_backend,
            &opts,
            Some(ChecksumAlgorithm::Md5),
            as_directory,
            true,
        )
        .unwrap();
        assert_eq!((stats.files_copied, stats.bytes_copied, stats.files_skipped), (0, 0, 0));
        assert!(stats.is_tracking());
    }
    assert!(src_backend.asked().is_empty());
    assert!(dst_backend.asked().is_empty());
}
