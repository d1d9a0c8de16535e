use usync::backend::local::DeleteAction;
use usync::backend::traits::{Backend, ChecksumAlgorithm, CopyOptions, FileInfo};
use usync::backend::BackendError;
use usync::config::{
    algorithm_from_lowercase, algorithm_from_name, build_filters, flag_is_set, flag_is_set_with,
    is_yes, is_yes_lowercase, split_options,
};
use usync::copy::{copy_with_options, plan_source_removal, sync_with_options, CopyError, CopyStats};
use usync::protocol::parse_path;

#[test]
fn flag_is_on_unless_empty_zero_or_false() {
    for value in ["1", "yes", "true", "on", "00", "0 ", "no", "f", "falsey"] {
        assert!(flag_is_set(value), "for {:?}", value);
    }
    for value in ["", "0", "false", "FALSE", "False", "fAlSe"] {
        assert!(!flag_is_set(value), "for {:?}", value);
    }
    assert!(flag_is_set_with("x", "x"));
    assert!(!flag_is_set_with("x", "false"));
    assert!(!flag_is_set_with("", "x"));
    assert!(!flag_is_set_with("0", "0"));
}

#[test]
fn digests_go_by_their_names_in_any_case() {
    assert_eq!(algorithm_from_name("md5"), Some(ChecksumAlgorithm::Md5));
    assert_eq!(algorithm_from_name("MD5"), Some(ChecksumAlgorithm::Md5));
    assert_eq!(algorithm_from_name("Sha1"), Some(ChecksumAlgorithm::Sha1));
    assert_eq!(algorithm_from_name("SHA256"), Some(ChecksumAlgorithm::Sha256));
    for name in ["", "md4", "sha-1", "sha512", "md5 ", "sha2566"] {
        assert_eq!(algorithm_from_name(name), None, "for {:?}", name);
    }
    assert_eq!(algorithm_from_lowercase("sha256"), Some(ChecksumAlgorithm::Sha256));
    assert_eq!(algorithm_from_lowercase("SHA256"), None);
}

#[test]
fn yes_is_y_or_yes() {
    for answer in ["y", "Y", "yes", "YES", " Yes \n", "\ty\r\n"] {
        assert!(is_yes(answer), "for {:?}", answer);
    }
    for answer in ["", "n", "no", "yess", "ye", "y e s", "yes please", "\n"] {
        assert!(!is_yes(answer), "for {:?}", answer);
    }
    assert!(is_yes_lowercase("yes"));
    assert!(!is_yes_lowercase("Yes"));
}

#[test]
fn options_are_separated_by_white_space() {
    assert_eq!(split_options(""), Vec::<String>::new());
    assert_eq!(split_options("  "), Vec::<String>::new());
    assert_eq!(
        split_options(" IdentityFile=~/.ssh/id_rsa\tStrictHostKeyChecking=no \n"),
        vec!["IdentityFile=~/.ssh/id_rsa", "StrictHostKeyChecking=no"]
    );
}

fn file(path: &str, size: u64) -> FileInfo {
    FileInfo { path: path.to_string(), size, is_dir: false, modified: None }
}

#[test]
fn no_filter_is_built_where_none_is_asked_for() {
    assert!(build_filters(vec![], vec![], None, None).unwrap().is_none());
}

#[test]
fn filters_are_built_from_patterns_and_bounds() {
    let chain = build_filters(vec!["*.txt".into()], vec!["*secret*".into()], None, None)
        .unwrap()
        .unwrap();
    assert_eq!(chain.len(), 1);
    assert!(chain.matches(&file("notes.txt", 1)));
    assert!(!chain.matches(&file("secret.txt", 1)));
    assert!(!chain.matches(&file("image.png", 1)));

    let chain = build_filters(vec![], vec![], Some(100), None).unwrap().unwrap();
    assert_eq!(chain.len(), 1);
    assert!(chain.matches(&file("a", 100)));
    assert!(!chain.matches(&file("a", 99)));

    let chain =
        build_filters(vec![], vec!["*.bin".into()], None, Some(10)).unwrap().unwrap();
    assert_eq!(chain.len(), 2);
    assert!(chain.matches(&file("a.txt", 10)));
    assert!(!chain.matches(&file("a.txt", 11)));
    assert!(!chain.matches(&file("a.bin", 1)));
}

#[test]
fn malformed_pattern_keeps_filters_from_being_built() {
    match build_filters(vec!["[".into()], vec![], Some(1), None) {
        Err(why) => assert!(why.starts_with("Invalid include pattern: ")),
        Ok(_) => panic!("a malformed pattern was accepted"),
    }
    match build_filters(vec![], vec!["a**b".into()], None, None) {
        Err(why) => assert!(why.starts_with("Invalid exclude pattern: ")),
        Ok(_) => panic!("a malformed pattern was accepted"),
    }
}

#[test]
fn source_of_a_move_is_removed_by_its_kind() {
    let local = parse_path("/tmp/x").unwrap();
    assert_eq!(plan_source_removal(&local, true).unwrap(), DeleteAction::RemoveTree);
    assert_eq!(plan_source_removal(&local, false).unwrap(), DeleteAction::RemoveFile);
    let remote = parse_path("ssh://u@h/x").unwrap();
    assert_eq!(
        plan_source_removal(&remote, false).unwrap_err(),
        "Cannot remove remote files. Move operation only supported for local files."
    );
}

/// A backend that notes what it is asked and answers with fixed values.
struct Noting {
    asked: std::sync::Arc<std::sync::Mutex<Vec<String>>>,
    digest: &'static str,
}

impl Noting {
    fn boxed(asked: &std::sync::Arc<std::sync::Mutex<Vec<String>>>, digest: &'static str) -> Box<dyn Backend> {
        Box::new(Noting { asked: asked.clone(), digest })
    }
}

impl Backend for Noting {
    fn name(&self) -> &str {
        "noting"
    }

    fn copy_file(&self, src: &str, dst: &str, _opts: &CopyOptions) -> Result<u64, BackendError> {
        self.asked.lock().unwrap().push(format!("copy_file {} {}", src, dst));
        Ok(11)
    }

    fn copy_directory(
        &self,
        src: &str,
        dst: &str,
        opts: &CopyOptions,
    ) -> Result<CopyStats, BackendError> {
        self.asked.lock().unwrap().push(format!("copy_directory {} {} {}", src, dst, opts.recursive));
        Ok(CopyStats::new_minimal())
    }

    fn list(&self, path: &str) -> Result<Vec<FileInfo>, BackendError> {
        self.asked.lock().unwrap().push(format!("list {}", path));
        if path.starts_with("/nonexistent/dst") {
            Err(BackendError::NotFound(path.to_string()))
        } else {
            Ok(vec![file(&format!("{}/a.txt", path), 4)])
        }
    }

    fn delete(&self, path: &str) -> Result<(), BackendError> {
        self.asked.lock().unwrap().push(format!("delete {}", path));
        Ok(())
    }

    fn checksum(&self, path: &str, _algorithm: ChecksumAlgorithm) -> Result<String, BackendError> {
        self.asked.lock().unwrap().push(format!("checksum {}", path));
        if path.contains("out") {
            Ok(self.digest.to_string())
        } else {
            Ok("aa".to_string())
        }
    }
}

fn notes() -> std::sync::Arc<std::sync::Mutex<Vec<String>>> {
    std::sync::Arc::new(std::sync::Mutex::new(Vec::new()))
}

#[test]
fn copy_of_a_file_is_counted_and_verified() {
    let src = parse_path("/nonexistent/in.txt").unwrap();
    let dst = parse_path("/nonexistent/out.txt").unwrap();
    let asked = notes();
    let mut opts = CopyOptions::default();
    opts.verbose = true;
    let stats = copy_with_options(
        &src,
        &dst,
        Noting::boxed(&asked, "aa"),
        Noting::boxed(&asked, "aa"),
        opts,
        Some(ChecksumAlgorithm::Md5),
    )
    .unwrap();
    assert_eq!((stats.files_copied, stats.bytes_copied, stats.files_skipped), (1, 11, 0));
    assert_eq!(
        *asked.lock().unwrap(),
        vec![
            "copy_file /nonexistent/in.txt /nonexistent/out.txt",
            "checksum /nonexistent/in.txt",
            "checksum /nonexistent/out.txt"
        ]
    );
}

#[test]
fn copy_whose_digests_differ_fails() {
    let src = parse_path("/nonexistent/in.txt").unwrap();
    let dst = parse_path("/nonexistent/out.txt").unwrap();
    let asked = notes();
    match copy_with_options(
        &src,
        &dst,
        Noting::boxed(&asked, "bb"),
        Noting::boxed(&asked, "bb"),
        CopyOptions::default(),
        Some(ChecksumAlgorithm::Sha1),
    ) {
        Err(CopyError::IoError { message, error }) => {
            assert_eq!(message, "Backend copy failed: Checksum mismatch: expected aa, got bb");
            assert_eq!(error, "Checksum mismatch: expected aa, got bb");
        }
        other => panic!("unexpected: {:?}", other.map(|s| s.files_copied)),
    }
}

#[test]
fn dry_run_asks_nothing_of_the_backends() {
    let src = parse_path("/nonexistent/in.txt").unwrap();
    let dst = parse_path("/nonexistent/out.txt").unwrap();
    let asked = notes();
    let mut opts = CopyOptions::default();
    opts.dry_run = true;
    opts.verbose = true;
    let stats = copy_with_options(
        &src,
        &dst,
        Noting::boxed(&asked, "aa"),
        Noting::boxed(&asked, "aa"),
        opts,
        Some(ChecksumAlgorithm::Md5),
    )
    .unwrap();
    assert_eq!((stats.files_copied, stats.bytes_copied, stats.files_skipped), (0, 0, 0));
    assert!(asked.lock().unwrap().is_empty());
}

#[test]
fn synchronization_runs_one_way_through_both_backends() {
    let src = parse_path("/nonexistent/src").unwrap();
    let dst = parse_path("/nonexistent/dst").unwrap();
    let asked = notes();
    let stats = sync_with_options(
        &src,
        &dst,
        Noting::boxed(&asked, "aa"),
        Noting::boxed(&asked, "aa"),
        CopyOptions::default(),
    )
    .unwrap();
    assert_eq!((stats.files_copied, stats.bytes_copied, stats.files_deleted), (1, 11, 0));
    assert_eq!(
        *asked.lock().unwrap(),
        vec![
            "list /nonexistent/src",
            "list /nonexistent/dst",
            "copy_file /nonexistent/src/a.txt /nonexistent/dst/a.txt"
        ]
    );
}

#[test]
fn file_copied_onto_a_local_directory_goes_into_it() {
    let dir = tempfile::TempDir::new().unwrap();
    let dir_text = dir.path().to_str().unwrap().to_string();
    let src = parse_path("/nonexistent/report.txt").unwrap();
    let dst = parse_path(&dir_text).unwrap();
    let asked = notes();
    copy_with_options(
        &src,
        &dst,
        Noting::boxed(&asked, "aa"),
        Noting::boxed(&asked, "aa"),
        CopyOptions::default(),
        None,
    )
    .unwrap();
    assert_eq!(
        *asked.lock().unwrap(),
        vec![format!("copy_file /nonexistent/report.txt {}/report.txt", dir_text)]
    );
}

#[test]
fn local_directory_is_copied_as_a_tree_by_the_backend_of_the_destination() {
    let dir = tempfile::TempDir::new().unwrap();
    let dir_text = dir.path().to_str().unwrap().to_string();
    let src = parse_path(&dir_text).unwrap();
    let dst = parse_path("/nonexistent/out").unwrap();
    let src_asked = notes();
    let dst_asked = notes();
    let stats = copy_with_options(
        &src,
        &dst,
        Noting::boxed(&src_asked, "aa"),
        Noting::boxed(&dst_asked, "aa"),
        CopyOptions::default(),
        None,
    )
    .unwrap();
    assert_eq!(stats.files_copied, 0);
    assert!(src_asked.lock().unwrap().is_empty());
    assert_eq!(
        *dst_asked.lock().unwrap(),
        vec![format!("copy_directory {} /nonexistent/out true", dir_text)]
    );
}
