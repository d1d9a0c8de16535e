use usync::backend::checksum::{checksum_hex, compare_digests, to_hex};
use usync::backend::traits::ChecksumAlgorithm;
use usync::backend::BackendError;
use usync::operations::copy::{
    judge_digests, report_digests, summarize_failures, ChecksumFailure,
};

#[test]
fn digests_of_the_empty_input() {
    assert_eq!(checksum_hex(b"", ChecksumAlgorithm::Md5), "d41d8cd98f00b204e9800998ecf8427e");
    assert_eq!(
        checksum_hex(b"", ChecksumAlgorithm::Sha1),
        "da39a3ee5e6b4b0d3255bfef95601890afd80709"
    );
    assert_eq!(
        checksum_hex(b"", ChecksumAlgorithm::Sha256),
        "e3b0c44298fc1c149afbf4c8996fb92427ae41e4649b934ca495991b7852b855"
    );
}

#[test]
fn digests_of_abc() {
    assert_eq!(checksum_hex(b"abc", ChecksumAlgorithm::Md5), "900150983cd24fb0d6963f7d28e17f72");
    assert_eq!(
        checksum_hex(b"abc", ChecksumAlgorithm::Sha1),
        "a9993e364706816aba3e25717850c26c9cd0d89d"
    );
    assert_eq!(
        checksum_hex(b"abc", ChecksumAlgorithm::Sha256),
        "ba7816bf8f01cfea414140de5dae2223b00361a396177a9cb410ff61f20015ad"
    );
}

#[test]
fn digest_length_depends_on_the_algorithm_alone() {
    let inputs: Vec<Vec<u8>> = vec![vec![], vec![0], vec![0xff; 1000], (0..=255u8).collect()];
    for input in &inputs {
        assert_eq!(checksum_hex(input, ChecksumAlgorithm::Md5).len(), 32);
        assert_eq!(checksum_hex(input, ChecksumAlgorithm::Sha1).len(), 40);
        assert_eq!(checksum_hex(input, ChecksumAlgorithm::Sha256).len(), 64);
    }
}

#[test]
fn digests_are_lower_case_hexadecimal() {
    for algorithm in [ChecksumAlgorithm::Md5, ChecksumAlgorithm::Sha1, ChecksumAlgorithm::Sha256] {
        let text = checksum_hex(b"some content", algorithm);
        assert!(text.chars().all(|c| c.is_ascii_digit() || ('a'..='f').contains(&c)));
    }
}

#[test]
fn one_changed_byte_changes_the_digest() {
    let original = b"The quick brown fox".to_vec();
    let mut corrupted = original.clone();
    corrupted[3] ^= 0x20;
    for algorithm in [ChecksumAlgorithm::Md5, ChecksumAlgorithm::Sha1, ChecksumAlgorithm::Sha256] {
        let expected = checksum_hex(&original, algorithm);
        let actual = checksum_hex(&corrupted, algorithm);
        assert_ne!(expected, actual);
        assert_eq!(expected.len(), actual.len());
        match compare_digests(expected.clone(), actual.clone()) {
            Err(BackendError::ChecksumMismatch { expected: e, actual: a }) => {
                assert_eq!(e, expected);
                assert_eq!(a, actual);
            }
            other => panic!("unexpected: {:?}", other),
        }
        assert!(compare_digests(expected.clone(), expected).is_ok());
    }
}

#[test]
fn hexadecimal_has_two_digits_for_each_byte() {
    assert_eq!(to_hex(&[]), "");
    assert_eq!(to_hex(&[0x00]), "00");
    assert_eq!(to_hex(&[0x0f, 0xf0, 0xff]), "0ff0ff");
    assert_eq!(to_hex(&[0x01, 0x23, 0x45, 0x67, 0x89, 0xab, 0xcd, 0xef]), "0123456789abcdef");
    assert_eq!(to_hex(&[0xbe, 0xef]), "beef");
}

#[test]
fn compared_digests_must_be_the_same_text() {
    assert!(compare_digests(String::new(), String::new()).is_ok());
    assert!(compare_digests("ab".into(), "ab".into()).is_ok());
    assert!(compare_digests("ab".into(), "AB".into()).is_err());
    assert!(compare_digests("ab".into(), "abc".into()).is_err());
}

#[test]
fn failures_are_summed_up_in_one_mismatch() {
    assert!(summarize_failures(&vec![]).is_ok());
    let failure = |n: usize| ChecksumFailure {
        path: format!("f{}", n),
        expected: format!("aa{}", n),
        actual: format!("bb{}", n),
    };
    let one = vec![failure(0)];
    match summarize_failures(&one) {
        Err(BackendError::ChecksumMismatch { expected, actual }) => {
            assert_eq!(expected, "f0: aa0");
            assert_eq!(actual, "f0: bb0");
        }
        other => panic!("unexpected: {:?}", other),
    }
    let three = vec![failure(0), failure(1), failure(2)];
    match summarize_failures(&three) {
        Err(BackendError::ChecksumMismatch { expected, actual }) => {
            assert_eq!(expected, "f0: aa0, f1: aa1, f2: aa2");
            assert_eq!(actual, "f0: bb0, f1: bb1, f2: bb2");
        }
        other => panic!("unexpected: {:?}", other),
    }
    let many: Vec<ChecksumFailure> = (0..120).map(failure).collect();
    match summarize_failures(&many) {
        Err(BackendError::ChecksumMismatch { expected, actual }) => {
            let wanted: Vec<String> = (0..120).map(|n| format!("f{}: aa{}", n, n)).collect();
            assert_eq!(expected, wanted.join(", "));
            assert_eq!(actual.matches(", ").count(), 119);
            assert!(actual.ends_with("f119: bb119"));
        }
        other => panic!("unexpected: {:?}", other),
    }
}

#[test]
fn report_names_every_file_with_the_digest_asked_for() {
    assert_eq!(report_digests(&vec![], false), "");
    assert_eq!(report_digests(&vec![], true), "");
    let failures = vec![
        ChecksumFailure { path: "a.txt".into(), expected: "11".into(), actual: "22".into() },
        ChecksumFailure { path: "sub/b.txt".into(), expected: "33".into(), actual: "44".into() },
    ];
    assert_eq!(report_digests(&failures, false), "a.txt: 11, sub/b.txt: 33");
    assert_eq!(report_digests(&failures, true), "a.txt: 22, sub/b.txt: 44");
}

#[test]
fn digests_of_one_file_are_judged_by_their_text() {
    assert!(judge_digests("/src/a.txt", "/src", "aa".into(), "aa".into()).is_none());
    let failure = judge_digests("/src/sub/a.txt", "/src", "aa".into(), "ab".into()).unwrap();
    assert_eq!(failure.path, "sub/a.txt");
    assert_eq!(failure.expected, "aa");
    assert_eq!(failure.actual, "ab");
}
