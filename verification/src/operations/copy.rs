use crate::backend::checksum::compare_digests;
use crate::backend::error::BackendError;
use crate::backend::traits::{
    ask_checksum, ask_copy_directory, ask_copy_file, ask_list, digested, directory_copied,
    entries, file_copied, listed, Backend, ChecksumAlgorithm, CopyOptions, FileEntry, FileInfo,
};
use crate::copy::CopyStats;
use crate::operations::sync::{copy_only_work, plan_copy_only, CopyStep, SyncPlan};
use crate::text::{relative_path, relative_to};
use vstd::prelude::*;
use vstd::string::*;

verus! {

/// One file whose copy does not have the digest of its source.
#[derive(Debug)]
pub struct ChecksumFailure {
    /// The path of the file below the source root.
    pub path: String,
    /// The digest of the source.
    pub expected: String,
    /// The digest of the copy.
    pub actual: String,
}

/// The mathematical content of a [`ChecksumFailure`].
pub struct FailureView {
    pub path: Seq<char>,
    pub expected: Seq<char>,
    pub actual: Seq<char>,
}

impl View for ChecksumFailure {
    type V = FailureView;

    open spec fn view(&self) -> FailureView {
        FailureView { path: self.path@, expected: self.expected@, actual: self.actual@ }
    }
}

/// What `failures` hold.
pub open spec fn failure_views(failures: Seq<ChecksumFailure>) -> Seq<FailureView> {
    failures.map_values(|f: ChecksumFailure| f@)
}

/// What the digests of a copy and of its source say of the file at `src`
/// below `root`: nothing where they are the same, else a failure that
/// carries both.
pub open spec fn failure_of(
    src: Seq<char>,
    root: Seq<char>,
    expected: Seq<char>,
    actual: Seq<char>,
) -> Option<FailureView> {
    if expected == actual {
        None
    } else {
        Some(FailureView { path: relative_to(src, root), expected, actual })
    }
}

/// Judges the two digests of one file.
pub fn judge_digests(src: &str, root: &str, expected: String, actual: String) -> (judged: Option<
    ChecksumFailure,
>)
    ensures
        match judged {
            Some(failure) => failure_of(src@, root@, expected@, actual@) == Some(failure@),
            None => failure_of(src@, root@, expected@, actual@) is None,
        },
{
    if expected == actual {
        None
    } else {
        Some(ChecksumFailure { path: relative_path(src, root), expected, actual })
    }
}

/// What the report of a failed verification says of one file: its path and
/// one of its two digests.
pub open spec fn report_entry(path: Seq<char>, digest: Seq<char>) -> Seq<char> {
    path + ": "@ + digest
}

/// The report of the files that failed verification, in order and with
/// `", "` between them: each with the digest of its copy where `of_copy` is
/// set, and with the digest of its source otherwise.
pub open spec fn digests_report(failures: Seq<FailureView>, of_copy: bool) -> Seq<char>
    decreases failures.len(),
{
    if failures.len() == 0 {
        Seq::empty()
    } else {
        let last = failures.last();
        let entry = report_entry(
            last.path,
            if of_copy {
                last.actual
            } else {
                last.expected
            },
        );
        if failures.len() == 1 {
            entry
        } else {
            digests_report(failures.drop_last(), of_copy) + ", "@ + entry
        }
    }
}

/// `verdict` is what follows from the files that failed verification:
/// success where there is none, else one checksum mismatch that reports
/// every one of them, with the digests of the sources as what was expected
/// and the digests of the copies as what was found.
pub open spec fn verdict_of(failures: Seq<FailureView>, verdict: Result<(), BackendError>) -> bool {
    if failures.len() == 0 {
        verdict is Ok
    } else {
        verdict matches Err(BackendError::ChecksumMismatch { expected, actual }) && expected@
            == digests_report(failures, false) && actual@ == digests_report(failures, true)
    }
}

/// Writes the report of `failures`, with the digests of the copies where
/// `of_copy` is set and with those of the sources otherwise.
pub fn report_digests(failures: &Vec<ChecksumFailure>, of_copy: bool) -> (report: String)
    ensures
        report@ == digests_report(failure_views(failures@), of_copy),
{
    let ghost views = failure_views(failures@);
    let mut report = String::new();
    let mut i: usize = 0;
    assert(report@ =~= digests_report(views.take(0), of_copy));
    while i < failures.len()
        invariant
            i <= failures@.len(),
            views == failure_views(failures@),
            report@ == digests_report(views.take(i as int), of_copy),
        decreases failures@.len() - i,
    {
        let failure = &failures[i];
        proof {
            assert(views.take(i + 1).drop_last() == views.take(i as int));
            assert(views.take(i + 1).last() == failure@);
        }
        let ghost before = report@;
        if i > 0 {
            report.append(", ");
        }
        report.append(failure.path.as_str());
        report.append(": ");
        if of_copy {
            report.append(failure.actual.as_str());
        } else {
            report.append(failure.expected.as_str());
        }
        assert(report@ =~= digests_report(views.take(i + 1), of_copy));
        i += 1;
    }
    assert(views.take(failures@.len() as int) == views);
    report
}

/// Sums up the verification of a directory: no failure is success, and any
/// number of failures is one checksum mismatch that reports every file that
/// failed, with both of its digests.
pub fn summarize_failures(failures: &Vec<ChecksumFailure>) -> (summary: Result<(), BackendError>)
    ensures
        verdict_of(failure_views(failures@), summary),
        summary is Ok <==> failures@.len() == 0,
{
    if failures.len() == 0 {
        return Ok(());
    }
    let expected = report_digests(failures, false);
    let actual = report_digests(failures, true);
    Err(BackendError::ChecksumMismatch { expected, actual })
}

/// `used` is `opts` made recursive: `recursive` is set, and all else is as
/// in `opts`.
pub open spec fn recursive_form(used: CopyOptions, opts: CopyOptions) -> bool {
    &&& used.recursive
    &&& used.verbose == opts.verbose
    &&& used.progress == opts.progress
    &&& used.use_ram == opts.use_ram
    &&& used.dry_run == opts.dry_run
    &&& used.ssh_opts@ == opts.ssh_opts@
    &&& used.filters is Some == opts.filters is Some
    &&& forall|file: FileEntry| #[trigger] used.admits(file) == opts.admits(file)
}

/// `verdict` is what comparing the digest of `src` with that of `dst` came
/// to: the failure of the backend where a digest could not be had (the source
/// is digested first), success where the two digests are the same, else a
/// checksum mismatch that carries both.
pub open spec fn digests_compared<B: Backend + ?Sized>(
    backend: &B,
    src: Seq<char>,
    dst: Seq<char>,
    algorithm: ChecksumAlgorithm,
    verdict: Result<(), BackendError>,
) -> bool {
    exists|of_source: Result<String, BackendError>| #[trigger]
        digested(backend, src, algorithm, of_source) && match of_source {
            Err(e) => verdict == Err::<(), BackendError>(e),
            Ok(expected) => exists|of_copy: Result<String, BackendError>| #[trigger]
                digested(backend, dst, algorithm, of_copy) && match of_copy {
                    Err(e) => verdict == Err::<(), BackendError>(e),
                    Ok(actual) => if expected@ == actual@ {
                        verdict is Ok
                    } else {
                        verdict matches Err(
                            BackendError::ChecksumMismatch {
                                expected: shown_expected,
                                actual: shown_actual,
                            },
                        ) && shown_expected@ == expected@ && shown_actual@ == actual@
                    },
                },
        }
}

/// `copied` is what copying the file `src` to `dst` came to.
///
/// In a dry run nothing is asked of the backend and the answer is 0 bytes.
/// Otherwise the backend copies the file; its failure is handed back, and so
/// is its byte count where no digest is set. Where one is set the copy is
/// verified, see [`digests_compared`], and the byte count is handed back only
/// where the verification succeeded.
pub open spec fn file_copy_outcome<B: Backend + ?Sized>(
    backend: &B,
    opts: CopyOptions,
    algorithm: Option<ChecksumAlgorithm>,
    src: Seq<char>,
    dst: Seq<char>,
    copied: Result<u64, BackendError>,
) -> bool {
    if opts.dry_run {
        copied == Ok::<u64, BackendError>(0)
    } else {
        exists|answer: Result<u64, BackendError>| #[trigger]
            file_copied(backend, src, dst, opts, answer) && match answer {
                Err(e) => copied == Err::<u64, BackendError>(e),
                Ok(bytes) => match algorithm {
                    None => copied == Ok::<u64, BackendError>(bytes),
                    Some(with) => exists|verdict: Result<(), BackendError>| #[trigger]
                        digests_compared(backend, src, dst, with, verdict) && match verdict {
                            Ok(_) => copied == Ok::<u64, BackendError>(bytes),
                            Err(e) => copied == Err::<u64, BackendError>(e),
                        },
                },
            }
    }
}

/// The failures among `targets`, in order, where `expected` and `actual` hold
/// the digests of each source and of its copy.
pub open spec fn mismatches(
    targets: Seq<CopyStep>,
    root: Seq<char>,
    expected: Seq<String>,
    actual: Seq<String>,
) -> Seq<FailureView>
    decreases targets.len(),
{
    if targets.len() == 0 || expected.len() != targets.len() || actual.len() != targets.len() {
        Seq::empty()
    } else {
        let earlier = mismatches(
            targets.drop_last(),
            root,
            expected.drop_last(),
            actual.drop_last(),
        );
        match failure_of(targets.last().src, root, expected.last()@, actual.last()@) {
            Some(failure) => earlier.push(failure),
            None => earlier,
        }
    }
}

/// A file whose two digests differ is among the mismatches, with both of
/// its digests: none is passed over.
pub proof fn lemma_differing_file_is_reported(
    targets: Seq<CopyStep>,
    root: Seq<char>,
    expected: Seq<String>,
    actual: Seq<String>,
    at: int,
)
    requires
        expected.len() == targets.len(),
        actual.len() == targets.len(),
        0 <= at < targets.len(),
        expected[at]@ != actual[at]@,
    ensures
        mismatches(targets, root, expected, actual).contains(
            (FailureView {
                path: relative_to(targets[at].src, root),
                expected: expected[at]@,
                actual: actual[at]@,
            }),
        ),
    decreases targets.len(),
{
    let found = mismatches(targets, root, expected, actual);
    let earlier = mismatches(targets.drop_last(), root, expected.drop_last(), actual.drop_last());
    if at == targets.len() - 1 {
        assert(found == earlier.push(found.last()));
        assert(found[found.len() - 1] == (FailureView {
            path: relative_to(targets[at].src, root),
            expected: expected[at]@,
            actual: actual[at]@,
        }));
    } else {
        lemma_differing_file_is_reported(
            targets.drop_last(),
            root,
            expected.drop_last(),
            actual.drop_last(),
            at,
        );
        let wanted = FailureView {
            path: relative_to(targets[at].src, root),
            expected: expected[at]@,
            actual: actual[at]@,
        };
        let k = choose|k: int| 0 <= k < earlier.len() && earlier[k] == wanted;
        assert(found[k] == wanted);
    }
}

/// Where the two digests of every file are the same there is no mismatch.
pub proof fn lemma_agreeing_digests_give_no_mismatch(
    targets: Seq<CopyStep>,
    root: Seq<char>,
    expected: Seq<String>,
    actual: Seq<String>,
)
    requires
        expected.len() == targets.len(),
        actual.len() == targets.len(),
        forall|i: int| 0 <= i < targets.len() ==> (#[trigger] expected[i])@ == actual[i]@,
    ensures
        mismatches(targets, root, expected, actual).len() == 0,
    decreases targets.len(),
{
    if targets.len() > 0 {
        lemma_agreeing_digests_give_no_mismatch(
            targets.drop_last(),
            root,
            expected.drop_last(),
            actual.drop_last(),
        );
        assert(expected.last() == expected[targets.len() - 1]);
    }
}

/// The backend gave `expected` as the digests of the sources of `targets`
/// and `actual` as the digests of their copies, one of each for each target.
pub open spec fn digests_had<B: Backend + ?Sized>(
    backend: &B,
    targets: Seq<CopyStep>,
    algorithm: ChecksumAlgorithm,
    expected: Seq<String>,
    actual: Seq<String>,
) -> bool {
    &&& expected.len() == targets.len()
    &&& actual.len() == targets.len()
    &&& forall|i: int|
        0 <= i < targets.len() ==> digested(
            backend,
            targets[i].src,
            algorithm,
            Ok::<String, BackendError>(#[trigger] expected[i]),
        )
    &&& forall|i: int|
        0 <= i < targets.len() ==> digested(
            backend,
            targets[i].dst,
            algorithm,
            Ok::<String, BackendError>(#[trigger] actual[i]),
        )
}

/// The backend could not digest `target`: it gave the failure `e` for the
/// source, or digested the source and gave `e` for the copy.
pub open spec fn digest_failed<B: Backend + ?Sized>(
    backend: &B,
    target: CopyStep,
    algorithm: ChecksumAlgorithm,
    e: BackendError,
) -> bool {
    ||| digested(backend, target.src, algorithm, Err::<String, BackendError>(e))
    ||| (exists|expected: String| #[trigger]
        digested(backend, target.src, algorithm, Ok::<String, BackendError>(expected)))
        && digested(backend, target.dst, algorithm, Err::<String, BackendError>(e))
}

/// `verified` is what digesting every one of `targets` and its copy came to:
/// the files whose two digests differ, in order, or the first failure that
/// the backend gave for a digest, when the targets before it were digested.
pub open spec fn targets_checked<B: Backend + ?Sized>(
    backend: &B,
    targets: Seq<CopyStep>,
    root: Seq<char>,
    algorithm: ChecksumAlgorithm,
    verified: Result<Vec<ChecksumFailure>, BackendError>,
) -> bool {
    match verified {
        Ok(failures) => exists|expected: Seq<String>, actual: Seq<String>| #[trigger]
            digests_had(backend, targets, algorithm, expected, actual) && failure_views(
                failures@,
            ) == mismatches(targets, root, expected, actual),
        Err(e) => exists|at: int, expected: Seq<String>, actual: Seq<String>|
            {
                &&& 0 <= at < targets.len()
                &&& #[trigger] digests_had(backend, targets.take(at), algorithm, expected, actual)
                &&& digest_failed(backend, targets[at], algorithm, e)
            },
    }
}

/// `verified` is what verifying the copy of the directory `src` at `dst`
/// came to.
///
/// The backend lists `src`; its failure is handed back. The files to verify
/// are the copies that a copy-only synchronization of that listing would
/// make under `opts`, and [`targets_checked`] says what becomes of them.
pub open spec fn directory_checked<B: Backend + ?Sized>(
    backend: &B,
    opts: CopyOptions,
    src: Seq<char>,
    dst: Seq<char>,
    algorithm: ChecksumAlgorithm,
    verified: Result<Vec<ChecksumFailure>, BackendError>,
) -> bool {
    exists|listing: Result<Vec<FileInfo>, BackendError>| #[trigger]
        listed(backend, src, listing) && match listing {
            Err(e) => verified == Err::<Vec<ChecksumFailure>, BackendError>(e),
            Ok(src_files) => targets_checked(
                backend,
                copy_only_work(entries(src_files@), src, dst, opts).copies,
                src,
                algorithm,
                verified,
            ),
        }
}

/// `verdict` is what verifying the copy of the directory `src` at `dst`
/// came to: the failure of the backend where the listing or a digest could
/// not be had, else what follows from the files whose digests differ, all of
/// them gathered before the verdict; see [`directory_checked`] and
/// [`verdict_of`].
pub open spec fn directory_verified<B: Backend + ?Sized>(
    backend: &B,
    opts: CopyOptions,
    src: Seq<char>,
    dst: Seq<char>,
    algorithm: ChecksumAlgorithm,
    verdict: Result<(), BackendError>,
) -> bool {
    exists|checked: Result<Vec<ChecksumFailure>, BackendError>| #[trigger]
        directory_checked(backend, opts, src, dst, algorithm, checked) && match checked {
            Err(e) => verdict == Err::<(), BackendError>(e),
            Ok(failures) => verdict_of(failure_views(failures@), verdict),
        }
}

/// `copied` is what copying the directory `src` to `dst` came to.
///
/// In a dry run nothing is asked of the backend and the counters are zeroed.
/// Otherwise the backend copies the tree under the options made recursive;
/// its failure is handed back, and so are its counters where no digest is
/// set. Where one is set the copy is verified, see [`directory_verified`],
/// and the counters are handed back only where the verification succeeded.
pub open spec fn directory_copy_outcome<B: Backend + ?Sized>(
    backend: &B,
    opts: CopyOptions,
    algorithm: Option<ChecksumAlgorithm>,
    src: Seq<char>,
    dst: Seq<char>,
    copied: Result<CopyStats, BackendError>,
) -> bool {
    if opts.dry_run {
        copied matches Ok(stats) && stats.zeroed() && !stats.tracking()
    } else {
        exists|used: CopyOptions, answer: Result<CopyStats, BackendError>|
            recursive_form(used, opts) && #[trigger] directory_copied(
                backend,
                src,
                dst,
                used,
                answer,
            ) && match answer {
                Err(e) => copied == Err::<CopyStats, BackendError>(e),
                Ok(stats) => match algorithm {
                    None => copied == Ok::<CopyStats, BackendError>(stats),
                    Some(with) => exists|verdict: Result<(), BackendError>| #[trigger]
                        directory_verified(backend, opts, src, dst, with, verdict)
                            && match verdict {
                            Ok(_) => copied == Ok::<CopyStats, BackendError>(stats),
                            Err(e) => copied == Err::<CopyStats, BackendError>(e),
                        },
                },
            }
    }
}

/// The two digests of `target` differ, whatever the backend gives for them.
pub open spec fn digests_differ<B: Backend + ?Sized>(
    backend: &B,
    target: CopyStep,
    algorithm: ChecksumAlgorithm,
) -> bool {
    forall|expected: String, actual: String|
        #![trigger
            digested(backend, target.src, algorithm, Ok::<String, BackendError>(expected)),
            digested(backend, target.dst, algorithm, Ok::<String, BackendError>(actual)),
        ]
        digested(backend, target.src, algorithm, Ok::<String, BackendError>(expected))
            && digested(backend, target.dst, algorithm, Ok::<String, BackendError>(actual))
            ==> expected@ != actual@
}

/// The digests of some file among `targets` differ.
pub open spec fn some_digests_differ<B: Backend + ?Sized>(
    backend: &B,
    targets: Seq<CopyStep>,
    algorithm: ChecksumAlgorithm,
) -> bool {
    exists|at: int|
        0 <= at < targets.len() && digests_differ(backend, #[trigger] targets[at], algorithm)
}

/// A mismatch is a hard failure of the verification of a directory.
///
/// Where the backend lists the source and gives every digest it is asked
/// for, and the digests of some file of the listing differ, the verification
/// fails with a checksum mismatch.
pub proof fn lemma_mismatch_fails_verification<B: Backend + ?Sized>(
    backend: &B,
    opts: CopyOptions,
    src: Seq<char>,
    dst: Seq<char>,
    algorithm: ChecksumAlgorithm,
    verdict: Result<(), BackendError>,
)
    requires
        directory_verified(backend, opts, src, dst, algorithm, verdict),
        forall|listing: Result<Vec<FileInfo>, BackendError>| #[trigger]
            listed(backend, src, listing) ==> listing is Ok,
        forall|path: Seq<char>, answer: Result<String, BackendError>| #[trigger]
            digested(backend, path, algorithm, answer) ==> answer is Ok,
        forall|src_files: Vec<FileInfo>| #[trigger]
            listed(backend, src, Ok::<Vec<FileInfo>, BackendError>(src_files))
                ==> some_digests_differ(
                backend,
                copy_only_work(entries(src_files@), src, dst, opts).copies,
                algorithm,
            ),
    ensures
        verdict matches Err(e) && e is ChecksumMismatch,
{
    let checked = choose|checked: Result<Vec<ChecksumFailure>, BackendError>| #[trigger]
        directory_checked(backend, opts, src, dst, algorithm, checked) && match checked {
            Err(e) => verdict == Err::<(), BackendError>(e),
            Ok(failures) => verdict_of(failure_views(failures@), verdict),
        };
    let listing = choose|listing: Result<Vec<FileInfo>, BackendError>| #[trigger]
        listed(backend, src, listing) && match listing {
            Err(e) => checked == Err::<Vec<ChecksumFailure>, BackendError>(e),
            Ok(src_files) => targets_checked(
                backend,
                copy_only_work(entries(src_files@), src, dst, opts).copies,
                src,
                algorithm,
                checked,
            ),
        };
    let src_files = listing->Ok_0;
    assert(listing == Ok::<Vec<FileInfo>, BackendError>(src_files));
    let targets = copy_only_work(entries(src_files@), src, dst, opts).copies;
    assert(some_digests_differ(backend, targets, algorithm));
    match checked {
        Ok(failures) => {
            let (expected, actual) = choose|expected: Seq<String>, actual: Seq<String>| #[trigger]
                digests_had(backend, targets, algorithm, expected, actual) && failure_views(
                    failures@,
                ) == mismatches(targets, src, expected, actual);
            let at = choose|at: int|
                0 <= at < targets.len() && digests_differ(
                    backend,
                    #[trigger] targets[at],
                    algorithm,
                );
            assert(digested(
                backend,
                targets[at].src,
                algorithm,
                Ok::<String, BackendError>(expected[at]),
            ));
            assert(digested(
                backend,
                targets[at].dst,
                algorithm,
                Ok::<String, BackendError>(actual[at]),
            ));
            lemma_differing_file_is_reported(targets, src, expected, actual, at);
        },
        Err(e) => {
            let (at, expected, actual) = choose|
                at: int,
                expected: Seq<String>,
                actual: Seq<String>,
            |
                {
                    &&& 0 <= at < targets.len()
                    &&& #[trigger] digests_had(
                        backend,
                        targets.take(at),
                        algorithm,
                        expected,
                        actual,
                    )
                    &&& digest_failed(backend, targets[at], algorithm, e)
                };
            assert(digested(backend, targets[at].src, algorithm, Err::<String, BackendError>(e))
                || digested(backend, targets[at].dst, algorithm, Err::<String, BackendError>(e)));
        },
    }
}

/// Digests `src` and `dst` through the backend and compares the two.
pub fn compare_through<B: Backend + ?Sized>(
    backend: &B,
    src: &str,
    dst: &str,
    algorithm: ChecksumAlgorithm,
) -> (verdict: Result<(), BackendError>)
    ensures
        digests_compared(backend, src@, dst@, algorithm, verdict),
{
    let of_source = ask_checksum(backend, src, algorithm);
    let expected = match of_source {
        Ok(digest) => digest,
        Err(e) => {
            return Err(e);
        },
    };
    let of_copy = ask_checksum(backend, dst, algorithm);
    let actual = match of_copy {
        Ok(digest) => digest,
        Err(e) => {
            assert(digested(backend, src@, algorithm, Ok::<String, BackendError>(expected)));
            return Err(e);
        },
    };
    let verdict = compare_digests(expected, actual);
    proof {
        assert(digested(backend, src@, algorithm, Ok::<String, BackendError>(expected)));
        assert(digested(backend, dst@, algorithm, Ok::<String, BackendError>(actual)));
    }
    verdict
}

/// Copies one file through the backend and verifies the copy where a digest
/// is set.
pub fn copy_file_through<B: Backend + ?Sized>(
    backend: &B,
    opts: &CopyOptions,
    algorithm: Option<ChecksumAlgorithm>,
    src: &str,
    dst: &str,
) -> (copied: Result<u64, BackendError>)
    ensures
        file_copy_outcome(backend, *opts, algorithm, src@, dst@, copied),
{
    if opts.dry_run {
        return Ok(0);
    }
    let answer = ask_copy_file(backend, src, dst, opts);
    let bytes = match answer {
        Ok(bytes) => bytes,
        Err(e) => {
            return Err(e);
        },
    };
    if let Some(with) = algorithm {
        let verdict = compare_through(backend, src, dst, with);
        if let Err(e) = verdict {
            return Err(e);
        }
    }
    Ok(bytes)
}

/// Digests every one of the planned copies and its source through the
/// backend and gathers the files whose two digests differ.
pub fn check_targets<B: Backend + ?Sized>(
    backend: &B,
    plan: &SyncPlan,
    root: &str,
    algorithm: ChecksumAlgorithm,
) -> (verified: Result<Vec<ChecksumFailure>, BackendError>)
    ensures
        targets_checked(backend, plan@.copies, root@, algorithm, verified),
        verified matches Ok(failures) ==> forall|i: int|
            0 <= i < failures@.len() ==> (#[trigger] failures@[i]).expected@
                != failures@[i].actual@,
{
    let ghost targets = plan@.copies;
    let ghost mut all_expected: Seq<String> = Seq::empty();
    let ghost mut all_actual: Seq<String> = Seq::empty();
    let mut failures: Vec<ChecksumFailure> = Vec::new();
    let mut i: usize = 0;
    assert(targets.take(0).len() == 0);
    assert(failure_views(failures@) =~= mismatches(targets.take(0), root@, all_expected, all_actual));
    while i < plan.copies.len()
        invariant
            i <= plan.copies@.len(),
            targets == plan@.copies,
            digests_had(backend, targets.take(i as int), algorithm, all_expected, all_actual),
            failure_views(failures@) == mismatches(
                targets.take(i as int),
                root@,
                all_expected,
                all_actual,
            ),
            forall|k: int|
                0 <= k < failures@.len() ==> (#[trigger] failures@[k]).expected@
                    != failures@[k].actual@,
        decreases plan.copies@.len() - i,
    {
        let task = &plan.copies[i];
        assert(targets[i as int] == task@);
        let expected = match ask_checksum(backend, task.src.as_str(), algorithm) {
            Ok(digest) => digest,
            Err(e) => {
                return Err(e);
            },
        };
        let actual = match ask_checksum(backend, task.dst.as_str(), algorithm) {
            Ok(digest) => digest,
            Err(e) => {
                assert(digested(
                    backend,
                    targets[i as int].src,
                    algorithm,
                    Ok::<String, BackendError>(expected),
                ));
                return Err(e);
            },
        };
        let ghost held = (expected, actual);
        let ghost before = failures@;
        let judged = judge_digests(task.src.as_str(), root, expected, actual);
        if let Some(failure) = judged {
            assert(failure_views(before.push(failure)) =~= failure_views(before).push(failure@));
            failures.push(failure);
        }
        proof {
            let longer = targets.take(i + 1);
            assert(longer.drop_last() == targets.take(i as int));
            assert(longer.last() == task@);
            assert(all_expected.push(held.0).drop_last() == all_expected);
            assert(all_actual.push(held.1).drop_last() == all_actual);
            all_expected = all_expected.push(held.0);
            all_actual = all_actual.push(held.1);
        }
        i += 1;
    }
    assert(targets.take(i as int) == targets);
    Ok(failures)
}

/// Verifies the copy of the directory `src` at `dst` through the backend.
pub fn check_directory_through<B: Backend + ?Sized>(
    backend: &B,
    opts: &CopyOptions,
    src: &str,
    dst: &str,
    algorithm: ChecksumAlgorithm,
) -> (verified: Result<Vec<ChecksumFailure>, BackendError>)
    ensures
        directory_checked(backend, *opts, src@, dst@, algorithm, verified),
        verified matches Ok(failures) ==> forall|i: int|
            0 <= i < failures@.len() ==> (#[trigger] failures@[i]).expected@
                != failures@[i].actual@,
{
    let listing = ask_list(backend, src);
    let src_files = match listing {
        Ok(files) => files,
        Err(e) => {
            return Err(e);
        },
    };
    let plan = plan_copy_only(&src_files, src, dst, opts);
    let verified = check_targets(backend, &plan, src, algorithm);
    assert(listed(backend, src@, Ok::<Vec<FileInfo>, BackendError>(src_files)));
    verified
}

/// Verifies the copy of the directory `src` at `dst` through the backend:
/// every file is looked at, and the verification fails where the digests of
/// any of them differ.
pub fn verify_directory_through<B: Backend + ?Sized>(
    backend: &B,
    opts: &CopyOptions,
    src: &str,
    dst: &str,
    algorithm: ChecksumAlgorithm,
) -> (verdict: Result<(), BackendError>)
    ensures
        directory_verified(backend, *opts, src@, dst@, algorithm, verdict),
{
    let checked = check_directory_through(backend, opts, src, dst, algorithm);
    match checked {
        Ok(failures) => summarize_failures(&failures),
        Err(e) => Err(e),
    }
}

/// Copies a directory tree through the backend and verifies the copy where
/// a digest is set.
pub fn copy_directory_through<B: Backend + ?Sized>(
    backend: &B,
    opts: &CopyOptions,
    algorithm: Option<ChecksumAlgorithm>,
    src: &str,
    dst: &str,
) -> (copied: Result<CopyStats, BackendError>)
    ensures
        directory_copy_outcome(backend, *opts, algorithm, src@, dst@, copied),
{
    if opts.dry_run {
        return Ok(CopyStats::new_minimal());
    }
    let used = opts.recursively();
    let answer = ask_copy_directory(backend, src, dst, &used);
    assert(recursive_form(used, *opts));
    let stats = match answer {
        Ok(stats) => stats,
        Err(e) => {
            return Err(e);
        },
    };
    if let Some(with) = algorithm {
        let verdict = verify_directory_through(backend, opts, src, dst, with);
        if let Err(e) = verdict {
            return Err(e);
        }
    }
    Ok(stats)
}

/// Copies through one backend, and verifies what was copied where a digest
/// is asked for.
pub struct CopyOperation {
    /// The backend that copies and digests.
    pub backend: Box<dyn Backend>,
    /// The options handed to the backend.
    pub options: CopyOptions,
    /// The digest used for verification, if copies are verified.
    pub checksum_algorithm: Option<ChecksumAlgorithm>,
}

impl CopyOperation {
    /// The options the operation works with.
    pub open spec fn spec_options(&self) -> CopyOptions {
        self.options
    }

    /// The digest used for verification, if copies are verified.
    pub open spec fn checksum_algorithm(&self) -> Option<ChecksumAlgorithm> {
        self.checksum_algorithm
    }

    /// `copied` is what copying the file `src` to `dst` through the backend
    /// of the operation came to; see [`file_copy_outcome`].
    pub open spec fn copies_file(
        &self,
        src: Seq<char>,
        dst: Seq<char>,
        copied: Result<u64, BackendError>,
    ) -> bool {
        file_copy_outcome::<dyn Backend>(
            &*self.backend,
            self.options,
            self.checksum_algorithm,
            src,
            dst,
            copied,
        )
    }

    /// `copied` is what copying the directory `src` to `dst` through the
    /// backend of the operation came to; see [`directory_copy_outcome`].
    pub open spec fn copies_directory(
        &self,
        src: Seq<char>,
        dst: Seq<char>,
        copied: Result<CopyStats, BackendError>,
    ) -> bool {
        directory_copy_outcome::<dyn Backend>(
            &*self.backend,
            self.options,
            self.checksum_algorithm,
            src,
            dst,
            copied,
        )
    }

    /// `verdict` is what verifying the copy of the directory `src` at `dst`
    /// through the backend of the operation came to; see
    /// [`directory_verified`].
    pub open spec fn verifies_directory(
        &self,
        src: Seq<char>,
        dst: Seq<char>,
        algorithm: ChecksumAlgorithm,
        verdict: Result<(), BackendError>,
    ) -> bool {
        directory_verified::<dyn Backend>(
            &*self.backend,
            self.options,
            src,
            dst,
            algorithm,
            verdict,
        )
    }

    /// An operation that copies through `backend` under `options` and does
    /// not verify.
    pub fn new(backend: Box<dyn Backend>, options: CopyOptions) -> (op: Self)
        ensures
            op == (CopyOperation { backend, options, checksum_algorithm: None }),
            op.spec_options() == options,
            op.checksum_algorithm() is None,
    {
        Self { backend, options, checksum_algorithm: None }
    }

    /// The same operation, verifying with `algorithm`.
    pub fn with_checksum(self, algorithm: ChecksumAlgorithm) -> (op: Self)
        ensures
            op == (CopyOperation { checksum_algorithm: Some(algorithm), ..self }),
            op.spec_options() == self.spec_options(),
            op.checksum_algorithm() == Some(algorithm),
    {
        let mut op = self;
        op.checksum_algorithm = Some(algorithm);
        op
    }

    /// Copies one file and returns the number of bytes written.
    ///
    /// In a dry run nothing is asked of the backend and the answer is 0
    /// bytes. Otherwise the file is copied and, where a digest is set, source
    /// and copy are digested and compared; see [`compare_digests`] for what
    /// becomes of the two digests. Any failure of the backend is handed back
    /// as it is.
    pub fn copy_file(&self, src: &str, dst: &str) -> (copied: Result<u64, BackendError>)
        ensures
            self.copies_file(src@, dst@, copied),
            self.spec_options().dry_run ==> copied == Ok::<u64, BackendError>(0),
    {
        copy_file_through::<dyn Backend>(
            &*self.backend,
            &self.options,
            self.checksum_algorithm,
            src,
            dst,
        )
    }

    /// Copies a directory tree and returns the counters of the copy.
    ///
    /// In a dry run nothing is asked of the backend and the counters are
    /// zeroed. Otherwise the backend copies the tree, with the options of the
    /// operation made recursive, and where a digest is set the files are
    /// verified: see [`Self::verify_directory_checksums`].
    pub fn copy_directory(&self, src: &str, dst: &str) -> (copied: Result<CopyStats, BackendError>)
        ensures
            self.copies_directory(src@, dst@, copied),
            self.spec_options().dry_run ==> (copied matches Ok(stats) && stats.zeroed()
                && !stats.tracking()),
    {
        copy_directory_through::<dyn Backend>(
            &*self.backend,
            &self.options,
            self.checksum_algorithm,
            src,
            dst,
        )
    }

    /// Digests every file that the listing of `src` holds and the options
    /// admit, and its copy below `dst`. All files are looked at; a mismatch
    /// does not end the run. A digest that cannot be had does, with the
    /// failure of the backend.
    ///
    /// The verification fails with a checksum mismatch where the digests of
    /// any file differ, and the failure reports every such file with both of
    /// its digests. [`check_directory_through`] hands out the files
    /// themselves.
    pub fn verify_directory_checksums(
        &self,
        src: &str,
        dst: &str,
        algorithm: ChecksumAlgorithm,
    ) -> (verdict: Result<(), BackendError>)
        ensures
            self.verifies_directory(src@, dst@, algorithm, verdict),
    {
        verify_directory_through::<dyn Backend>(
            &*self.backend,
            &self.options,
            src,
            dst,
            algorithm,
        )
    }

    pub fn set_options(&mut self, options: CopyOptions)
        ensures
            *final(self) == (CopyOperation { options, ..*old(self) }),
            final(self).spec_options() == options,
            final(self).checksum_algorithm() == old(self).checksum_algorithm(),
    {
        self.options = options;
    }

    pub fn options(&self) -> (options: &CopyOptions)
        ensures
            *options == self.spec_options(),
    {
        &self.options
    }
}

} // verus!
