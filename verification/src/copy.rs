use crate::backend::error::BackendError;
use crate::backend::local::{DeleteAction, PathKind};
use crate::backend::traits::{
    ask_copy_directory, ask_copy_file, ask_list, directory_copied, file_copied, listed, Backend,
    ChecksumAlgorithm, CopyOptions, FileInfo,
};
use crate::operations::copy::{
    copy_directory_through, copy_file_through, directory_copy_outcome, file_copy_outcome,
};
use crate::operations::sync::{paths, sync_through, synced, SyncMode, SyncStats};
use crate::protocol::{Path, Protocol};
use crate::remote::{over_ssh, RemoteCopyError};
use crate::text::{file_name, file_name_of, join_path, join_under};
use std::time::Instant;
use vstd::prelude::*;
use vstd::string::*;

verus! {

/// `std::time::Instant`: a reading of the monotonic clock, carried through
/// without looking inside.
#[verifier::external_type_specification]
#[verifier::external_body]
pub struct ExInstant(Instant);

/// Reads the monotonic clock with `Instant::now`. Nothing is promised of the
/// reading.
#[verifier::external_body]
fn clock_now() -> Instant {
    Instant::now()
}

/// `sum` as a `u64`, or the largest `u64` where it does not fit.
pub open spec fn capped_u64(sum: int) -> u64 {
    if sum > u64::MAX {
        u64::MAX
    } else {
        sum as u64
    }
}

/// `sum` as a `usize`, or the largest `usize` where it does not fit.
pub open spec fn capped_usize(sum: int) -> usize {
    if sum > usize::MAX {
        usize::MAX
    } else {
        sum as usize
    }
}

/// Adds byte counts; a sum that does not fit stays at the largest value.
pub fn add_bytes(a: u64, b: u64) -> (sum: u64)
    ensures
        sum == capped_u64(a + b),
{
    if a > u64::MAX - b {
        u64::MAX
    } else {
        a + b
    }
}

/// Adds file counts; a sum that does not fit stays at the largest value.
pub fn add_count(a: usize, b: usize) -> (sum: usize)
    ensures
        sum == capped_usize(a + b),
{
    if a > usize::MAX - b {
        usize::MAX
    } else {
        a + b
    }
}

/// Counters of one copy operation.
///
/// Without a `start_time` the accumulator is in minimal mode: no summary will
/// be printed, and the counters stay as they are.
pub struct CopyStats {
    pub bytes_copied: u64,
    pub files_copied: usize,
    pub files_skipped: usize,
    pub start_time: Option<Instant>,
}

impl CopyStats {
    /// Whether the counters are kept (a start time is set).
    pub open spec fn tracking(&self) -> bool {
        self.start_time is Some
    }

    /// All three counters are zero.
    pub open spec fn zeroed(&self) -> bool {
        self.bytes_copied == 0 && self.files_copied == 0 && self.files_skipped == 0
    }

    /// Zeroed counters that will be kept, started now.
    pub fn new() -> (stats: Self)
        ensures
            stats.zeroed(),
            stats.tracking(),
    {
        Self { files_copied: 0, bytes_copied: 0, files_skipped: 0, start_time: Some(clock_now()) }
    }

    /// Zeroed counters in minimal mode.
    pub fn new_minimal() -> (stats: Self)
        ensures
            stats.zeroed(),
            !stats.tracking(),
    {
        Self { files_copied: 0, bytes_copied: 0, files_skipped: 0, start_time: None }
    }

    /// Zeroed counters for one worker of the operation that `self` counts:
    /// in the same mode, with the same start time.
    pub fn worker(&self) -> (partial: Self)
        ensures
            partial.zeroed(),
            partial.start_time == self.start_time,
    {
        Self { files_copied: 0, bytes_copied: 0, files_skipped: 0, start_time: self.start_time }
    }

    /// Whether the counters are kept.
    pub fn is_tracking(&self) -> (yes: bool)
        ensures
            yes == self.tracking(),
    {
        self.start_time.is_some()
    }

    /// The counters after one more copied file of `bytes` bytes. In minimal
    /// mode they stay as they are.
    pub open spec fn with_copy(self, bytes: u64) -> CopyStats {
        if self.tracking() {
            CopyStats {
                files_copied: capped_usize(self.files_copied + 1),
                bytes_copied: capped_u64(self.bytes_copied + bytes),
                ..self
            }
        } else {
            self
        }
    }

    /// The counters after `count` more files were passed over. In minimal
    /// mode they stay as they are.
    pub open spec fn with_skipped(self, count: usize) -> CopyStats {
        if self.tracking() {
            CopyStats { files_skipped: capped_usize(self.files_skipped + count), ..self }
        } else {
            self
        }
    }

    /// The counters with those of `partial` added. In minimal mode they stay
    /// as they are.
    pub open spec fn merged(self, partial: CopyStats) -> CopyStats {
        if self.tracking() {
            CopyStats {
                files_copied: capped_usize(self.files_copied + partial.files_copied),
                bytes_copied: capped_u64(self.bytes_copied + partial.bytes_copied),
                files_skipped: capped_usize(self.files_skipped + partial.files_skipped),
                ..self
            }
        } else {
            self
        }
    }

    /// Counts one copied file of `bytes` bytes.
    pub fn record_copy(&mut self, bytes: u64)
        ensures
            *final(self) == old(self).with_copy(bytes),
            final(self).bytes_copied >= old(self).bytes_copied,
            final(self).files_copied >= old(self).files_copied,
    {
        if self.start_time.is_some() {
            self.files_copied = add_count(self.files_copied, 1);
            self.bytes_copied = add_bytes(self.bytes_copied, bytes);
        }
    }

    /// Counts `count` files that were passed over.
    pub fn record_skipped(&mut self, count: usize)
        ensures
            *final(self) == old(self).with_skipped(count),
            final(self).files_skipped >= old(self).files_skipped,
    {
        if self.start_time.is_some() {
            self.files_skipped = add_count(self.files_skipped, count);
        }
    }

    /// Adds the counters of `partial` to those of `self`.
    pub fn merge(&mut self, partial: &CopyStats)
        ensures
            *final(self) == old(self).merged(*partial),
            final(self).bytes_copied >= old(self).bytes_copied,
            final(self).files_copied >= old(self).files_copied,
            final(self).files_skipped >= old(self).files_skipped,
    {
        if self.start_time.is_some() {
            self.files_copied = add_count(self.files_copied, partial.files_copied);
            self.bytes_copied = add_bytes(self.bytes_copied, partial.bytes_copied);
            self.files_skipped = add_count(self.files_skipped, partial.files_skipped);
        }
    }
}

impl Default for CopyStats {
    fn default() -> (stats: Self)
        ensures
            stats.zeroed(),
            !stats.tracking(),
    {
        Self::new_minimal()
    }
}

/// The counters of `shared` after the partial counters `partials` were merged
/// into them one after the other.
pub open spec fn merged_all(shared: CopyStats, partials: Seq<CopyStats>) -> CopyStats
    decreases partials.len(),
{
    if partials.len() == 0 {
        shared
    } else {
        merged_all(shared, partials.drop_last()).merged(partials.last())
    }
}

/// The sum of `count` over `partials`.
pub open spec fn total(partials: Seq<CopyStats>, count: spec_fn(CopyStats) -> nat) -> nat
    decreases partials.len(),
{
    if partials.len() == 0 {
        0
    } else {
        total(partials.drop_last(), count) + count(partials.last())
    }
}

/// The partial counters of workers that copied one file each, of the sizes
/// `sizes`, in the mode of `shared`.
pub open spec fn one_file_each(shared: CopyStats, sizes: Seq<u64>) -> Seq<CopyStats> {
    Seq::new(
        sizes.len(),
        |i: int|
            CopyStats {
                bytes_copied: 0,
                files_copied: 0,
                files_skipped: 0,
                start_time: shared.start_time,
            }.with_copy(sizes[i]),
    )
}

/// The sum of `sizes`.
pub open spec fn sum_of(sizes: Seq<u64>) -> nat
    decreases sizes.len(),
{
    if sizes.len() == 0 {
        0
    } else {
        sum_of(sizes.drop_last()) + sizes.last() as nat
    }
}

/// Taking one element out of a sequence takes its count out of the total.
proof fn lemma_total_remove(partials: Seq<CopyStats>, count: spec_fn(CopyStats) -> nat, at: int)
    requires
        0 <= at < partials.len(),
    ensures
        total(partials, count) == total(partials.remove(at), count) + count(partials[at]),
    decreases partials.len(),
{
    if at == partials.len() - 1 {
        assert(partials.remove(at) == partials.drop_last());
    } else {
        lemma_total_remove(partials.drop_last(), count, at);
        assert(partials.remove(at).drop_last() == partials.drop_last().remove(at));
        assert(partials.remove(at).last() == partials.last());
    }
}

/// A total does not depend on the order of what is summed.
pub proof fn lemma_total_any_order(
    a: Seq<CopyStats>,
    b: Seq<CopyStats>,
    count: spec_fn(CopyStats) -> nat,
)
    requires
        a.to_multiset() == b.to_multiset(),
    ensures
        total(a, count) == total(b, count),
    decreases a.len(),
{
    broadcast use vstd::seq_lib::group_to_multiset_ensures;

    a.to_multiset_ensures();
    b.to_multiset_ensures();
    if a.len() == 0 {
        assert(b.len() == 0);
    } else {
        let x = a.last();
        assert(a.contains(x));
        assert(b.to_multiset().count(x) > 0);
        assert(b.contains(x));
        let at = choose|at: int| 0 <= at < b.len() && b[at] == x;
        assert(a.drop_last() == a.remove(a.len() - 1));
        assert(a.drop_last().to_multiset() == a.to_multiset().remove(x));
        assert(b.remove(at).to_multiset() == b.to_multiset().remove(x));
        lemma_total_any_order(a.drop_last(), b.remove(at), count);
        lemma_total_remove(b, count, at);
    }
}

/// Merging partial counters into kept counters adds up what the partial
/// counters hold: each counter ends at its old value plus the total of the
/// partial ones, or at the largest value where that does not fit.
pub proof fn lemma_merged_all_totals(shared: CopyStats, partials: Seq<CopyStats>)
    requires
        shared.tracking(),
    ensures
        merged_all(shared, partials).start_time == shared.start_time,
        merged_all(shared, partials).files_copied == capped_usize(
            shared.files_copied + total(partials, |p: CopyStats| p.files_copied as nat),
        ),
        merged_all(shared, partials).bytes_copied == capped_u64(
            shared.bytes_copied + total(partials, |p: CopyStats| p.bytes_copied as nat),
        ),
        merged_all(shared, partials).files_skipped == capped_usize(
            shared.files_skipped + total(partials, |p: CopyStats| p.files_skipped as nat),
        ),
    decreases partials.len(),
{
    if partials.len() > 0 {
        lemma_merged_all_totals(shared, partials.drop_last());
    }
}

/// Merging is independent of the order in which the workers come in: partial
/// counters that are the same but for their order lead to the same counters.
pub proof fn lemma_merge_order_irrelevant(shared: CopyStats, a: Seq<CopyStats>, b: Seq<CopyStats>)
    requires
        a.to_multiset() == b.to_multiset(),
    ensures
        merged_all(shared, a) == merged_all(shared, b),
{
    if shared.tracking() {
        lemma_merged_all_totals(shared, a);
        lemma_merged_all_totals(shared, b);
        lemma_total_any_order(a, b, |p: CopyStats| p.files_copied as nat);
        lemma_total_any_order(a, b, |p: CopyStats| p.bytes_copied as nat);
        lemma_total_any_order(a, b, |p: CopyStats| p.files_skipped as nat);
    } else {
        lemma_minimal_stays(shared, a);
        lemma_minimal_stays(shared, b);
    }
}

/// Workers may merge among themselves before they come in: merging two
/// partial counters into one and that one into the shared counters leads to
/// the same as merging the two one after the other. The partial counters are
/// in the mode of the shared ones.
pub proof fn lemma_merge_in_groups(shared: CopyStats, a: CopyStats, b: CopyStats)
    requires
        shared.tracking() ==> a.tracking(),
    ensures
        shared.merged(a.merged(b)) == shared.merged(a).merged(b),
{
}

/// In minimal mode merging changes nothing.
pub proof fn lemma_minimal_stays(shared: CopyStats, partials: Seq<CopyStats>)
    requires
        !shared.tracking(),
    ensures
        merged_all(shared, partials) == shared,
    decreases partials.len(),
{
    if partials.len() > 0 {
        lemma_minimal_stays(shared, partials.drop_last());
    }
}

/// Workers that copy one file each, merged in any order into zeroed kept
/// counters, leave the number of files and the sum of their sizes, as far as
/// each fits its counter.
pub proof fn lemma_parallel_copy_counts(shared: CopyStats, sizes: Seq<u64>, arrival: Seq<CopyStats>)
    requires
        shared.tracking(),
        shared.zeroed(),
        arrival.to_multiset() == one_file_each(shared, sizes).to_multiset(),
    ensures
        merged_all(shared, arrival).files_copied == capped_usize(sizes.len() as int),
        merged_all(shared, arrival).bytes_copied == capped_u64(sum_of(sizes) as int),
        merged_all(shared, arrival).files_skipped == 0,
{
    let workers = one_file_each(shared, sizes);
    lemma_merge_order_irrelevant(shared, arrival, workers);
    lemma_merged_all_totals(shared, workers);
    lemma_one_file_each_totals(shared, sizes, sizes.len() as int);
    assert(workers.take(sizes.len() as int) == workers);
    assert(sizes.take(sizes.len() as int) == sizes);
}

/// The totals of the first `n` workers that copied one file each.
proof fn lemma_one_file_each_totals(shared: CopyStats, sizes: Seq<u64>, n: int)
    requires
        shared.tracking(),
        0 <= n <= sizes.len(),
    ensures
        total(one_file_each(shared, sizes).take(n), |p: CopyStats| p.files_copied as nat) == n,
        total(one_file_each(shared, sizes).take(n), |p: CopyStats| p.bytes_copied as nat) == sum_of(
            sizes.take(n),
        ),
        total(one_file_each(shared, sizes).take(n), |p: CopyStats| p.files_skipped as nat) == 0,
    decreases n,
{
    let workers = one_file_each(shared, sizes);
    if n > 0 {
        lemma_one_file_each_totals(shared, sizes, n - 1);
        assert(workers.take(n).drop_last() == workers.take(n - 1));
        assert(sizes.take(n).drop_last() == sizes.take(n - 1));
        assert(workers.take(n).last() == workers[n - 1]);
        assert(sizes.take(n).last() == sizes[n - 1]);
    }
}

/// Why a copy failed.
#[derive(Debug)]
pub enum CopyError {
    SourceNotFound(String),
    InvalidSource(String),
    IoError { message: String, error: String },
    RemoteError(RemoteCopyError),
    UnsupportedProtocol(String),
    Other(String),
}

impl CopyError {
    /// The diagnostic of this error, with a suggestion where there is one.
    pub open spec fn display_text(&self) -> Seq<char> {
        match self {
            CopyError::SourceNotFound(path) => "Source path not found: "@ + path@
                + "\n\nSuggestion: Check that the file or directory exists and you have read permissions."@,
            CopyError::InvalidSource(msg) => "Invalid source: "@ + msg@
                + "\n\nSuggestion: Ensure the source is a valid file or directory."@,
            CopyError::IoError { message, error } => message@ + "\n\nError details: "@ + error@
                + "\n\nSuggestion: Check file permissions and available disk space."@,
            CopyError::RemoteError(e) => "Remote copy error: "@ + e.display_text()
                + "\n\nSuggestion: Verify network connectivity and remote server access."@,
            CopyError::UnsupportedProtocol(msg) => "Unsupported protocol: "@ + msg@
                + "\n\nSupported protocols: ssh://, sftp://, http://, https://, s3://\nFor more information, see: https://github.com/yassinbousaadi/usync"@,
            CopyError::Other(msg) => msg@,
        }
    }

    /// Renders the error for the user.
    pub fn to_string(&self) -> (text: String)
        ensures
            text@ == self.display_text(),
    {
        match self {
            CopyError::SourceNotFound(path) => {
                let mut text = String::from_str("Source path not found: ");
                text.append(path.as_str());
                text.append(
                    "\n\nSuggestion: Check that the file or directory exists and you have read permissions.",
                );
                text
            },
            CopyError::InvalidSource(msg) => {
                let mut text = String::from_str("Invalid source: ");
                text.append(msg.as_str());
                text.append("\n\nSuggestion: Ensure the source is a valid file or directory.");
                text
            },
            CopyError::IoError { message, error } => {
                let mut text = String::from_str(message.as_str());
                text.append("\n\nError details: ");
                text.append(error.as_str());
                text.append("\n\nSuggestion: Check file permissions and available disk space.");
                text
            },
            CopyError::RemoteError(e) => {
                let mut text = String::from_str("Remote copy error: ");
                let inner = e.to_string();
                text.append(inner.as_str());
                text.append(
                    "\n\nSuggestion: Verify network connectivity and remote server access.",
                );
                text
            },
            CopyError::UnsupportedProtocol(msg) => {
                let mut text = String::from_str("Unsupported protocol: ");
                text.append(msg.as_str());
                text.append(
                    "\n\nSupported protocols: ssh://, sftp://, http://, https://, s3://\nFor more information, see: https://github.com/yassinbousaadi/usync",
                );
                text
            },
            CopyError::Other(msg) => String::from_str(msg.as_str()),
        }
    }
}

/// The options of a plain copy: recursive, without filters, not a dry run.
pub fn copy_options(verbose: bool, ssh_opts: &[String], progress: bool, use_ram: bool) -> (opts:
    CopyOptions)
    ensures
        opts.verbose == verbose,
        opts.progress == progress,
        opts.use_ram == use_ram,
        opts.recursive,
        !opts.dry_run,
        opts.filters is None,
        paths(opts.ssh_opts@) == paths(ssh_opts@),
{
    let mut kept: Vec<String> = Vec::new();
    let mut i: usize = 0;
    while i < ssh_opts.len()
        invariant
            i <= ssh_opts@.len(),
            paths(kept@) == paths(ssh_opts@).take(i as int),
        decreases ssh_opts@.len() - i,
    {
        let opt = ssh_opts[i].clone();
        assert(paths(kept@.push(opt)) =~= paths(kept@).push(opt@));
        assert(paths(ssh_opts@).take(i + 1) =~= paths(ssh_opts@).take(i as int).push(opt@));
        kept.push(opt);
        i += 1;
    }
    assert(paths(ssh_opts@).take(ssh_opts@.len() as int) == paths(ssh_opts@));
    CopyOptions {
        verbose,
        progress,
        use_ram,
        recursive: true,
        ssh_opts: kept,
        dry_run: false,
        filters: None,
    }
}

/// The text by which a backend is told of a location.
pub open spec fn location_of(path: Path) -> Seq<char> {
    match path {
        Path::Local(local) => local@,
        Path::Remote(remote) => remote.url@.text,
    }
}

/// The text by which a backend is told of `path`: a local path as it is, a
/// remote location by its URL.
pub fn location_text(path: &Path) -> (text: String)
    ensures
        text@ == location_of(*path),
{
    match path {
        Path::Local(local) => local.to_string_lossy(),
        Path::Remote(remote) => String::from_str(remote.url.as_str()),
    }
}

/// Some entry of `files` is a directory.
pub open spec fn shows_directory(files: Seq<FileInfo>) -> bool {
    exists|i: int| 0 <= i < files.len() && (#[trigger] files[i]).is_dir
}

/// Whether the listing shows a directory; a listing that failed shows none.
pub fn listing_has_directory(listing: &Result<Vec<FileInfo>, BackendError>) -> (yes: bool)
    ensures
        yes == (*listing matches Ok(files) && shows_directory(files@)),
{
    let files = match listing {
        Ok(files) => files,
        Err(_) => {
            return false;
        },
    };
    let mut i: usize = 0;
    while i < files.len()
        invariant
            i <= files@.len(),
            *listing == Ok::<Vec<FileInfo>, BackendError>(*files),
            forall|j: int| 0 <= j < i ==> !(#[trigger] files@[j]).is_dir,
        decreases files@.len() - i,
    {
        if files[i].is_dir {
            assert(files@[i as int].is_dir);
            return true;
        }
        i += 1;
    }
    false
}

/// The counters that a copy under `opts` starts with: kept where a summary
/// is wanted, minimal otherwise.
pub fn initial_stats(opts: &CopyOptions) -> (stats: CopyStats)
    ensures
        stats.zeroed(),
        stats.tracking() == opts.wants_summary(),
{
    if opts.verbose || opts.progress {
        CopyStats::new()
    } else {
        CopyStats::new_minimal()
    }
}

/// The counters of the copy of a single file of `bytes` bytes under `opts`.
pub fn stats_for_one_file(opts: &CopyOptions, bytes: u64) -> (stats: CopyStats)
    ensures
        stats.tracking() == opts.wants_summary(),
        stats.files_skipped == 0,
        stats.tracking() ==> stats.files_copied == 1 && stats.bytes_copied == bytes,
        !stats.tracking() ==> stats.zeroed(),
{
    let mut stats = initial_stats(opts);
    stats.record_copy(bytes);
    stats
}

/// The failure of a backend as a failure of the copy, with what was
/// attempted in front.
pub fn backend_failure(attempted: &str, failure: &BackendError) -> (wrapped: CopyError)
    ensures
        wrapped matches CopyError::IoError { message, error } && message@ == attempted@ + ": "@
            + failure.display_text() && error@ == failure.display_text(),
{
    let error = failure.to_string();
    let mut message = String::from_str(attempted);
    message.append(": ");
    message.append(error.as_str());
    CopyError::IoError { message, error }
}

/// `wrapped` is the failure `failure` of a backend as a failure of the copy,
/// with what was attempted in front.
pub open spec fn wraps(attempted: Seq<char>, failure: BackendError, wrapped: CopyError) -> bool {
    wrapped matches CopyError::IoError { message, error } && message@ == attempted + ": "@
        + failure.display_text() && error@ == failure.display_text()
}

/// `stats` are the counters of the copy of a single file of `bytes` bytes
/// under `opts`: one file of that size where a summary is wanted, nothing
/// otherwise.
pub open spec fn counts_one_file(opts: CopyOptions, bytes: u64, stats: CopyStats) -> bool {
    &&& stats.tracking() == opts.wants_summary()
    &&& stats.files_skipped == 0
    &&& stats.tracking() ==> stats.files_copied == 1 && stats.bytes_copied == bytes
    &&& !stats.tracking() ==> stats.zeroed()
}

/// `as_directory` says whether `src` is taken for a directory. A remote
/// source is one when its listing by `src_backend` shows a directory; of a
/// local source the file system decides.
pub open spec fn taken_for_directory<S: Backend + ?Sized>(
    src_backend: &S,
    src: Path,
    as_directory: bool,
) -> bool {
    src is Remote ==> exists|listing: Result<Vec<FileInfo>, BackendError>| #[trigger]
        listed(src_backend, location_of(src), listing) && as_directory == (listing matches Ok(
            files,
        ) && shows_directory(files@))
}

/// `copied` is what copying `src` to `dst` through the backends came to.
///
/// A directory is copied as a tree by the backend of the destination, whose
/// counters are handed back; anything else as one file by the backend of the
/// source, see [`counts_one_file`]. A failure of the backend comes back
/// wrapped, see [`wraps`].
pub open spec fn copied_through<S: Backend + ?Sized, D: Backend + ?Sized>(
    src_backend: &S,
    dst_backend: &D,
    opts: CopyOptions,
    src: Seq<char>,
    dst: Seq<char>,
    as_directory: bool,
    copied: Result<CopyStats, CopyError>,
) -> bool {
    if as_directory {
        exists|answer: Result<CopyStats, BackendError>| #[trigger]
            directory_copied(dst_backend, src, dst, opts, answer) && match answer {
                Ok(stats) => copied == Ok::<CopyStats, CopyError>(stats),
                Err(e) => copied matches Err(wrapped) && wraps(
                    "Backend directory copy failed"@,
                    e,
                    wrapped,
                ),
            }
    } else {
        exists|answer: Result<u64, BackendError>| #[trigger]
            file_copied(src_backend, src, dst, opts, answer) && match answer {
                Ok(bytes) => copied matches Ok(stats) && counts_one_file(opts, bytes, stats),
                Err(e) => copied matches Err(wrapped) && wraps("Backend copy failed"@, e, wrapped),
            }
    }
}

/// Copies `src` to `dst` through the backends: as a tree through the backend
/// of the destination where `as_directory` is set, else as one file through
/// the backend of the source.
pub fn copy_through<S: Backend + ?Sized, D: Backend + ?Sized>(
    src_backend: &S,
    dst_backend: &D,
    opts: &CopyOptions,
    src: &str,
    dst: &str,
    as_directory: bool,
) -> (copied: Result<CopyStats, CopyError>)
    ensures
        copied_through(src_backend, dst_backend, *opts, src@, dst@, as_directory, copied),
        copied matches Err(e) ==> e is IoError,
{
    if as_directory {
        let answer = ask_copy_directory(dst_backend, src, dst, opts);
        match answer {
            Ok(stats) => Ok(stats),
            Err(e) => {
                let wrapped = backend_failure("Backend directory copy failed", &e);
                assert(wraps("Backend directory copy failed"@, e, wrapped));
                Err(wrapped)
            },
        }
    } else {
        let answer = ask_copy_file(src_backend, src, dst, opts);
        match answer {
            Ok(bytes) => Ok(stats_for_one_file(opts, bytes)),
            Err(e) => {
                let wrapped = backend_failure("Backend copy failed", &e);
                assert(wraps("Backend copy failed"@, e, wrapped));
                Err(wrapped)
            },
        }
    }
}

/// Copies `src` to `dst` through the backends given for the two sides.
///
/// A source that is a directory is copied as a tree by the backend of the
/// destination, anything else as one file by the backend of the source.
/// Whether a local source is a directory is asked of the file system; a
/// remote one counts as a directory when its listing shows one. Every
/// failure of a backend comes back wrapped as an I/O failure of the copy;
/// see [`copied_through`] for what becomes of the backends' answers.
pub fn copy_with_backends<S: Backend + ?Sized, D: Backend + ?Sized>(
    src: &Path,
    dst: &Path,
    src_backend: &S,
    dst_backend: &D,
    opts: &CopyOptions,
) -> (copied: Result<CopyStats, CopyError>)
    ensures
        exists|as_directory: bool|
            taken_for_directory(src_backend, *src, as_directory)
                && #[trigger] copied_through(
                src_backend,
                dst_backend,
                *opts,
                location_of(*src),
                location_of(*dst),
                as_directory,
                copied,
            ),
        copied matches Err(e) ==> e is IoError,
{
    let src_text = location_text(src);
    let dst_text = location_text(dst);
    let as_directory = match src {
        Path::Local(local) => local.is_dir(),
        Path::Remote(_) => {
            let listing = ask_list(src_backend, src_text.as_str());
            listing_has_directory(&listing)
        },
    };
    assert(taken_for_directory(src_backend, *src, as_directory));
    copy_through(
        src_backend,
        dst_backend,
        opts,
        src_text.as_str(),
        dst_text.as_str(),
        as_directory,
    )
}

/// Where the copy of the file at `src` is written when `dst` is given as the
/// destination: at `dst`, or, where `dst` is a local directory, in it under
/// the name of the source. There is no such place for a source without a
/// name.
pub open spec fn target_of(src: Path, dst: Path, into_directory: bool) -> Option<Seq<char>> {
    if dst is Local && into_directory {
        match file_name_of(location_of(src)) {
            Some(name) => Some(join_under(location_of(dst), name)),
            None => None,
        }
    } else {
        Some(location_of(dst))
    }
}

/// `copied` is what copying the file `src` to `target` under `opts` through
/// the backend came to: the counters of the copy of one file, see
/// [`file_copy_outcome`] and [`counts_one_file`], or the failure of the
/// backend, wrapped, see [`wraps`].
pub open spec fn file_copied_under<S: Backend + ?Sized>(
    src_backend: &S,
    opts: CopyOptions,
    checksum: Option<ChecksumAlgorithm>,
    src: Seq<char>,
    target: Seq<char>,
    copied: Result<CopyStats, CopyError>,
) -> bool {
    exists|answer: Result<u64, BackendError>| #[trigger]
        file_copy_outcome(src_backend, opts, checksum, src, target, answer) && match answer {
            Ok(bytes) => copied matches Ok(stats) && counts_one_file(opts, bytes, stats),
            Err(e) => copied matches Err(wrapped) && wraps("Backend copy failed"@, e, wrapped),
        }
}

/// `copied` is what copying `src` to `dst` under `opts` through the backends
/// came to, where `as_directory` says whether the source is a directory and
/// `into_directory` whether the destination is one.
///
/// In a dry run nothing is asked of the backends and the counters are
/// zeroed. A directory is copied as a tree through the backend of the
/// destination, see [`directory_copy_outcome`]; anything else as one file
/// through the backend of the source, to the place that [`target_of`] gives,
/// see [`file_copied_under`]. A source without a name cannot be put into a
/// directory. A failure of a backend comes back wrapped,
/// see [`wraps`].
pub open spec fn copied_under<S: Backend + ?Sized, D: Backend + ?Sized>(
    src_backend: &S,
    dst_backend: &D,
    opts: CopyOptions,
    checksum: Option<ChecksumAlgorithm>,
    src: Path,
    dst: Path,
    as_directory: bool,
    into_directory: bool,
    copied: Result<CopyStats, CopyError>,
) -> bool {
    if opts.dry_run {
        copied matches Ok(stats) && stats.zeroed() && stats.tracking() == opts.wants_summary()
    } else if as_directory {
        exists|answer: Result<CopyStats, BackendError>| #[trigger]
            directory_copy_outcome(
                dst_backend,
                opts,
                checksum,
                location_of(src),
                location_of(dst),
                answer,
            ) && match answer {
                Ok(stats) => copied == Ok::<CopyStats, CopyError>(stats),
                Err(e) => copied matches Err(wrapped) && wraps(
                    "Backend directory copy failed"@,
                    e,
                    wrapped,
                ),
            }
    } else {
        match target_of(src, dst, into_directory) {
            None => copied matches Err(CopyError::InvalidSource(why)) && why@
                == "Source file has no name"@,
            Some(target) => file_copied_under(
                src_backend,
                opts,
                checksum,
                location_of(src),
                target,
                copied,
            ),
        }
    }
}

/// Copies `src` to `dst` under `opts` through the backends and verifies with
/// `checksum` where one is given; `as_directory` says whether the source is
/// a directory and `into_directory` whether the destination is one.
pub fn copy_under<S: Backend + ?Sized, D: Backend + ?Sized>(
    src: &Path,
    dst: &Path,
    src_backend: &S,
    dst_backend: &D,
    opts: &CopyOptions,
    checksum: Option<ChecksumAlgorithm>,
    as_directory: bool,
    into_directory: bool,
) -> (copied: Result<CopyStats, CopyError>)
    ensures
        copied_under(
            src_backend,
            dst_backend,
            *opts,
            checksum,
            *src,
            *dst,
            as_directory,
            into_directory,
            copied,
        ),
        copied matches Err(e) ==> e is IoError || e is InvalidSource,
{
    let mut stats = initial_stats(opts);
    if opts.dry_run {
        return Ok(stats);
    }
    let src_text = location_text(src);
    let given_dst = location_text(dst);
    if as_directory {
        let answer = copy_directory_through(
            dst_backend,
            opts,
            checksum,
            src_text.as_str(),
            given_dst.as_str(),
        );
        match answer {
            Ok(stats) => Ok(stats),
            Err(e) => {
                let wrapped = backend_failure("Backend directory copy failed", &e);
                assert(wraps("Backend directory copy failed"@, e, wrapped));
                Err(wrapped)
            },
        }
    } else {
        let dst_text = match dst {
            Path::Local(_) => match final_destination(
                src_text.as_str(),
                given_dst.as_str(),
                into_directory,
            ) {
                Ok(target) => target,
                Err(e) => {
                    return Err(e);
                },
            },
            Path::Remote(_) => given_dst,
        };
        assert(target_of(*src, *dst, into_directory) == Some(dst_text@));
        let answer = copy_file_through(
            src_backend,
            opts,
            checksum,
            src_text.as_str(),
            dst_text.as_str(),
        );
        let copied = match answer {
            Ok(bytes) => {
                stats.record_copy(bytes);
                Ok(stats)
            },
            Err(e) => {
                let wrapped = backend_failure("Backend copy failed", &e);
                assert(wraps("Backend copy failed"@, e, wrapped));
                Err(wrapped)
            },
        };
        assert(file_copied_under(src_backend, *opts, checksum, src_text@, dst_text@, copied));
        copied
    }
}

/// Copies `src` to `dst` under `opts` through the backends given for the two
/// sides, and verifies with `checksum` where one is given.
///
/// A local source that is a directory is copied as a tree by the backend of
/// the destination, anything else as one file by the backend of the source.
/// A file that is copied onto a local directory goes into it, under its own
/// name; see [`final_destination`]. In a dry run nothing is asked of the
/// backends and the counters come back zeroed. Every failure of a backend
/// comes back wrapped as an I/O failure of the copy. Whether a local path is
/// a directory is asked of the file system; see [`copied_under`] for what
/// follows from its answers and those of the backends.
pub fn copy_with_options<S: Backend + ?Sized, D: Backend + ?Sized>(
    src: &Path,
    dst: &Path,
    src_backend: Box<S>,
    dst_backend: Box<D>,
    opts: CopyOptions,
    checksum: Option<ChecksumAlgorithm>,
) -> (copied: Result<CopyStats, CopyError>)
    ensures
        exists|as_directory: bool, into_directory: bool|
            (*src is Remote ==> !as_directory) && #[trigger] copied_under(
                &*src_backend,
                &*dst_backend,
                opts,
                checksum,
                *src,
                *dst,
                as_directory,
                into_directory,
                copied,
            ),
        copied matches Err(e) ==> e is IoError || e is InvalidSource,
        opts.dry_run ==> (copied matches Ok(stats) && stats.zeroed() && stats.tracking()
            == opts.wants_summary()),
{
    if opts.dry_run {
        let zeroed = initial_stats(&opts);
        assert(copied_under(
            &*src_backend,
            &*dst_backend,
            opts,
            checksum,
            *src,
            *dst,
            false,
            false,
            Ok::<CopyStats, CopyError>(zeroed),
        ));
        return Ok(zeroed);
    }
    let as_directory = match src {
        Path::Local(local) => local.is_dir(),
        Path::Remote(_) => false,
    };
    let into_directory = if as_directory {
        false
    } else {
        match dst {
            Path::Local(local) => local.is_dir(),
            Path::Remote(_) => false,
        }
    };
    copy_under(
        src,
        dst,
        &*src_backend,
        &*dst_backend,
        &opts,
        checksum,
        as_directory,
        into_directory,
    )
}

/// `synced` is what making `dst` mirror `src` through the backends came to:
/// the counters of a one-way synchronization, see [`synced`], or its failure,
/// wrapped, see [`wraps`].
pub open spec fn mirrored<S: Backend + ?Sized, D: Backend + ?Sized>(
    src_backend: &S,
    dst_backend: &D,
    opts: CopyOptions,
    src: Seq<char>,
    dst: Seq<char>,
    outcome: Result<SyncStats, CopyError>,
) -> bool {
    exists|done: Result<SyncStats, BackendError>| #[trigger]
        synced(src_backend, dst_backend, opts, SyncMode::OneWay, src, dst, done) && match done {
            Ok(stats) => outcome == Ok::<SyncStats, CopyError>(stats),
            Err(e) => outcome matches Err(wrapped) && wraps("Synchronization failed"@, e, wrapped),
        }
}

/// Makes `dst` mirror `src` under `opts` through the backends given for the
/// two sides. Every failure of a backend comes back wrapped as an I/O
/// failure of the copy; see [`mirrored`] for what becomes of the backends'
/// answers.
pub fn sync_with_options<S: Backend + ?Sized, D: Backend + ?Sized>(
    src: &Path,
    dst: &Path,
    src_backend: Box<S>,
    dst_backend: Box<D>,
    opts: CopyOptions,
) -> (synced: Result<SyncStats, CopyError>)
    ensures
        mirrored(
            &*src_backend,
            &*dst_backend,
            opts,
            location_of(*src),
            location_of(*dst),
            synced,
        ),
        synced matches Err(e) ==> e is IoError,
{
    let src_text = location_text(src);
    let dst_text = location_text(dst);
    let done = sync_through(
        &*src_backend,
        &*dst_backend,
        &opts,
        SyncMode::OneWay,
        src_text.as_str(),
        dst_text.as_str(),
    );
    match done {
        Ok(stats) => Ok(stats),
        Err(e) => {
            let wrapped = backend_failure("Synchronization failed", &e);
            assert(wraps("Synchronization failed"@, e, wrapped));
            Err(wrapped)
        },
    }
}

/// How the source of a move is removed once it was copied: a local directory
/// with everything below it, any other local path as a file. A remote
/// source is not removed.
pub fn plan_source_removal(path: &Path, is_dir: bool) -> (planned: Result<DeleteAction, String>)
    ensures
        match path {
            Path::Local(_) => planned == Ok::<DeleteAction, String>(
                if is_dir {
                    DeleteAction::RemoveTree
                } else {
                    DeleteAction::RemoveFile
                },
            ),
            Path::Remote(_) => planned matches Err(why) && why@
                == "Cannot remove remote files. Move operation only supported for local files."@,
        },
{
    match path {
        Path::Local(_) => Ok(
            if is_dir {
                DeleteAction::RemoveTree
            } else {
                DeleteAction::RemoveFile
            },
        ),
        Path::Remote(_) => Err(
            String::from_str(
                "Cannot remove remote files. Move operation only supported for local files.",
            ),
        ),
    }
}

/// What a local source is copied as.
#[derive(Debug, Clone, Copy, PartialEq, Eq, Structural)]
pub enum LocalSource {
    File,
    Directory,
}

/// Judges the source of a local copy by what stands at its path: a file or a
/// directory can be copied, nothing cannot be found, and anything else is
/// not a valid source.
pub fn check_local_source(path: &str, kind: PathKind) -> (checked: Result<LocalSource, CopyError>)
    ensures
        match kind {
            PathKind::File => checked == Ok::<LocalSource, CopyError>(LocalSource::File),
            PathKind::Directory => checked == Ok::<LocalSource, CopyError>(LocalSource::Directory),
            PathKind::Missing => checked matches Err(CopyError::SourceNotFound(missing))
                && missing@ == path@,
            PathKind::Other => checked matches Err(CopyError::InvalidSource(why)) && why@
                == "Source path is neither a file nor a directory"@,
        },
{
    match kind {
        PathKind::File => Ok(LocalSource::File),
        PathKind::Directory => Ok(LocalSource::Directory),
        PathKind::Missing => Err(CopyError::SourceNotFound(String::from_str(path))),
        PathKind::Other => Err(
            CopyError::InvalidSource(
                String::from_str("Source path is neither a file nor a directory"),
            ),
        ),
    }
}

/// Where the copy of the file `src` ends up: at `dst`, or, where `dst` is a
/// directory, in it under the name of the source. A source without a name
/// cannot be put into a directory.
pub fn final_destination(src: &str, dst: &str, dst_is_dir: bool) -> (target: Result<
    String,
    CopyError,
>)
    ensures
        !dst_is_dir ==> (target matches Ok(path) && path@ == dst@),
        dst_is_dir ==> match file_name_of(src@) {
            Some(name) => target matches Ok(path) && path@ == join_under(dst@, name),
            None => target matches Err(CopyError::InvalidSource(why)) && why@
                == "Source file has no name"@,
        },
{
    if !dst_is_dir {
        return Ok(String::from_str(dst));
    }
    match file_name(src) {
        Some(name) => Ok(join_path(dst, name.as_str())),
        None => Err(CopyError::InvalidSource(String::from_str("Source file has no name"))),
    }
}

/// The external tool that moves data to or from a remote location.
#[derive(Debug, Clone, Copy, PartialEq, Eq, Structural)]
pub enum RemoteTool {
    /// Secure copy of one file.
    SecureCopy,
    /// Download over HTTP or HTTPS.
    HttpDownload,
    /// Object-store copy of one object.
    ObjectCopy,
    /// Object-store synchronization of a directory.
    ObjectSync,
}

/// Why nothing can be fetched from a location with this protocol.
pub open spec fn download_refusal(protocol: Protocol) -> Seq<char> {
    "Copying from "@ + protocol.name() + " protocol is not supported"@
}

/// Picks the tool that fetches from a remote location to a local path.
pub fn download_tool(protocol: &Protocol) -> (tool: Result<RemoteTool, CopyError>)
    ensures
        match *protocol {
            Protocol::Ssh | Protocol::Sftp => tool == Ok::<RemoteTool, CopyError>(
                RemoteTool::SecureCopy,
            ),
            Protocol::Http | Protocol::Https => tool == Ok::<RemoteTool, CopyError>(
                RemoteTool::HttpDownload,
            ),
            Protocol::S3 => tool == Ok::<RemoteTool, CopyError>(RemoteTool::ObjectCopy),
            _ => tool matches Err(CopyError::UnsupportedProtocol(why)) && why@ == download_refusal(
                *protocol,
            ),
        },
{
    match protocol {
        Protocol::Ssh | Protocol::Sftp => Ok(RemoteTool::SecureCopy),
        Protocol::Http | Protocol::Https => Ok(RemoteTool::HttpDownload),
        Protocol::S3 => Ok(RemoteTool::ObjectCopy),
        other => {
            let mut why = String::from_str("Copying from ");
            why.append(other.as_str());
            why.append(" protocol is not supported");
            Err(CopyError::UnsupportedProtocol(why))
        },
    }
}

/// Why a local source of this kind cannot be sent to a location with this
/// protocol, if it cannot.
pub open spec fn upload_refusal(protocol: Protocol, kind: PathKind) -> Option<Seq<char>> {
    if over_ssh(protocol) {
        if kind == PathKind::File {
            None
        } else {
            Some("Directory copying to remote is not yet implemented"@)
        }
    } else if protocol is S3 {
        if kind == PathKind::File || kind == PathKind::Directory {
            None
        } else {
            Some("Source must be a file or directory"@)
        }
    } else {
        Some("Copying to "@ + protocol.name() + " protocol is not supported"@)
    }
}

/// Picks the tool that sends a local source of kind `kind` to a remote
/// location: secure copy for a file over SSH, and the object store's copy for
/// a file and its synchronization for a directory.
pub fn upload_tool(protocol: &Protocol, kind: PathKind) -> (tool: Result<RemoteTool, CopyError>)
    ensures
        match upload_refusal(*protocol, kind) {
            Some(reason) => tool matches Err(CopyError::UnsupportedProtocol(why)) && why@
                == reason,
            None => tool == Ok::<RemoteTool, CopyError>(
                if over_ssh(*protocol) {
                    RemoteTool::SecureCopy
                } else if kind == PathKind::File {
                    RemoteTool::ObjectCopy
                } else {
                    RemoteTool::ObjectSync
                },
            ),
        },
{
    match protocol {
        Protocol::Ssh | Protocol::Sftp => match kind {
            PathKind::File => Ok(RemoteTool::SecureCopy),
            _ => Err(
                CopyError::UnsupportedProtocol(
                    String::from_str("Directory copying to remote is not yet implemented"),
                ),
            ),
        },
        Protocol::S3 => match kind {
            PathKind::File => Ok(RemoteTool::ObjectCopy),
            PathKind::Directory => Ok(RemoteTool::ObjectSync),
            _ => Err(
                CopyError::UnsupportedProtocol(
                    String::from_str("Source must be a file or directory"),
                ),
            ),
        },
        other => {
            let mut why = String::from_str("Copying to ");
            why.append(other.as_str());
            why.append(" protocol is not supported");
            Err(CopyError::UnsupportedProtocol(why))
        },
    }
}

} // verus!
