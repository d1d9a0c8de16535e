//! The recursive directory copy, as a machine that decides and leaves the
//! reading and writing to its driver.
//!
//! The driver performs the action it is handed and reports what came of it
//! with the next call of [`DirectoryCopy::step`], until the action is
//! [`WalkAction::Finish`] or the step fails. Directories are worked off
//! depth first. The files of one directory are handed out together and may be
//! copied in any order, or at once by several workers.

use crate::backend::error::BackendError;
use crate::backend::traits::{entries, CopyOptions, FileEntry, FileInfo};
use crate::copy::{capped_u64, capped_usize, CopyStats};
use crate::operations::sync::{steps, CopyStep, CopyTask};
use crate::text::{join_path, join_under, relative_path, relative_to};
use vstd::prelude::*;
use vstd::string::*;

verus! {

/// One file to copy, with the size that its listing gave.
#[derive(Debug)]
pub struct FileCopy {
    pub src: String,
    pub dst: String,
    pub size: u64,
}

/// The mathematical content of a [`FileCopy`].
pub struct FileCopyView {
    pub src: Seq<char>,
    pub dst: Seq<char>,
    pub size: u64,
}

impl View for FileCopy {
    type V = FileCopyView;

    open spec fn view(&self) -> FileCopyView {
        FileCopyView { src: self.src@, dst: self.dst@, size: self.size }
    }
}

/// The copies that `files` stand for.
pub open spec fn file_copies(files: Seq<FileCopy>) -> Seq<FileCopyView> {
    files.map_values(|f: FileCopy| f@)
}

/// What the driver is to do next.
#[derive(Debug)]
pub enum WalkAction {
    /// Create the directory `path` with its missing parents, then report
    /// [`WalkEvent::DirectoryReady`].
    CreateDirectory { path: String },
    /// List the directory `path`, then report [`WalkEvent::Listed`].
    ListDirectory { path: String },
    /// Copy `files`, in any order, then report [`WalkEvent::FilesCopied`].
    CopyFiles { files: Vec<FileCopy> },
    /// Nothing: the tree is copied.
    Finish,
}

/// What came of the last action.
pub enum WalkEvent {
    /// The directory is there.
    DirectoryReady,
    /// The immediate children of the directory.
    Listed(Vec<FileInfo>),
    /// All files were copied; the counters hold what the workers counted
    /// together.
    FilesCopied(CopyStats),
    /// The action failed.
    Failed(BackendError),
}

/// What the machine waits for.
#[derive(Debug, Clone, Copy, PartialEq, Eq, Structural)]
pub enum WalkPhase {
    /// For the current directory to be created.
    Creating,
    /// For the current directory to be listed.
    Listing,
    /// For the files of the current directory to be copied.
    Copying,
    /// For nothing: the walk came to its end.
    Done,
    /// For nothing: the walk was given up.
    Failed,
}

/// The state of a walk, as mathematical values.
pub struct WalkState {
    pub phase: WalkPhase,
    /// The directory in work.
    pub current: CopyStep,
    /// The directories still to do; the last is next.
    pub pending: Seq<CopyStep>,
    /// Number of files handed out with the last `CopyFiles` and not yet
    /// reported as copied.
    pub outstanding: nat,
    pub files_copied: nat,
    pub bytes_copied: nat,
    pub files_skipped: nat,
    /// Whether the counters are kept.
    pub tracking: bool,
}

/// What a step hands back, as mathematical values.
pub enum WalkOutput {
    CreateDirectory(Seq<char>),
    ListDirectory(Seq<char>),
    CopyFiles(Seq<FileCopyView>),
    Finish,
    /// The step fails.
    Fail,
}

/// Where the child `entry` of the directory `dir` goes: to the place below
/// the destination of `dir` that it has below its source.
pub open spec fn child_step(entry: FileEntry, dir: CopyStep) -> CopyStep {
    CopyStep { src: entry.path, dst: join_under(dir.dst, relative_to(entry.path, dir.src)) }
}

/// The copy of the file `entry` of the directory `dir`.
pub open spec fn child_copy(entry: FileEntry, dir: CopyStep) -> FileCopyView {
    FileCopyView {
        src: entry.path,
        dst: join_under(dir.dst, relative_to(entry.path, dir.src)),
        size: entry.size,
    }
}

/// The subdirectories among `listing`, stacked: the one listed first comes
/// last, so that it is the next to be taken off.
pub open spec fn stacked_subdirectories(listing: Seq<FileEntry>, dir: CopyStep) -> Seq<CopyStep>
    decreases listing.len(),
{
    if listing.len() == 0 {
        Seq::empty()
    } else {
        let later = stacked_subdirectories(listing.drop_first(), dir);
        if listing.first().is_dir {
            later.push(child_step(listing.first(), dir))
        } else {
            later
        }
    }
}

/// The files among `listing` that the options admit, in listed order.
pub open spec fn files_to_copy(listing: Seq<FileEntry>, dir: CopyStep, opts: CopyOptions) -> Seq<
    FileCopyView,
>
    decreases listing.len(),
{
    if listing.len() == 0 {
        Seq::empty()
    } else {
        let earlier = files_to_copy(listing.drop_last(), dir, opts);
        if !listing.last().is_dir && opts.admits(listing.last()) {
            earlier.push(child_copy(listing.last(), dir))
        } else {
            earlier
        }
    }
}

/// Number of files among `listing` that the options do not admit.
pub open spec fn files_passed_over(listing: Seq<FileEntry>, opts: CopyOptions) -> nat
    decreases listing.len(),
{
    if listing.len() == 0 {
        0
    } else {
        files_passed_over(listing.drop_last(), opts) + if !listing.last().is_dir && !opts.admits(
            listing.last(),
        ) {
            1nat
        } else {
            0nat
        }
    }
}

/// The state given up.
pub open spec fn given_up(s: WalkState) -> WalkState {
    WalkState { phase: WalkPhase::Failed, ..s }
}

/// Goes on to the next directory, or ends the walk where none is left.
pub open spec fn next_directory(s: WalkState) -> (WalkState, WalkOutput) {
    if s.pending.len() == 0 {
        (WalkState { phase: WalkPhase::Done, ..s }, WalkOutput::Finish)
    } else {
        (
            WalkState {
                phase: WalkPhase::Creating,
                current: s.pending.last(),
                pending: s.pending.drop_last(),
                ..s
            },
            WalkOutput::CreateDirectory(s.pending.last().dst),
        )
    }
}

/// Takes in the listing of the current directory: its subdirectories are put
/// on the stack, the files that the options do not admit are counted as
/// skipped, and the others are handed out. Without files to copy the walk
/// goes on to the next directory.
pub open spec fn after_listing(s: WalkState, listing: Seq<FileEntry>, opts: CopyOptions) -> (
    WalkState,
    WalkOutput,
) {
    let files = files_to_copy(listing, s.current, opts);
    let skipped = files_passed_over(listing, opts);
    let listed = WalkState {
        pending: s.pending + stacked_subdirectories(listing, s.current),
        files_skipped: if s.tracking {
            capped_usize((s.files_skipped + skipped) as int) as nat
        } else {
            s.files_skipped
        },
        ..s
    };
    if files.len() > 0 {
        (
            WalkState { phase: WalkPhase::Copying, outstanding: files.len(), ..listed },
            WalkOutput::CopyFiles(files),
        )
    } else {
        next_directory(listed)
    }
}

/// Takes in what the workers counted: where counters are kept, their counts
/// are merged into the counters of the walk, each sum staying at the largest
/// value where it does not fit.
pub open spec fn after_copying(s: WalkState, partial: CopyStats) -> (WalkState, WalkOutput) {
    next_directory(
        WalkState {
            outstanding: 0,
            files_copied: if s.tracking {
                capped_usize(s.files_copied + partial.files_copied) as nat
            } else {
                s.files_copied
            },
            bytes_copied: if s.tracking {
                capped_u64(s.bytes_copied + partial.bytes_copied) as nat
            } else {
                s.bytes_copied
            },
            files_skipped: if s.tracking {
                capped_usize(s.files_skipped + partial.files_skipped) as nat
            } else {
                s.files_skipped
            },
            ..s
        },
    )
}

/// One step of the walk: the state and the output that follow from a state
/// and an event. An event that the state does not wait for, and any event
/// after the end, makes the step fail.
pub open spec fn walk_step(s: WalkState, event: WalkEvent, opts: CopyOptions) -> (
    WalkState,
    WalkOutput,
) {
    match event {
        WalkEvent::Failed(_) => (given_up(s), WalkOutput::Fail),
        WalkEvent::DirectoryReady => if s.phase == WalkPhase::Creating {
            (WalkState { phase: WalkPhase::Listing, ..s }, WalkOutput::ListDirectory(s.current.src))
        } else {
            (given_up(s), WalkOutput::Fail)
        },
        WalkEvent::Listed(files) => if s.phase == WalkPhase::Listing {
            after_listing(s, entries(files@), opts)
        } else {
            (given_up(s), WalkOutput::Fail)
        },
        WalkEvent::FilesCopied(partial) => if s.phase == WalkPhase::Copying {
            after_copying(s, partial)
        } else {
            (given_up(s), WalkOutput::Fail)
        },
    }
}

/// What `action` is, as mathematical values.
pub open spec fn output_of(action: WalkAction) -> WalkOutput {
    match action {
        WalkAction::CreateDirectory { path } => WalkOutput::CreateDirectory(path@),
        WalkAction::ListDirectory { path } => WalkOutput::ListDirectory(path@),
        WalkAction::CopyFiles { files } => WalkOutput::CopyFiles(file_copies(files@)),
        WalkAction::Finish => WalkOutput::Finish,
    }
}

/// What the result of a step is, as mathematical values.
pub open spec fn outcome_of(result: Result<WalkAction, BackendError>) -> WalkOutput {
    match result {
        Ok(action) => output_of(action),
        Err(_) => WalkOutput::Fail,
    }
}

/// The counters of a walk, and the number of files that are out with the
/// workers.
struct WalkCounts {
    stats: CopyStats,
    outstanding: usize,
}

impl WalkCounts {
    /// Zeroed counters, kept or not.
    fn new(keep: bool) -> (counts: Self)
        ensures
            counts.stats.zeroed(),
            counts.stats.tracking() == keep,
            counts.outstanding == 0,
    {
        let stats = if keep {
            CopyStats::new()
        } else {
            CopyStats::new_minimal()
        };
        WalkCounts { stats, outstanding: 0 }
    }

    /// Takes note of a listing with `files` files to copy and `skipped`
    /// files passed over.
    fn note_listing(&mut self, files: usize, skipped: usize)
        ensures
            final(self).outstanding == if files > 0 {
                files
            } else {
                old(self).outstanding
            },
            final(self).stats.start_time == old(self).stats.start_time,
            final(self).stats.files_copied == old(self).stats.files_copied,
            final(self).stats.bytes_copied == old(self).stats.bytes_copied,
            final(self).stats.files_skipped == if old(self).stats.tracking() {
                capped_usize(old(self).stats.files_skipped + skipped)
            } else {
                old(self).stats.files_skipped
            },
    {
        self.stats.record_skipped(skipped);
        if files > 0 {
            self.outstanding = files;
        }
    }

    /// Takes in what the workers counted.
    fn note_copied(&mut self, partial: &CopyStats)
        ensures
            final(self).outstanding == 0,
            final(self).stats == old(self).stats.merged(*partial),
    {
        self.outstanding = 0;
        self.stats.merge(partial);
    }
}

/// A recursive copy of one directory tree, in progress.
pub struct DirectoryCopy {
    opts: CopyOptions,
    counts: WalkCounts,
    current: CopyTask,
    pending: Vec<CopyTask>,
    phase: WalkPhase,
}

impl View for DirectoryCopy {
    type V = WalkState;

    closed spec fn view(&self) -> WalkState {
        WalkState {
            phase: self.phase,
            current: self.current@,
            pending: steps(self.pending@),
            outstanding: self.counts.outstanding as nat,
            files_copied: self.counts.stats.files_copied as nat,
            bytes_copied: self.counts.stats.bytes_copied as nat,
            files_skipped: self.counts.stats.files_skipped as nat,
            tracking: self.counts.stats.tracking(),
        }
    }
}

impl DirectoryCopy {
    /// The options of the copy.
    pub closed spec fn options(&self) -> CopyOptions {
        self.opts
    }

    /// Starts the copy of the tree at `src` to `dst`. Counters are kept where
    /// the options ask for a summary. The first thing to do is to create
    /// `dst`.
    pub fn begin(src: &str, dst: &str, opts: CopyOptions) -> (started: (Self, WalkAction))
        ensures
            started.0@ == (WalkState {
                phase: WalkPhase::Creating,
                current: CopyStep { src: src@, dst: dst@ },
                pending: Seq::empty(),
                outstanding: 0,
                files_copied: 0,
                bytes_copied: 0,
                files_skipped: 0,
                tracking: opts.wants_summary(),
            }),
            started.0.options() == opts,
            output_of(started.1) == WalkOutput::CreateDirectory(dst@),
    {
        let counts = WalkCounts::new(opts.verbose || opts.progress);
        let walk = DirectoryCopy {
            opts,
            counts,
            current: CopyTask { src: String::from_str(src), dst: String::from_str(dst) },
            pending: Vec::new(),
            phase: WalkPhase::Creating,
        };
        assert(steps(walk.pending@) =~= Seq::<CopyStep>::empty());
        (walk, WalkAction::CreateDirectory { path: String::from_str(dst) })
    }

    /// What the machine waits for.
    pub fn phase(&self) -> (phase: WalkPhase)
        ensures
            phase == self@.phase,
    {
        self.phase
    }

    /// Whether the walk came to its end.
    pub fn is_done(&self) -> (done: bool)
        ensures
            done == (self@.phase == WalkPhase::Done),
    {
        match self.phase {
            WalkPhase::Done => true,
            _ => false,
        }
    }

    /// The counters as they stand.
    pub fn stats(&self) -> (stats: &CopyStats)
        ensures
            stats.files_copied == self@.files_copied,
            stats.bytes_copied == self@.bytes_copied,
            stats.files_skipped == self@.files_skipped,
            stats.tracking() == self@.tracking,
    {
        &self.counts.stats
    }

    /// Ends the walk and hands out its counters.
    pub fn into_stats(self) -> (stats: CopyStats)
        ensures
            stats.files_copied == self@.files_copied,
            stats.bytes_copied == self@.bytes_copied,
            stats.files_skipped == self@.files_skipped,
            stats.tracking() == self@.tracking,
    {
        self.counts.stats
    }

    /// Counters for one worker that copies files of this walk.
    pub fn worker_stats(&self) -> (partial: CopyStats)
        ensures
            partial.zeroed(),
            partial.tracking() == self@.tracking,
    {
        self.counts.stats.worker()
    }

    /// Gives the walk up.
    fn give_up(&mut self, why: BackendError) -> (failed: Result<WalkAction, BackendError>)
        ensures
            final(self)@ == given_up(old(self)@),
            final(self).options() == old(self).options(),
            failed == Err::<WalkAction, BackendError>(why),
    {
        self.phase = WalkPhase::Failed;
        Err(why)
    }

    /// Goes on to the next directory, or ends the walk.
    fn advance(&mut self) -> (action: WalkAction)
        ensures
            (final(self)@, output_of(action)) == next_directory(old(self)@),
            final(self).options() == old(self).options(),
    {
        let ghost before = steps(self.pending@);
        match self.pending.pop() {
            None => {
                self.phase = WalkPhase::Done;
                assert(before.len() == 0);
                WalkAction::Finish
            },
            Some(next) => {
                assert(before.len() > 0);
                assert(before.last() == next@);
                assert(steps(self.pending@) =~= before.drop_last());
                let path = next.dst.clone();
                self.current = next;
                self.phase = WalkPhase::Creating;
                WalkAction::CreateDirectory { path }
            },
        }
    }

    /// Takes in the listing of the current directory.
    fn take_listing(&mut self, listed: Vec<FileInfo>) -> (result: Result<WalkAction, BackendError>)
        requires
            old(self)@.phase == WalkPhase::Listing,
        ensures
            (final(self)@, outcome_of(result)) == after_listing(
                old(self)@,
                entries(listed@),
                old(self).options(),
            ),
            final(self).options() == old(self).options(),
            result is Ok,
    {
        let ghost listing = entries(listed@);
        let ghost dir = self.current@;
        let ghost opts = self.opts;

        // The files first, in listed order.
        let mut files: Vec<FileCopy> = Vec::new();
        let mut skipped: usize = 0;
        let mut i: usize = 0;
        while i < listed.len()
            invariant
                i <= listed@.len(),
                listing == entries(listed@),
                dir == self.current@,
                opts == self.opts,
                file_copies(files@) == files_to_copy(listing.take(i as int), dir, opts),
                skipped == files_passed_over(listing.take(i as int), opts),
                files@.len() + skipped <= i,
            decreases listed@.len() - i,
        {
            let entry = &listed[i];
            proof {
                assert(listing.take(i + 1).drop_last() == listing.take(i as int));
                assert(listing.take(i + 1).last() == entry@);
            }
            if !entry.is_dir {
                if self.opts.allows(entry) {
                    let rel = relative_path(entry.path.as_str(), self.current.src.as_str());
                    let copy = FileCopy {
                        src: entry.path.clone(),
                        dst: join_path(self.current.dst.as_str(), rel.as_str()),
                        size: entry.size,
                    };
                    assert(copy@ == child_copy(entry@, dir));
                    assert(file_copies(files@.push(copy)) == file_copies(files@).push(copy@));
                    files.push(copy);
                } else {
                    skipped = skipped + 1;
                }
            }
            i += 1;
        }
        assert(listing.take(listed@.len() as int) == listing);

        self.counts.note_listing(files.len(), skipped);
        // Then the subdirectories, last listed first, so that the first
        // listed ends up on top of the stack.

        let ghost stack = steps(self.pending@);
        let ghost counted = self.counts;
        let mut k: usize = listed.len();
        while k > 0
            invariant
                k <= listed@.len(),
                listing == entries(listed@),
                dir == self.current@,
                opts == self.opts,
                self.phase == old(self).phase,
                self.counts == counted,
                steps(self.pending@) == stack + stacked_subdirectories(listing.skip(k as int), dir),
            decreases k,
        {
            k -= 1;
            let entry = &listed[k];
            proof {
                assert(listing.skip(k as int).drop_first() == listing.skip(k + 1));
                assert(listing.skip(k as int).first() == entry@);
            }
            if entry.is_dir {
                let rel = relative_path(entry.path.as_str(), self.current.src.as_str());
                let sub = CopyTask {
                    src: entry.path.clone(),
                    dst: join_path(self.current.dst.as_str(), rel.as_str()),
                };
                assert(sub@ == child_step(entry@, dir));
                assert(steps(self.pending@.push(sub)) == steps(self.pending@).push(sub@));
                assert((stack + stacked_subdirectories(listing.skip(k + 1), dir)).push(sub@) == stack
                    + stacked_subdirectories(listing.skip(k + 1), dir).push(sub@));
                self.pending.push(sub);
            }
        }
        assert(listing.skip(0) == listing);

        if files.len() > 0 {
            self.phase = WalkPhase::Copying;
            Ok(WalkAction::CopyFiles { files })
        } else {
            Ok(self.advance())
        }
    }

    /// Takes in what the workers counted.
    fn take_counts(&mut self, partial: CopyStats) -> (result: Result<WalkAction, BackendError>)
        requires
            old(self)@.phase == WalkPhase::Copying,
        ensures
            (final(self)@, outcome_of(result)) == after_copying(old(self)@, partial),
            final(self).options() == old(self).options(),
            result is Ok,
    {
        self.counts.note_copied(&partial);
        Ok(self.advance())
    }

    /// Takes in what came of the last action and says what to do next.
    ///
    /// A reported failure ends the walk with that failure. The only other
    /// step that fails is one on an event that the walk does not wait for; it
    /// ends the walk with an error of the kind `Other`.
    pub fn step(&mut self, event: WalkEvent) -> (result: Result<WalkAction, BackendError>)
        ensures
            (final(self)@, outcome_of(result)) == walk_step(old(self)@, event, old(self).options()),
            final(self).options() == old(self).options(),
            event matches WalkEvent::Failed(why) ==> result == Err::<WalkAction, BackendError>(why),
            !(event is Failed) ==> (result matches Err(e) ==> e is Other),
    {
        match event {
            WalkEvent::Failed(why) => self.give_up(why),
            WalkEvent::DirectoryReady => match self.phase {
                WalkPhase::Creating => {
                    self.phase = WalkPhase::Listing;
                    Ok(WalkAction::ListDirectory { path: self.current.src.clone() })
                },
                _ => self.give_up(unexpected_event()),
            },
            WalkEvent::Listed(listed) => match self.phase {
                WalkPhase::Listing => self.take_listing(listed),
                _ => self.give_up(unexpected_event()),
            },
            WalkEvent::FilesCopied(partial) => match self.phase {
                WalkPhase::Copying => self.take_counts(partial),
                _ => self.give_up(unexpected_event()),
            },
        }
    }
}

/// The error for an event that the walk does not wait for.
fn unexpected_event() -> (e: BackendError)
    ensures
        e matches BackendError::Other(why) && why@ == "The copy did not wait for this"@,
{
    BackendError::Other(String::from_str("The copy did not wait for this"))
}

/// Number of entries of `listing` that are not directories.
pub open spec fn regular_files(listing: Seq<FileEntry>) -> nat
    decreases listing.len(),
{
    if listing.len() == 0 {
        0
    } else {
        regular_files(listing.drop_last()) + if listing.last().is_dir {
            0nat
        } else {
            1nat
        }
    }
}

/// The files to copy and the files passed over are the regular files of the
/// listing, each counted once.
pub proof fn lemma_files_partition(listing: Seq<FileEntry>, dir: CopyStep, opts: CopyOptions)
    ensures
        files_to_copy(listing, dir, opts).len() + files_passed_over(listing, opts) == regular_files(
            listing,
        ),
        regular_files(listing) <= listing.len(),
    decreases listing.len(),
{
    if listing.len() > 0 {
        lemma_files_partition(listing.drop_last(), dir, opts);
    }
}

/// Whatever happens, no counter goes down in a step.
pub proof fn lemma_step_never_lowers_counts(s: WalkState, event: WalkEvent, opts: CopyOptions)
    requires
        s.files_copied <= usize::MAX,
        s.files_skipped <= usize::MAX,
        s.bytes_copied <= u64::MAX,
    ensures
        walk_step(s, event, opts).0.bytes_copied >= s.bytes_copied,
        walk_step(s, event, opts).0.files_copied >= s.files_copied,
        walk_step(s, event, opts).0.files_skipped >= s.files_skipped,
        walk_step(s, event, opts).0.files_copied <= usize::MAX,
        walk_step(s, event, opts).0.files_skipped <= usize::MAX,
        walk_step(s, event, opts).0.bytes_copied <= u64::MAX,
{
}

/// The state of a walk after the events `events`, taken in one after the
/// other from the state `s`.
pub open spec fn walk_run(s: WalkState, events: Seq<WalkEvent>, opts: CopyOptions) -> WalkState
    decreases events.len(),
{
    if events.len() == 0 {
        s
    } else {
        walk_step(walk_run(s, events.drop_last(), opts), events.last(), opts).0
    }
}

/// The listing that the step on `event` takes in from the state `s`, if it
/// takes one in.
pub open spec fn listing_taken(s: WalkState, event: WalkEvent) -> Option<Seq<FileEntry>> {
    match event {
        WalkEvent::Listed(files) => if s.phase == WalkPhase::Listing {
            Some(entries(files@))
        } else {
            None
        },
        _ => None,
    }
}

/// The counts of the workers that the step on `event` takes in from the
/// state `s`, if it takes any in.
pub open spec fn counts_taken(s: WalkState, event: WalkEvent) -> Option<CopyStats> {
    match event {
        WalkEvent::FilesCopied(partial) => if s.phase == WalkPhase::Copying {
            Some(partial)
        } else {
            None
        },
        _ => None,
    }
}

/// What a run counts. `files_met` are the entries that are not directories
/// in the listings taken in, `handed_out` those of them that went to the
/// workers, `passed_over` those that the options did not admit, and
/// `bytes_counted` the bytes that the workers reported.
pub struct RunTotals {
    pub files_met: nat,
    pub handed_out: nat,
    pub passed_over: nat,
    pub bytes_counted: nat,
}

/// What the run of `events` from the state `s` counts.
pub open spec fn run_totals(s: WalkState, events: Seq<WalkEvent>, opts: CopyOptions) -> RunTotals
    decreases events.len(),
{
    if events.len() == 0 {
        RunTotals { files_met: 0, handed_out: 0, passed_over: 0, bytes_counted: 0 }
    } else {
        let earlier = run_totals(s, events.drop_last(), opts);
        let before = walk_run(s, events.drop_last(), opts);
        match listing_taken(before, events.last()) {
            Some(listing) => RunTotals {
                files_met: earlier.files_met + regular_files(listing),
                handed_out: earlier.handed_out + files_to_copy(listing, before.current, opts).len(),
                passed_over: earlier.passed_over + files_passed_over(listing, opts),
                ..earlier
            },
            None => match counts_taken(before, events.last()) {
                Some(partial) => RunTotals {
                    bytes_counted: earlier.bytes_counted + partial.bytes_copied as nat,
                    ..earlier
                },
                None => earlier,
            },
        }
    }
}

/// Whenever the run of `events` from the state `s` takes in counts, the
/// workers have counted each file that was handed to them as copied, and
/// none as skipped.
pub open spec fn workers_counted_in_full(
    s: WalkState,
    events: Seq<WalkEvent>,
    opts: CopyOptions,
) -> bool
    decreases events.len(),
{
    events.len() == 0 || {
        let before = walk_run(s, events.drop_last(), opts);
        &&& workers_counted_in_full(s, events.drop_last(), opts)
        &&& counts_taken(before, events.last()) matches Some(partial) ==> partial.files_copied
            == before.outstanding && partial.files_skipped == 0
    }
}

/// Over a whole tree, a walk that keeps counters counts every file once.
///
/// Take a walk that starts with zeroed counters and workers that count each
/// file handed to them. Whatever the listings hold and in whatever order the
/// events come, the files counted as copied and those still out with the
/// workers are the files handed out; the files counted as skipped are those
/// that the options did not admit; the two together are the entries that are
/// not directories in the listings taken in; and the bytes are the sum of
/// what the workers reported, as far as it can be counted. At the end of the
/// walk no file is out.
pub proof fn lemma_walk_counts_every_file(s: WalkState, events: Seq<WalkEvent>, opts: CopyOptions)
    requires
        s.tracking,
        s.outstanding == 0,
        s.files_copied == 0,
        s.files_skipped == 0,
        s.bytes_copied == 0,
        workers_counted_in_full(s, events, opts),
        run_totals(s, events, opts).files_met <= usize::MAX,
    ensures
        ({
            let end = walk_run(s, events, opts);
            let totals = run_totals(s, events, opts);
            &&& end.tracking
            &&& totals.handed_out + totals.passed_over == totals.files_met
            &&& end.files_copied + end.outstanding == totals.handed_out
            &&& end.files_skipped == totals.passed_over
            &&& end.bytes_copied == capped_u64(totals.bytes_counted as int)
            &&& end.phase != WalkPhase::Copying && end.phase != WalkPhase::Failed
                ==> end.outstanding == 0
        }),
    decreases events.len(),
{
    if events.len() > 0 {
        let shorter = events.drop_last();
        let before = walk_run(s, shorter, opts);
        let earlier = run_totals(s, shorter, opts);
        match listing_taken(before, events.last()) {
            Some(listing) => {
                lemma_files_partition(listing, before.current, opts);
            },
            None => {},
        }
        lemma_walk_counts_every_file(s, shorter, opts);
    }
}

/// `copy` is the copy of a file of `listing` that the options admit, to its
/// place below the destination of `dir`.
pub open spec fn is_file_of(copy: FileCopyView, listing: Seq<FileEntry>, dir: CopyStep, opts: CopyOptions) -> bool {
    exists|k: int|
        0 <= k < listing.len() && !(#[trigger] listing[k]).is_dir && opts.admits(listing[k])
            && copy == child_copy(listing[k], dir)
}

/// `step` leads from a directory of `listing` to its place below the
/// destination of `dir`.
pub open spec fn is_directory_of(step: CopyStep, listing: Seq<FileEntry>, dir: CopyStep) -> bool {
    exists|k: int|
        0 <= k < listing.len() && (#[trigger] listing[k]).is_dir && step == child_step(
            listing[k],
            dir,
        )
}

/// Every file to copy is a file of the listing.
pub proof fn lemma_files_to_copy_are_children(listing: Seq<FileEntry>, dir: CopyStep, opts: CopyOptions)
    ensures
        forall|i: int|
            0 <= i < files_to_copy(listing, dir, opts).len() ==> is_file_of(
                #[trigger] files_to_copy(listing, dir, opts)[i],
                listing,
                dir,
                opts,
            ),
    decreases listing.len(),
{
    let files = files_to_copy(listing, dir, opts);
    if listing.len() > 0 {
        let shorter = listing.drop_last();
        let earlier = files_to_copy(shorter, dir, opts);
        lemma_files_to_copy_are_children(shorter, dir, opts);
        assert forall|i: int| 0 <= i < files.len() implies is_file_of(
            #[trigger] files[i],
            listing,
            dir,
            opts,
        ) by {
            if i < earlier.len() {
                assert(files[i] == earlier[i]);
                assert(is_file_of(earlier[i], shorter, dir, opts));
                let k = choose|k: int|
                    0 <= k < shorter.len() && !(#[trigger] shorter[k]).is_dir && opts.admits(
                        shorter[k],
                    ) && earlier[i] == child_copy(shorter[k], dir);
                assert(listing[k] == shorter[k]);
            } else {
                assert(files[i] == child_copy(listing[listing.len() - 1], dir));
            }
        }
    }
}

/// Every stacked subdirectory is a directory of the listing.
pub proof fn lemma_subdirectories_are_children(listing: Seq<FileEntry>, dir: CopyStep)
    ensures
        forall|i: int|
            0 <= i < stacked_subdirectories(listing, dir).len() ==> is_directory_of(
                #[trigger] stacked_subdirectories(listing, dir)[i],
                listing,
                dir,
            ),
    decreases listing.len(),
{
    let stacked = stacked_subdirectories(listing, dir);
    if listing.len() > 0 {
        let shorter = listing.drop_first();
        let later = stacked_subdirectories(shorter, dir);
        lemma_subdirectories_are_children(shorter, dir);
        assert forall|i: int| 0 <= i < stacked.len() implies is_directory_of(
            #[trigger] stacked[i],
            listing,
            dir,
        ) by {
            if i < later.len() {
                assert(stacked[i] == later[i]);
                assert(is_directory_of(later[i], shorter, dir));
                let k = choose|k: int|
                    0 <= k < shorter.len() && (#[trigger] shorter[k]).is_dir && later[i]
                        == child_step(shorter[k], dir);
                assert(listing[k + 1] == shorter[k]);
            } else {
                assert(stacked[i] == child_step(listing[0], dir));
            }
        }
    }
}

/// A directory exists before anything is written into it.
///
/// Files are handed out only in answer to the listing of the current
/// directory, each on its way to its place below the destination of that
/// directory; a directory is listed only in answer to the report that its
/// destination is there; and a directory to create is one that was waiting
/// already or a child of the directory just listed.
pub proof fn lemma_directory_before_content(s: WalkState, event: WalkEvent, opts: CopyOptions)
    ensures
        walk_step(s, event, opts).1 matches WalkOutput::CopyFiles(files) ==> {
            &&& s.phase == WalkPhase::Listing
            &&& event matches WalkEvent::Listed(listed)
            &&& walk_step(s, event, opts).0.current == s.current
            &&& forall|i: int|
                0 <= i < files.len() ==> is_file_of(
                    #[trigger] files[i],
                    entries(listed@),
                    s.current,
                    opts,
                )
        },
        walk_step(s, event, opts).1 matches WalkOutput::ListDirectory(path) ==> {
            &&& s.phase == WalkPhase::Creating
            &&& event is DirectoryReady
            &&& path == s.current.src
            &&& walk_step(s, event, opts).0.current == s.current
        },
        walk_step(s, event, opts).1 matches WalkOutput::CreateDirectory(path) ==> {
            &&& walk_step(s, event, opts).0.phase == WalkPhase::Creating
            &&& walk_step(s, event, opts).0.current.dst == path
            &&& (s.pending.contains(walk_step(s, event, opts).0.current) || (event matches WalkEvent::Listed(
                listed,
            ) && is_directory_of(
                walk_step(s, event, opts).0.current,
                entries(listed@),
                s.current,
            )))
        },
{
    match event {
        WalkEvent::Listed(listed) => {
            let listing = entries(listed@);
            lemma_files_to_copy_are_children(listing, s.current, opts);
            lemma_subdirectories_are_children(listing, s.current);
            if s.phase == WalkPhase::Listing {
                let stacked = stacked_subdirectories(listing, s.current);
                if walk_step(s, event, opts).1 is CreateDirectory {
                    let all = s.pending + stacked;
                    let next = all.last();
                    assert(walk_step(s, event, opts).0.current == next);
                    if stacked.len() == 0 {
                        assert(all =~= s.pending);
                        assert(s.pending[s.pending.len() - 1] == next);
                    } else {
                        assert(next == stacked[stacked.len() - 1]);
                    }
                }
            }
        },
        WalkEvent::FilesCopied(partial) => {
            if s.phase == WalkPhase::Copying && s.pending.len() > 0 {
                assert(s.pending[s.pending.len() - 1] == s.pending.last());
            }
        },
        _ => {},
    }
}

} // verus!
