use crate::backend::error::BackendError;
use crate::backend::traits::{
    ask_copy_file, ask_delete, ask_list, deleted, entries, file_copied, listed, removed, Backend,
    CopyOptions, FileEntry, FileInfo,
};
use crate::copy::{add_bytes, add_count, capped_u64, capped_usize};
use crate::text::{
    join_path, join_under, lemma_trim_leading_done, relative_path, relative_to, strip_root,
    trim_leading,
};
use vstd::prelude::*;
use vstd::string::*;

verus! {

/// How source and destination are brought together.
#[derive(Debug, Clone, Copy, PartialEq, Eq, Structural)]
pub enum SyncMode {
    /// The destination is made to mirror the source: changed and new files
    /// are copied, files without a source are removed.
    OneWay,
    /// Changes flow both ways. Declared, not provided.
    TwoWay,
    /// Every source file is copied; nothing is compared or removed.
    CopyOnly,
}

/// What one synchronization did.
#[derive(Debug)]
pub struct SyncStats {
    pub files_copied: usize,
    pub bytes_copied: u64,
    pub files_deleted: usize,
}

impl Default for SyncStats {
    fn default() -> (stats: Self)
        ensures
            stats.files_copied == 0,
            stats.bytes_copied == 0,
            stats.files_deleted == 0,
    {
        Self { files_copied: 0, bytes_copied: 0, files_deleted: 0 }
    }
}

/// One file to copy.
#[derive(Debug)]
pub struct CopyTask {
    pub src: String,
    pub dst: String,
}

/// The mathematical content of a [`CopyTask`].
pub struct CopyStep {
    pub src: Seq<char>,
    pub dst: Seq<char>,
}

impl View for CopyTask {
    type V = CopyStep;

    open spec fn view(&self) -> CopyStep {
        CopyStep { src: self.src@, dst: self.dst@ }
    }
}

/// The work of one synchronization: copies first, in order, then deletions.
#[derive(Debug)]
pub struct SyncPlan {
    pub copies: Vec<CopyTask>,
    pub deletes: Vec<String>,
}

/// The mathematical content of a [`SyncPlan`].
pub struct SyncWork {
    pub copies: Seq<CopyStep>,
    pub deletes: Seq<Seq<char>>,
}

/// The steps that `tasks` stand for.
pub open spec fn steps(tasks: Seq<CopyTask>) -> Seq<CopyStep> {
    tasks.map_values(|t: CopyTask| t@)
}

/// The paths that `names` stand for.
pub open spec fn paths(names: Seq<String>) -> Seq<Seq<char>> {
    names.map_values(|p: String| p@)
}

impl View for SyncPlan {
    type V = SyncWork;

    open spec fn view(&self) -> SyncWork {
        SyncWork { copies: steps(self.copies@), deletes: paths(self.deletes@) }
    }
}

/// The first entry of `files` whose path below `root` is `rel`.
pub open spec fn counterpart(files: Seq<FileEntry>, root: Seq<char>, rel: Seq<char>) -> Option<
    FileEntry,
>
    decreases files.len(),
{
    if files.len() == 0 {
        None
    } else if relative_to(files.first().path, root) == rel {
        Some(files.first())
    } else {
        counterpart(files.drop_first(), root, rel)
    }
}

/// Size, modification time or kind of the two entries are not the same.
pub open spec fn differs(src: FileEntry, dst: FileEntry) -> bool {
    src.size != dst.size || src.modified != dst.modified || src.is_dir != dst.is_dir
}

/// The source entry is a file that the destination lacks or holds in
/// another state.
pub open spec fn needs_copy(
    src: FileEntry,
    dst_files: Seq<FileEntry>,
    src_root: Seq<char>,
    dst_root: Seq<char>,
) -> bool {
    &&& !src.is_dir
    &&& match counterpart(dst_files, dst_root, relative_to(src.path, src_root)) {
        None => true,
        Some(dst) => differs(src, dst),
    }
}

/// The destination entry is a file that the source does not have.
pub open spec fn is_stale(
    dst: FileEntry,
    src_files: Seq<FileEntry>,
    src_root: Seq<char>,
    dst_root: Seq<char>,
) -> bool {
    !dst.is_dir && counterpart(src_files, src_root, relative_to(dst.path, dst_root)) is None
}

/// Copying `src` puts it at the same place below the destination root that it
/// has below the source root.
pub open spec fn copy_step(src: FileEntry, src_root: Seq<char>, dst_root: Seq<char>) -> CopyStep {
    CopyStep { src: src.path, dst: join_under(dst_root, relative_to(src.path, src_root)) }
}

/// The copies of a one-way synchronization: the source entries that need
/// copying and that the options admit, in listed order.
pub open spec fn planned_copies(
    src_files: Seq<FileEntry>,
    dst_files: Seq<FileEntry>,
    src_root: Seq<char>,
    dst_root: Seq<char>,
    opts: CopyOptions,
) -> Seq<CopyStep>
    decreases src_files.len(),
{
    if src_files.len() == 0 {
        Seq::empty()
    } else {
        let earlier = planned_copies(src_files.drop_last(), dst_files, src_root, dst_root, opts);
        let src = src_files.last();
        if needs_copy(src, dst_files, src_root, dst_root) && opts.admits(src) {
            earlier.push(copy_step(src, src_root, dst_root))
        } else {
            earlier
        }
    }
}

/// The deletions of a one-way synchronization: the stale destination entries,
/// in listed order.
pub open spec fn planned_deletes(
    src_files: Seq<FileEntry>,
    dst_files: Seq<FileEntry>,
    src_root: Seq<char>,
    dst_root: Seq<char>,
) -> Seq<Seq<char>>
    decreases dst_files.len(),
{
    if dst_files.len() == 0 {
        Seq::empty()
    } else {
        let earlier = planned_deletes(src_files, dst_files.drop_last(), src_root, dst_root);
        let dst = dst_files.last();
        if is_stale(dst, src_files, src_root, dst_root) {
            earlier.push(dst.path)
        } else {
            earlier
        }
    }
}

/// What a one-way synchronization has to do, given both listings.
pub open spec fn one_way_work(
    src_files: Seq<FileEntry>,
    dst_files: Seq<FileEntry>,
    src_root: Seq<char>,
    dst_root: Seq<char>,
    opts: CopyOptions,
) -> SyncWork {
    SyncWork {
        copies: planned_copies(src_files, dst_files, src_root, dst_root, opts),
        deletes: planned_deletes(src_files, dst_files, src_root, dst_root),
    }
}

/// What a copy-only run has to do: the copies of a one-way synchronization
/// into an empty destination, and no deletion.
pub open spec fn copy_only_work(
    src_files: Seq<FileEntry>,
    src_root: Seq<char>,
    dst_root: Seq<char>,
    opts: CopyOptions,
) -> SyncWork {
    SyncWork {
        copies: planned_copies(src_files, Seq::empty(), src_root, dst_root, opts),
        deletes: Seq::empty(),
    }
}

/// The entry at `at` is the counterpart when it is the first that fits.
pub proof fn lemma_counterpart_found(
    files: Seq<FileEntry>,
    root: Seq<char>,
    rel: Seq<char>,
    at: int,
)
    requires
        0 <= at < files.len(),
        relative_to(files[at].path, root) == rel,
        forall|j: int| 0 <= j < at ==> relative_to((#[trigger] files[j]).path, root) != rel,
    ensures
        counterpart(files, root, rel) == Some(files[at]),
    decreases at,
{
    if at > 0 {
        let rest = files.drop_first();
        assert(files.first() == files[0]);
        assert(rest[at - 1] == files[at]);
        assert forall|j: int| 0 <= j < at - 1 implies relative_to((#[trigger] rest[j]).path, root)
            != rel by {
            assert(rest[j] == files[j + 1]);
        }
        lemma_counterpart_found(rest, root, rel, at - 1);
    }
}

/// There is no counterpart when no entry fits.
pub proof fn lemma_counterpart_absent(files: Seq<FileEntry>, root: Seq<char>, rel: Seq<char>)
    requires
        forall|j: int| 0 <= j < files.len() ==> relative_to((#[trigger] files[j]).path, root) != rel,
    ensures
        counterpart(files, root, rel) is None,
    decreases files.len(),
{
    if files.len() > 0 {
        let rest = files.drop_first();
        assert(files.first() == files[0]);
        assert forall|j: int| 0 <= j < rest.len() implies relative_to((#[trigger] rest[j]).path, root)
            != rel by {
            assert(rest[j] == files[j + 1]);
        }
        lemma_counterpart_absent(rest, root, rel);
    }
}

/// The path of each entry of `files` below `root`, in order.
fn relative_paths(files: &Vec<FileInfo>, root: &str) -> (rels: Vec<String>)
    ensures
        rels@.len() == files@.len(),
        forall|i: int|
            0 <= i < files@.len() ==> (#[trigger] rels@[i])@ == relative_to(files@[i].path@, root@),
{
    let mut rels: Vec<String> = Vec::new();
    let mut i: usize = 0;
    while i < files.len()
        invariant
            i <= files@.len(),
            rels@.len() == i,
            forall|j: int|
                0 <= j < i ==> (#[trigger] rels@[j])@ == relative_to(files@[j].path@, root@),
        decreases files@.len() - i,
    {
        rels.push(relative_path(files[i].path.as_str(), root));
        i += 1;
    }
    rels
}

/// Index of the first of `names` that equals `name`.
fn first_equal(names: &Vec<String>, name: &String) -> (found: Option<usize>)
    ensures
        match found {
            Some(at) => {
                &&& at < names@.len()
                &&& names@[at as int]@ == name@
                &&& forall|j: int| 0 <= j < at ==> (#[trigger] names@[j])@ != name@
            },
            None => forall|j: int| 0 <= j < names@.len() ==> (#[trigger] names@[j])@ != name@,
        },
{
    let mut at: usize = 0;
    while at < names.len()
        invariant
            at <= names@.len(),
            forall|j: int| 0 <= j < at ==> (#[trigger] names@[j])@ != name@,
        decreases names@.len() - at,
    {
        if names[at] == *name {
            return Some(at);
        }
        at += 1;
    }
    None
}

/// Whether size, modification time or kind differ.
pub fn changed(src: &FileInfo, dst: &FileInfo) -> (yes: bool)
    ensures
        yes == differs(src@, dst@),
{
    src.size != dst.size || src.modified != dst.modified || src.is_dir != dst.is_dir
}

/// The entry of `files` that answers to `rel`, where `rels` holds the
/// relative path of each entry.
fn find_counterpart<'a>(
    files: &'a Vec<FileInfo>,
    rels: &Vec<String>,
    rel: &String,
    Ghost(root): Ghost<Seq<char>>,
) -> (found: Option<&'a FileInfo>)
    requires
        rels@.len() == files@.len(),
        forall|i: int|
            0 <= i < files@.len() ==> (#[trigger] rels@[i])@ == relative_to(files@[i].path@, root),
    ensures
        match found {
            Some(entry) => counterpart(entries(files@), root, rel@) == Some(entry@),
            None => counterpart(entries(files@), root, rel@) is None,
        },
{
    let listing = Ghost(entries(files@));
    match first_equal(rels, rel) {
        Some(at) => {
            proof {
                assert forall|j: int| 0 <= j < at implies relative_to(
                    (#[trigger] listing@[j]).path,
                    root,
                ) != rel@ by {
                    assert(rels@[j]@ != rel@);
                }
                lemma_counterpart_found(listing@, root, rel@, at as int);
            }
            Some(&files[at])
        },
        None => {
            proof {
                assert forall|j: int| 0 <= j < listing@.len() implies relative_to(
                    (#[trigger] listing@[j]).path,
                    root,
                ) != rel@ by {
                    assert(rels@[j]@ != rel@);
                }
                lemma_counterpart_absent(listing@, root, rel@);
            }
            None
        },
    }
}

/// Computes the work of a one-way synchronization from the two listings.
pub fn plan_one_way(
    src_files: &Vec<FileInfo>,
    dst_files: &Vec<FileInfo>,
    src_root: &str,
    dst_root: &str,
    opts: &CopyOptions,
) -> (plan: SyncPlan)
    ensures
        plan@ == one_way_work(entries(src_files@), entries(dst_files@), src_root@, dst_root@, *opts),
{
    let src_rels = relative_paths(src_files, src_root);
    let dst_rels = relative_paths(dst_files, dst_root);
    let ghost src_list = entries(src_files@);
    let ghost dst_list = entries(dst_files@);

    let mut copies: Vec<CopyTask> = Vec::new();
    let mut i: usize = 0;
    while i < src_files.len()
        invariant
            i <= src_files@.len(),
            src_list == entries(src_files@),
            dst_list == entries(dst_files@),
            src_rels@.len() == src_files@.len(),
            dst_rels@.len() == dst_files@.len(),
            forall|k: int|
                0 <= k < src_files@.len() ==> (#[trigger] src_rels@[k])@ == relative_to(
                    src_files@[k].path@,
                    src_root@,
                ),
            forall|k: int|
                0 <= k < dst_files@.len() ==> (#[trigger] dst_rels@[k])@ == relative_to(
                    dst_files@[k].path@,
                    dst_root@,
                ),
            steps(copies@) == planned_copies(
                src_list.take(i as int),
                dst_list,
                src_root@,
                dst_root@,
                *opts,
            ),
        decreases src_files@.len() - i,
    {
        let src = &src_files[i];
        proof {
            assert(src_list.take(i + 1).drop_last() == src_list.take(i as int));
            assert(src_list.take(i + 1).last() == src@);
        }
        let mut wanted = false;
        if !src.is_dir {
            wanted =
            match find_counterpart(dst_files, &dst_rels, &src_rels[i], Ghost(dst_root@)) {
                None => true,
                Some(dst) => changed(src, dst),
            };
        }
        assert(wanted == needs_copy(src@, dst_list, src_root@, dst_root@));
        if wanted && opts.allows(src) {
            let task = CopyTask {
                src: src.path.clone(),
                dst: join_path(dst_root, src_rels[i].as_str()),
            };
            assert(task@ == copy_step(src@, src_root@, dst_root@));
            assert(steps(copies@.push(task)) == steps(copies@).push(task@));
            copies.push(task);
        }
        i += 1;
    }
    assert(src_list.take(src_files@.len() as int) == src_list);

    let mut deletes: Vec<String> = Vec::new();
    let mut j: usize = 0;
    while j < dst_files.len()
        invariant
            j <= dst_files@.len(),
            src_list == entries(src_files@),
            dst_list == entries(dst_files@),
            src_rels@.len() == src_files@.len(),
            dst_rels@.len() == dst_files@.len(),
            forall|k: int|
                0 <= k < src_files@.len() ==> (#[trigger] src_rels@[k])@ == relative_to(
                    src_files@[k].path@,
                    src_root@,
                ),
            forall|k: int|
                0 <= k < dst_files@.len() ==> (#[trigger] dst_rels@[k])@ == relative_to(
                    dst_files@[k].path@,
                    dst_root@,
                ),
            paths(deletes@) == planned_deletes(src_list, dst_list.take(j as int), src_root@, dst_root@),
        decreases dst_files@.len() - j,
    {
        let dst = &dst_files[j];
        proof {
            assert(dst_list.take(j + 1).drop_last() == dst_list.take(j as int));
            assert(dst_list.take(j + 1).last() == dst@);
        }
        if !dst.is_dir {
            if find_counterpart(src_files, &src_rels, &dst_rels[j], Ghost(src_root@)).is_none() {
                let path = dst.path.clone();
                assert(paths(deletes@.push(path)) == paths(deletes@).push(path@));
                deletes.push(path);
            }
        }
        j += 1;
    }
    assert(dst_list.take(dst_files@.len() as int) == dst_list);

    SyncPlan { copies, deletes }
}

/// Computes the work of a copy-only run from the source listing.
pub fn plan_copy_only(src_files: &Vec<FileInfo>, src_root: &str, dst_root: &str, opts: &CopyOptions) -> (plan:
    SyncPlan)
    ensures
        plan@ == copy_only_work(entries(src_files@), src_root@, dst_root@, *opts),
{
    let ghost src_list = entries(src_files@);
    let mut copies: Vec<CopyTask> = Vec::new();
    let mut i: usize = 0;
    while i < src_files.len()
        invariant
            i <= src_files@.len(),
            src_list == entries(src_files@),
            steps(copies@) == planned_copies(
                src_list.take(i as int),
                Seq::empty(),
                src_root@,
                dst_root@,
                *opts,
            ),
        decreases src_files@.len() - i,
    {
        let src = &src_files[i];
        proof {
            assert(src_list.take(i + 1).drop_last() == src_list.take(i as int));
            assert(src_list.take(i + 1).last() == src@);
        }
        if !src.is_dir && opts.allows(src) {
            let rel = relative_path(src.path.as_str(), src_root);
            let task = CopyTask { src: src.path.clone(), dst: join_path(dst_root, rel.as_str()) };
            assert(task@ == copy_step(src@, src_root@, dst_root@));
            assert(steps(copies@.push(task)) == steps(copies@).push(task@));
            copies.push(task);
        }
        i += 1;
    }
    assert(src_list.take(src_files@.len() as int) == src_list);
    let plan = SyncPlan { copies, deletes: Vec::new() };
    assert(paths(plan.deletes@) == Seq::<Seq<char>>::empty());
    plan
}

impl SyncStats {
    /// Counts one copied file of `bytes` bytes. A count that does not fit
    /// stays at the largest value.
    pub fn record_copy(&mut self, bytes: u64)
        ensures
            final(self).files_copied == capped_usize(old(self).files_copied + 1),
            final(self).bytes_copied == capped_u64(old(self).bytes_copied + bytes),
            final(self).files_deleted == old(self).files_deleted,
    {
        self.files_copied = add_count(self.files_copied, 1);
        self.bytes_copied = add_bytes(self.bytes_copied, bytes);
    }

    /// Counts one deleted file. A count that does not fit stays at the
    /// largest value.
    pub fn record_delete(&mut self)
        ensures
            final(self).files_deleted == capped_usize(old(self).files_deleted + 1),
            final(self).files_copied == old(self).files_copied,
            final(self).bytes_copied == old(self).bytes_copied,
    {
        self.files_deleted = add_count(self.files_deleted, 1);
    }
}

/// The listing to work with where listing the destination was attempted: what
/// was listed, or nothing where the attempt failed (a destination that is not
/// there yet is empty, not an error).
pub fn listing_or_empty(listing: Result<Vec<FileInfo>, BackendError>) -> (files: Vec<FileInfo>)
    ensures
        match listing {
            Ok(listed) => files == listed,
            Err(_) => files@.len() == 0,
        },
{
    match listing {
        Ok(listed) => listed,
        Err(_) => Vec::new(),
    }
}

/// What was listed, or nothing where the listing failed.
pub open spec fn listed_or_nothing(listing: Result<Vec<FileInfo>, BackendError>) -> Seq<FileInfo> {
    match listing {
        Ok(files) => files@,
        Err(_) => Seq::empty(),
    }
}

/// The byte count after copies that moved `bytes`, one after the other; a
/// count that does not fit stays at the largest value.
pub open spec fn total_bytes(bytes: Seq<u64>) -> u64
    decreases bytes.len(),
{
    if bytes.len() == 0 {
        0
    } else {
        capped_u64(total_bytes(bytes.drop_last()) + bytes.last())
    }
}

/// The refusal of a two-way synchronization.
pub open spec fn two_way_refused<T>(outcome: Result<T, BackendError>) -> bool {
    outcome matches Err(BackendError::UnsupportedOperation(why)) && why@
        == "Two-way sync not yet implemented"@
}

/// `outcome` is the plan that follows from what the backends listed.
///
/// Two-way synchronization is refused. In one-way mode the source backend
/// lists `src_path` and the destination backend `dst_path`, and the plan is
/// the work of a one-way synchronization between the two listings, a
/// destination that cannot be listed counting as empty. In copy-only mode the
/// source alone is listed. A source that cannot be listed is a failure, the
/// one that the source backend gave.
pub open spec fn planned<S: Backend + ?Sized, D: Backend + ?Sized>(
    src_backend: &S,
    dst_backend: &D,
    opts: CopyOptions,
    mode: SyncMode,
    src_path: Seq<char>,
    dst_path: Seq<char>,
    outcome: Result<SyncPlan, BackendError>,
) -> bool {
    match mode {
        SyncMode::TwoWay => two_way_refused(outcome),
        SyncMode::OneWay => exists|src_listing: Result<Vec<FileInfo>, BackendError>| #[trigger]
            listed(src_backend, src_path, src_listing) && match src_listing {
                Err(e) => outcome == Err::<SyncPlan, BackendError>(e),
                Ok(src_files) => exists|dst_listing: Result<Vec<FileInfo>, BackendError>| #[trigger]
                    listed(dst_backend, dst_path, dst_listing) && (outcome matches Ok(plan)
                        && plan@ == one_way_work(
                        entries(src_files@),
                        entries(listed_or_nothing(dst_listing)),
                        src_path,
                        dst_path,
                        opts,
                    )),
            },
        SyncMode::CopyOnly => exists|src_listing: Result<Vec<FileInfo>, BackendError>| #[trigger]
            listed(src_backend, src_path, src_listing) && match src_listing {
                Err(e) => outcome == Err::<SyncPlan, BackendError>(e),
                Ok(src_files) => outcome matches Ok(plan) && plan@ == copy_only_work(
                    entries(src_files@),
                    src_path,
                    dst_path,
                    opts,
                ),
            },
    }
}

/// The source backend made every one of the copies `steps` and reported
/// `bytes` for them, one count for each.
pub open spec fn copies_made<S: Backend + ?Sized>(
    src_backend: &S,
    opts: CopyOptions,
    steps: Seq<CopyStep>,
    bytes: Seq<u64>,
) -> bool {
    &&& bytes.len() == steps.len()
    &&& forall|i: int|
        0 <= i < steps.len() ==> file_copied(
            src_backend,
            steps[i].src,
            steps[i].dst,
            opts,
            Ok::<u64, BackendError>(#[trigger] bytes[i]),
        )
}

/// The destination backend deleted every one of `stale`.
pub open spec fn all_removed<D: Backend + ?Sized>(dst_backend: &D, stale: Seq<Seq<char>>) -> bool {
    forall|j: int| 0 <= j < stale.len() ==> removed(dst_backend, #[trigger] stale[j])
}

/// `done` is what carrying out `work` came to.
///
/// A run that succeeded asked the source backend for every copy and the
/// destination backend for every deletion, and each said yes; the counters
/// hold the number of copies, the bytes that the source backend reported for
/// them, and the number of deletions. A run that failed ends with the first
/// failure: that of a copy when the copies before it were made, or that of a
/// deletion when all copies were made and the deletions before it carried
/// out.
pub open spec fn applied<S: Backend + ?Sized, D: Backend + ?Sized>(
    src_backend: &S,
    dst_backend: &D,
    opts: CopyOptions,
    work: SyncWork,
    done: Result<SyncStats, BackendError>,
) -> bool {
    match done {
        Ok(stats) => {
            &&& stats.files_copied == work.copies.len()
            &&& stats.files_deleted == work.deletes.len()
            &&& exists|bytes: Seq<u64>| #[trigger]
                copies_made(src_backend, opts, work.copies, bytes) && stats.bytes_copied
                    == total_bytes(bytes)
            &&& all_removed(dst_backend, work.deletes)
        },
        Err(e) => {
            ||| exists|at: int, bytes: Seq<u64>|
                {
                    &&& 0 <= at < work.copies.len()
                    &&& #[trigger] copies_made(src_backend, opts, work.copies.take(at), bytes)
                    &&& file_copied(
                        src_backend,
                        work.copies[at].src,
                        work.copies[at].dst,
                        opts,
                        Err::<u64, BackendError>(e),
                    )
                }
            ||| exists|at: int, bytes: Seq<u64>|
                #![trigger
                    copies_made(src_backend, opts, work.copies, bytes),
                    all_removed(dst_backend, work.deletes.take(at)),
                ]
                {
                    &&& 0 <= at < work.deletes.len()
                    &&& copies_made(src_backend, opts, work.copies, bytes)
                    &&& all_removed(dst_backend, work.deletes.take(at))
                    &&& deleted(dst_backend, work.deletes[at], Err::<(), BackendError>(e))
                }
        },
    }
}

/// `done` is what a synchronization came to: the failure of the planning, or
/// what carrying out the plan came to.
pub open spec fn synced<S: Backend + ?Sized, D: Backend + ?Sized>(
    src_backend: &S,
    dst_backend: &D,
    opts: CopyOptions,
    mode: SyncMode,
    src_path: Seq<char>,
    dst_path: Seq<char>,
    done: Result<SyncStats, BackendError>,
) -> bool {
    exists|outcome: Result<SyncPlan, BackendError>| #[trigger]
        planned(src_backend, dst_backend, opts, mode, src_path, dst_path, outcome)
            && match outcome {
            Err(e) => done == Err::<SyncStats, BackendError>(e),
            Ok(plan) => applied(src_backend, dst_backend, opts, plan@, done),
        }
}

/// Lists what the mode needs through the two backends and computes the work
/// from it.
pub fn plan_through<S: Backend + ?Sized, D: Backend + ?Sized>(
    src_backend: &S,
    dst_backend: &D,
    opts: &CopyOptions,
    mode: SyncMode,
    src_path: &str,
    dst_path: &str,
) -> (outcome: Result<SyncPlan, BackendError>)
    ensures
        planned(src_backend, dst_backend, *opts, mode, src_path@, dst_path@, outcome),
        outcome matches Ok(plan) ==> {
            &&& forall|i: int|
                0 <= i < plan@.copies.len() ==> leads_below(
                    #[trigger] plan@.copies[i],
                    src_path@,
                    dst_path@,
                )
            &&& mode == SyncMode::CopyOnly ==> plan@.deletes.len() == 0
        },
{
    match mode {
        SyncMode::OneWay => {
            let src_listing = ask_list(src_backend, src_path);
            let src_files = match src_listing {
                Ok(files) => files,
                Err(e) => {
                    return Err(e);
                },
            };
            let dst_listing = ask_list(dst_backend, dst_path);
            let ghost dst_listed = dst_listing;
            let dst_files = listing_or_empty(dst_listing);
            assert(entries(dst_files@) =~= entries(listed_or_nothing(dst_listed)));
            let plan = plan_one_way(&src_files, &dst_files, src_path, dst_path, opts);
            proof {
                lemma_copies_lead_below_root(
                    entries(src_files@),
                    entries(dst_files@),
                    src_path@,
                    dst_path@,
                    *opts,
                );
                assert(listed(dst_backend, dst_path@, dst_listed));
                assert(listed(src_backend, src_path@, Ok::<Vec<FileInfo>, BackendError>(src_files)));
            }
            Ok(plan)
        },
        SyncMode::TwoWay => Err(
            BackendError::UnsupportedOperation(String::from_str("Two-way sync not yet implemented")),
        ),
        SyncMode::CopyOnly => {
            let src_listing = ask_list(src_backend, src_path);
            let src_files = match src_listing {
                Ok(files) => files,
                Err(e) => {
                    return Err(e);
                },
            };
            let plan = plan_copy_only(&src_files, src_path, dst_path, opts);
            proof {
                lemma_copies_lead_below_root(
                    entries(src_files@),
                    Seq::empty(),
                    src_path@,
                    dst_path@,
                    *opts,
                );
                assert(listed(src_backend, src_path@, Ok::<Vec<FileInfo>, BackendError>(src_files)));
            }
            Ok(plan)
        },
    }
}

/// Carries out `plan` through the two backends: all copies first, in order,
/// through the source backend, then all deletions through the destination
/// backend. The first failure ends the run and is handed back.
pub fn apply_through<S: Backend + ?Sized, D: Backend + ?Sized>(
    src_backend: &S,
    dst_backend: &D,
    opts: &CopyOptions,
    plan: &SyncPlan,
) -> (done: Result<SyncStats, BackendError>)
    ensures
        applied(src_backend, dst_backend, *opts, plan@, done),
        plan@.copies.len() == 0 && plan@.deletes.len() == 0 ==> (done matches Ok(stats)
            && stats.files_copied == 0 && stats.bytes_copied == 0 && stats.files_deleted == 0),
        plan@.copies.len() == 0 ==> (done matches Ok(stats) ==> stats.bytes_copied == 0),
{
    let ghost work = plan@;
    let mut stats = SyncStats::default();
    let ghost mut bytes: Seq<u64> = Seq::empty();
    let mut i: usize = 0;
    while i < plan.copies.len()
        invariant
            i <= plan.copies@.len(),
            work == plan@,
            stats.files_copied == i,
            stats.files_deleted == 0,
            copies_made(src_backend, *opts, work.copies.take(i as int), bytes),
            stats.bytes_copied == total_bytes(bytes),
        decreases plan.copies@.len() - i,
    {
        let task = &plan.copies[i];
        assert(work.copies[i as int] == task@);
        match ask_copy_file(src_backend, task.src.as_str(), task.dst.as_str(), opts) {
            Ok(moved) => {
                stats.record_copy(moved);
                proof {
                    let longer = bytes.push(moved);
                    assert(longer.drop_last() == bytes);
                    assert(work.copies.take(i + 1) == work.copies.take(i as int).push(task@));
                    bytes = longer;
                }
            },
            Err(e) => {
                return Err(e);
            },
        }
        i += 1;
    }
    assert(work.copies.take(i as int) == work.copies);
    let mut j: usize = 0;
    while j < plan.deletes.len()
        invariant
            j <= plan.deletes@.len(),
            work == plan@,
            stats.files_copied == plan.copies@.len(),
            copies_made(src_backend, *opts, work.copies, bytes),
            stats.bytes_copied == total_bytes(bytes),
            stats.files_deleted == j,
            all_removed(dst_backend, work.deletes.take(j as int)),
        decreases plan.deletes@.len() - j,
    {
        assert(work.deletes[j as int] == plan.deletes@[j as int]@);
        let answer = ask_delete(dst_backend, plan.deletes[j].as_str());
        match answer {
            Ok(_) => {
                assert(removed(dst_backend, work.deletes[j as int]));
                assert(work.deletes.take(j + 1) == work.deletes.take(j as int).push(
                    work.deletes[j as int],
                ));
                stats.record_delete();
            },
            Err(e) => {
                return Err(e);
            },
        }
        j += 1;
    }
    assert(work.deletes.take(j as int) == work.deletes);
    Ok(stats)
}

/// Plans through the two backends and carries the plan out.
pub fn sync_through<S: Backend + ?Sized, D: Backend + ?Sized>(
    src_backend: &S,
    dst_backend: &D,
    opts: &CopyOptions,
    mode: SyncMode,
    src_path: &str,
    dst_path: &str,
) -> (done: Result<SyncStats, BackendError>)
    ensures
        synced(src_backend, dst_backend, *opts, mode, src_path@, dst_path@, done),
        mode == SyncMode::TwoWay ==> two_way_refused(done),
        mode == SyncMode::CopyOnly ==> (done matches Ok(stats) ==> stats.files_deleted == 0),
{
    let outcome = plan_through(src_backend, dst_backend, opts, mode, src_path, dst_path);
    match outcome {
        Ok(plan) => {
            let done = apply_through(src_backend, dst_backend, opts, &plan);
            assert(planned(
                src_backend,
                dst_backend,
                *opts,
                mode,
                src_path@,
                dst_path@,
                Ok::<SyncPlan, BackendError>(plan),
            ));
            done
        },
        Err(e) => {
            assert(planned(
                src_backend,
                dst_backend,
                *opts,
                mode,
                src_path@,
                dst_path@,
                Err::<SyncPlan, BackendError>(e),
            ));
            Err(e)
        },
    }
}

/// Synchronizes a source with a destination, each behind its own backend.
pub struct SyncOperation {
    /// The backend that lists the source and copies from it.
    pub src_backend: Box<dyn Backend>,
    /// The backend that lists the destination and deletes from it.
    pub dst_backend: Box<dyn Backend>,
    /// The mode of the synchronization.
    pub mode: SyncMode,
    /// The options handed to the backends.
    pub options: CopyOptions,
}

impl SyncOperation {
    /// The mode the operation is set to.
    pub open spec fn spec_mode(&self) -> SyncMode {
        self.mode
    }

    /// The options the operation works with.
    pub open spec fn spec_options(&self) -> CopyOptions {
        self.options
    }

    /// `outcome` is the plan that follows from what the backends of the
    /// operation listed; see [`planned`].
    pub open spec fn plans(
        &self,
        src_path: Seq<char>,
        dst_path: Seq<char>,
        outcome: Result<SyncPlan, BackendError>,
    ) -> bool {
        planned::<dyn Backend, dyn Backend>(
            &*self.src_backend,
            &*self.dst_backend,
            self.options,
            self.mode,
            src_path,
            dst_path,
            outcome,
        )
    }

    /// `done` is what carrying out `work` through the backends of the
    /// operation came to; see [`applied`].
    pub open spec fn applies(&self, work: SyncWork, done: Result<SyncStats, BackendError>) -> bool {
        applied::<dyn Backend, dyn Backend>(
            &*self.src_backend,
            &*self.dst_backend,
            self.options,
            work,
            done,
        )
    }

    /// `done` is what a synchronization through the backends of the
    /// operation came to; see [`synced`].
    pub open spec fn syncs(
        &self,
        src_path: Seq<char>,
        dst_path: Seq<char>,
        done: Result<SyncStats, BackendError>,
    ) -> bool {
        synced::<dyn Backend, dyn Backend>(
            &*self.src_backend,
            &*self.dst_backend,
            self.options,
            self.mode,
            src_path,
            dst_path,
            done,
        )
    }

    /// An operation that synchronizes from `src_backend` to `dst_backend` in
    /// `mode` under `options`.
    pub fn new(
        src_backend: Box<dyn Backend>,
        dst_backend: Box<dyn Backend>,
        mode: SyncMode,
        options: CopyOptions,
    ) -> (op: Self)
        ensures
            op == (SyncOperation { src_backend, dst_backend, mode, options }),
            op.spec_mode() == mode,
            op.spec_options() == options,
    {
        Self { src_backend, dst_backend, mode, options }
    }

    /// Runs the synchronization in the mode the operation is set to.
    ///
    /// Two-way synchronization is refused before anything is listed. In the
    /// other modes the outcome is that of [`Self::plan`] followed by
    /// [`Self::apply`]; it depends on what the backends answer.
    pub fn sync(&self, src_path: &str, dst_path: &str) -> (done: Result<SyncStats, BackendError>)
        ensures
            self.syncs(src_path@, dst_path@, done),
            self.spec_mode() == SyncMode::TwoWay ==> (done matches Err(
                BackendError::UnsupportedOperation(why),
            ) && why@ == "Two-way sync not yet implemented"@),
            self.spec_mode() == SyncMode::CopyOnly ==> (done matches Ok(stats)
                ==> stats.files_deleted == 0),
    {
        match self.mode {
            SyncMode::OneWay => self.sync_one_way(src_path, dst_path),
            SyncMode::TwoWay => sync_through::<dyn Backend, dyn Backend>(
                &*self.src_backend,
                &*self.dst_backend,
                &self.options,
                SyncMode::TwoWay,
                src_path,
                dst_path,
            ),
            SyncMode::CopyOnly => self.sync_copy_only(src_path, dst_path),
        }
    }

    /// Lists what the mode needs and computes the work from it: in one-way
    /// mode both roots (a destination that cannot be listed counts as empty),
    /// in copy-only mode the source alone.
    ///
    /// The plan is the work that follows from what was listed. Every planned
    /// copy leads from a path to the place below `dst_path` that the path has
    /// below `src_path`.
    pub fn plan(&self, src_path: &str, dst_path: &str) -> (planned: Result<SyncPlan, BackendError>)
        ensures
            self.plans(src_path@, dst_path@, planned),
            self.spec_mode() == SyncMode::TwoWay ==> (planned matches Err(
                BackendError::UnsupportedOperation(why),
            ) && why@ == "Two-way sync not yet implemented"@),
            planned matches Ok(plan) ==> {
                &&& forall|i: int|
                    0 <= i < plan@.copies.len() ==> leads_below(
                        #[trigger] plan@.copies[i],
                        src_path@,
                        dst_path@,
                    )
                &&& self.spec_mode() == SyncMode::OneWay ==> exists|
                    src_files: Seq<FileEntry>,
                    dst_files: Seq<FileEntry>,
                |
                    plan@ == #[trigger] one_way_work(
                        src_files,
                        dst_files,
                        src_path@,
                        dst_path@,
                        self.spec_options(),
                    )
                &&& self.spec_mode() == SyncMode::CopyOnly ==> exists|src_files: Seq<FileEntry>|
                    plan@ == #[trigger] copy_only_work(
                        src_files,
                        src_path@,
                        dst_path@,
                        self.spec_options(),
                    )
                &&& self.spec_mode() == SyncMode::CopyOnly ==> plan@.deletes.len() == 0
            },
    {
        plan_through::<dyn Backend, dyn Backend>(
            &*self.src_backend,
            &*self.dst_backend,
            &self.options,
            self.mode,
            src_path,
            dst_path,
        )
    }

    /// Carries out `plan`: all copies first, in order, through the source
    /// backend, then all deletions through the destination backend. The first
    /// failure ends the run and is handed back; what was done before it stays.
    ///
    /// A run that succeeds has copied and deleted exactly what was planned,
    /// and a plan without work succeeds with all counters at zero; see
    /// [`applied`] for all that holds of the outcome.
    pub fn apply(&self, plan: &SyncPlan) -> (done: Result<SyncStats, BackendError>)
        ensures
            self.applies(plan@, done),
            plan.copies@.len() == 0 && plan.deletes@.len() == 0 ==> (done matches Ok(stats)
                && stats.files_copied == 0 && stats.bytes_copied == 0 && stats.files_deleted
                == 0),
            done matches Ok(stats) ==> {
                &&& stats.files_copied == plan.copies@.len()
                &&& stats.files_deleted == plan.deletes@.len()
                &&& plan.copies@.len() == 0 ==> stats.bytes_copied == 0
            },
    {
        apply_through::<dyn Backend, dyn Backend>(
            &*self.src_backend,
            &*self.dst_backend,
            &self.options,
            plan,
        )
    }

    /// Runs a one-way synchronization: plans from the listings of both
    /// roots, then carries the plan out; see [`synced`].
    fn sync_one_way(&self, src_path: &str, dst_path: &str) -> (done: Result<SyncStats, BackendError>)
        requires
            self.spec_mode() == SyncMode::OneWay,
        ensures
            self.syncs(src_path@, dst_path@, done),
    {
        sync_through::<dyn Backend, dyn Backend>(
            &*self.src_backend,
            &*self.dst_backend,
            &self.options,
            SyncMode::OneWay,
            src_path,
            dst_path,
        )
    }

    /// Runs a copy-only synchronization: plans from the listing of the
    /// source, then carries the plan out; see [`synced`]. Nothing is deleted.
    fn sync_copy_only(&self, src_path: &str, dst_path: &str) -> (done: Result<
        SyncStats,
        BackendError,
    >)
        requires
            self.spec_mode() == SyncMode::CopyOnly,
        ensures
            self.syncs(src_path@, dst_path@, done),
            done matches Ok(stats) ==> stats.files_deleted == 0,
    {
        sync_through::<dyn Backend, dyn Backend>(
            &*self.src_backend,
            &*self.dst_backend,
            &self.options,
            SyncMode::CopyOnly,
            src_path,
            dst_path,
        )
    }

    pub fn set_mode(&mut self, mode: SyncMode)
        ensures
            *final(self) == (SyncOperation { mode, ..*old(self) }),
            final(self).spec_mode() == mode,
            final(self).spec_options() == old(self).spec_options(),
    {
        self.mode = mode;
    }

    #[verifier::when_used_as_spec(spec_mode)]
    pub fn mode(&self) -> (mode: SyncMode)
        ensures
            mode == self.spec_mode(),
    {
        self.mode
    }

    pub fn set_options(&mut self, options: CopyOptions)
        ensures
            *final(self) == (SyncOperation { options, ..*old(self) }),
            final(self).spec_options() == options,
            final(self).spec_mode() == old(self).spec_mode(),
    {
        self.options = options;
    }

    pub fn options(&self) -> (options: &CopyOptions)
        ensures
            *options == self.spec_options(),
    {
        &self.options
    }
}

/// Nothing is copied exactly when no source entry that the options admit
/// needs copying.
pub proof fn lemma_no_copies(
    src_files: Seq<FileEntry>,
    dst_files: Seq<FileEntry>,
    src_root: Seq<char>,
    dst_root: Seq<char>,
    opts: CopyOptions,
)
    ensures
        planned_copies(src_files, dst_files, src_root, dst_root, opts).len() == 0 <==> forall|
            i: int,
        |
            0 <= i < src_files.len() ==> !(needs_copy(
                #[trigger] src_files[i],
                dst_files,
                src_root,
                dst_root,
            ) && opts.admits(src_files[i])),
    decreases src_files.len(),
{
    if src_files.len() > 0 {
        let earlier = src_files.drop_last();
        lemma_no_copies(earlier, dst_files, src_root, dst_root, opts);
        let last = src_files.last();
        if planned_copies(src_files, dst_files, src_root, dst_root, opts).len() == 0 {
            assert forall|i: int| 0 <= i < src_files.len() implies !(needs_copy(
                #[trigger] src_files[i],
                dst_files,
                src_root,
                dst_root,
            ) && opts.admits(src_files[i])) by {
                if i < earlier.len() {
                    assert(earlier[i] == src_files[i]);
                }
            }
        } else {
            if needs_copy(last, dst_files, src_root, dst_root) && opts.admits(last) {
                assert(src_files[src_files.len() - 1] == last);
            } else {
                let i = choose|i: int|
                    0 <= i < earlier.len() && needs_copy(
                        #[trigger] earlier[i],
                        dst_files,
                        src_root,
                        dst_root,
                    ) && opts.admits(earlier[i]);
                assert(src_files[i] == earlier[i]);
            }
        }
    }
}

/// A path is deleted exactly when it is that of a stale destination entry.
pub proof fn lemma_deletes_are_the_stale(
    src_files: Seq<FileEntry>,
    dst_files: Seq<FileEntry>,
    src_root: Seq<char>,
    dst_root: Seq<char>,
    path: Seq<char>,
)
    ensures
        planned_deletes(src_files, dst_files, src_root, dst_root).contains(path) <==> exists|
            j: int,
        |
            0 <= j < dst_files.len() && is_stale(
                #[trigger] dst_files[j],
                src_files,
                src_root,
                dst_root,
            ) && dst_files[j].path == path,
    decreases dst_files.len(),
{
    let deletes = planned_deletes(src_files, dst_files, src_root, dst_root);
    if dst_files.len() > 0 {
        let earlier_files = dst_files.drop_last();
        let earlier = planned_deletes(src_files, earlier_files, src_root, dst_root);
        let last = dst_files.last();
        lemma_deletes_are_the_stale(src_files, earlier_files, src_root, dst_root, path);
        if deletes.contains(path) {
            let at = choose|at: int| 0 <= at < deletes.len() && deletes[at] == path;
            if at < earlier.len() {
                assert(earlier[at] == path);
                assert(earlier.contains(path));
                let j = choose|j: int|
                    0 <= j < earlier_files.len() && is_stale(
                        #[trigger] earlier_files[j],
                        src_files,
                        src_root,
                        dst_root,
                    ) && earlier_files[j].path == path;
                assert(dst_files[j] == earlier_files[j]);
            } else {
                assert(dst_files[dst_files.len() - 1] == last);
            }
        }
        if exists|j: int|
            0 <= j < dst_files.len() && is_stale(
                #[trigger] dst_files[j],
                src_files,
                src_root,
                dst_root,
            ) && dst_files[j].path == path {
            let j = choose|j: int|
                0 <= j < dst_files.len() && is_stale(
                    #[trigger] dst_files[j],
                    src_files,
                    src_root,
                    dst_root,
                ) && dst_files[j].path == path;
            if j < earlier_files.len() {
                assert(earlier_files[j] == dst_files[j]);
                assert(earlier.contains(path));
                let at = choose|at: int| 0 <= at < earlier.len() && earlier[at] == path;
                assert(deletes[at] == path);
            } else {
                assert(deletes[deletes.len() - 1] == path);
            }
        }
    }
}

/// A planned copy is that of a source entry that needs copying and that the
/// options admit.
pub proof fn lemma_copies_are_the_needed(
    src_files: Seq<FileEntry>,
    dst_files: Seq<FileEntry>,
    src_root: Seq<char>,
    dst_root: Seq<char>,
    opts: CopyOptions,
    step: CopyStep,
)
    requires
        planned_copies(src_files, dst_files, src_root, dst_root, opts).contains(step),
    ensures
        exists|i: int|
            0 <= i < src_files.len() && needs_copy(
                #[trigger] src_files[i],
                dst_files,
                src_root,
                dst_root,
            ) && opts.admits(src_files[i]) && copy_step(src_files[i], src_root, dst_root) == step,
    decreases src_files.len(),
{
    let copies = planned_copies(src_files, dst_files, src_root, dst_root, opts);
    let at = choose|at: int| 0 <= at < copies.len() && copies[at] == step;
    let shorter = src_files.drop_last();
    let earlier = planned_copies(shorter, dst_files, src_root, dst_root, opts);
    if at < earlier.len() {
        assert(earlier[at] == step);
        lemma_copies_are_the_needed(shorter, dst_files, src_root, dst_root, opts, step);
        let i = choose|i: int|
            0 <= i < shorter.len() && needs_copy(
                #[trigger] shorter[i],
                dst_files,
                src_root,
                dst_root,
            ) && opts.admits(shorter[i]) && copy_step(shorter[i], src_root, dst_root) == step;
        assert(src_files[i] == shorter[i]);
    } else {
        assert(src_files[src_files.len() - 1] == src_files.last());
    }
}

/// A file that both sides hold in the same state is left alone: its path is
/// not among the deletions, and no copy is written to its place.
///
/// The file is the source entry at `at_src` and the destination entry at
/// `at_dst`, at the same place below their roots, of the same size, time and
/// kind. No other source entry is listed for that place, and no earlier
/// destination entry.
pub proof fn lemma_unchanged_file_is_left_alone(
    src_files: Seq<FileEntry>,
    dst_files: Seq<FileEntry>,
    src_root: Seq<char>,
    dst_root: Seq<char>,
    opts: CopyOptions,
    at_src: int,
    at_dst: int,
)
    requires
        0 <= at_src < src_files.len(),
        0 <= at_dst < dst_files.len(),
        relative_to(dst_files[at_dst].path, dst_root) == relative_to(
            src_files[at_src].path,
            src_root,
        ),
        !differs(src_files[at_src], dst_files[at_dst]),
        forall|i: int|
            0 <= i < src_files.len() && i != at_src ==> relative_to(
                (#[trigger] src_files[i]).path,
                src_root,
            ) != relative_to(src_files[at_src].path, src_root),
        forall|j: int|
            0 <= j < at_dst ==> relative_to((#[trigger] dst_files[j]).path, dst_root)
                != relative_to(src_files[at_src].path, src_root),
    ensures
        !planned_deletes(src_files, dst_files, src_root, dst_root).contains(
            dst_files[at_dst].path,
        ),
        forall|k: int|
            0 <= k < planned_copies(src_files, dst_files, src_root, dst_root, opts).len() ==> (
            #[trigger] planned_copies(src_files, dst_files, src_root, dst_root, opts)[k]).dst
                != join_under(dst_root, relative_to(src_files[at_src].path, src_root)),
{
    let rel = relative_to(src_files[at_src].path, src_root);
    let copies = planned_copies(src_files, dst_files, src_root, dst_root, opts);
    lemma_counterpart_found(src_files, src_root, rel, at_src);
    lemma_counterpart_found(dst_files, dst_root, rel, at_dst);
    lemma_deletes_are_the_stale(src_files, dst_files, src_root, dst_root, dst_files[at_dst].path);
    assert forall|k: int| 0 <= k < copies.len() implies (#[trigger] copies[k]).dst != join_under(
        dst_root,
        rel,
    ) by {
        let step = copies[k];
        lemma_copies_are_the_needed(src_files, dst_files, src_root, dst_root, opts, step);
        let i = choose|i: int|
            0 <= i < src_files.len() && needs_copy(
                #[trigger] src_files[i],
                dst_files,
                src_root,
                dst_root,
            ) && opts.admits(src_files[i]) && copy_step(src_files[i], src_root, dst_root) == step;
        if step.dst == join_under(dst_root, rel) {
            lemma_relative_of_joined(dst_root, src_files[i].path, src_root);
            lemma_relative_of_joined(dst_root, src_files[at_src].path, src_root);
            assert(i == at_src);
        }
    }
}

/// Nothing is deleted exactly when no destination entry is stale.
pub proof fn lemma_no_deletes(
    src_files: Seq<FileEntry>,
    dst_files: Seq<FileEntry>,
    src_root: Seq<char>,
    dst_root: Seq<char>,
)
    ensures
        planned_deletes(src_files, dst_files, src_root, dst_root).len() == 0 <==> forall|j: int|
            0 <= j < dst_files.len() ==> !is_stale(
                #[trigger] dst_files[j],
                src_files,
                src_root,
                dst_root,
            ),
    decreases dst_files.len(),
{
    if dst_files.len() > 0 {
        let earlier = dst_files.drop_last();
        lemma_no_deletes(src_files, earlier, src_root, dst_root);
        let last = dst_files.last();
        if planned_deletes(src_files, dst_files, src_root, dst_root).len() == 0 {
            assert forall|j: int| 0 <= j < dst_files.len() implies !is_stale(
                #[trigger] dst_files[j],
                src_files,
                src_root,
                dst_root,
            ) by {
                if j < earlier.len() {
                    assert(earlier[j] == dst_files[j]);
                }
            }
        } else {
            if is_stale(last, src_files, src_root, dst_root) {
                assert(dst_files[dst_files.len() - 1] == last);
            } else {
                let j = choose|j: int|
                    0 <= j < earlier.len() && is_stale(
                        #[trigger] earlier[j],
                        src_files,
                        src_root,
                        dst_root,
                    );
                assert(dst_files[j] == earlier[j]);
            }
        }
    }
}

/// The destination mirrors the source: every source file has its counterpart
/// there, of the same size, modification time and kind, and every file there
/// has a counterpart in the source.
pub open spec fn mirrors(
    src_files: Seq<FileEntry>,
    dst_files: Seq<FileEntry>,
    src_root: Seq<char>,
    dst_root: Seq<char>,
) -> bool {
    &&& forall|i: int|
        0 <= i < src_files.len() && !(#[trigger] src_files[i]).is_dir ==> (counterpart(
            dst_files,
            dst_root,
            relative_to(src_files[i].path, src_root),
        ) matches Some(dst) && !differs(src_files[i], dst))
    &&& forall|j: int|
        0 <= j < dst_files.len() && !(#[trigger] dst_files[j]).is_dir ==> counterpart(
            src_files,
            src_root,
            relative_to(dst_files[j].path, dst_root),
        ) is Some
}

/// A one-way synchronization of a destination that mirrors the source has
/// nothing to do, whatever the options. Without filters the converse holds
/// too: the work is the least that leads to a mirror, and it is empty only
/// where the destination is one already.
pub proof fn lemma_idle_when_mirrored(
    src_files: Seq<FileEntry>,
    dst_files: Seq<FileEntry>,
    src_root: Seq<char>,
    dst_root: Seq<char>,
    opts: CopyOptions,
)
    ensures
        mirrors(src_files, dst_files, src_root, dst_root) ==> {
            &&& one_way_work(src_files, dst_files, src_root, dst_root, opts).copies.len() == 0
            &&& one_way_work(src_files, dst_files, src_root, dst_root, opts).deletes.len() == 0
        },
        opts.filters is None && one_way_work(
            src_files,
            dst_files,
            src_root,
            dst_root,
            opts,
        ).copies.len() == 0 && one_way_work(
            src_files,
            dst_files,
            src_root,
            dst_root,
            opts,
        ).deletes.len() == 0 ==> mirrors(src_files, dst_files, src_root, dst_root),
{
    lemma_no_copies(src_files, dst_files, src_root, dst_root, opts);
    lemma_no_deletes(src_files, dst_files, src_root, dst_root);
    if mirrors(src_files, dst_files, src_root, dst_root) {
        assert forall|i: int| 0 <= i < src_files.len() implies !(needs_copy(
            #[trigger] src_files[i],
            dst_files,
            src_root,
            dst_root,
        ) && opts.admits(src_files[i])) by {}
        assert forall|j: int| 0 <= j < dst_files.len() implies !is_stale(
            #[trigger] dst_files[j],
            src_files,
            src_root,
            dst_root,
        ) by {}
    }
    let work = one_way_work(src_files, dst_files, src_root, dst_root, opts);
    if opts.filters is None && work.copies.len() == 0 && work.deletes.len() == 0 {
        assert forall|i: int|
            0 <= i < src_files.len() && !(#[trigger] src_files[i]).is_dir implies (counterpart(
            dst_files,
            dst_root,
            relative_to(src_files[i].path, src_root),
        ) matches Some(dst) && !differs(src_files[i], dst)) by {
            assert(!(needs_copy(src_files[i], dst_files, src_root, dst_root) && opts.admits(
                src_files[i],
            )));
        }
        assert forall|j: int|
            0 <= j < dst_files.len() && !(#[trigger] dst_files[j]).is_dir implies counterpart(
            src_files,
            src_root,
            relative_to(dst_files[j].path, dst_root),
        ) is Some by {
            assert(!is_stale(dst_files[j], src_files, src_root, dst_root));
        }
    }
}

/// Carrying out a plan without work succeeds and counts nothing, whatever
/// the backends.
pub proof fn lemma_no_work_counts_nothing<S: Backend + ?Sized, D: Backend + ?Sized>(
    src_backend: &S,
    dst_backend: &D,
    opts: CopyOptions,
    work: SyncWork,
    done: Result<SyncStats, BackendError>,
)
    requires
        applied(src_backend, dst_backend, opts, work, done),
        work.copies.len() == 0,
        work.deletes.len() == 0,
    ensures
        done matches Ok(stats) && stats.files_copied == 0 && stats.bytes_copied == 0
            && stats.files_deleted == 0,
{
    if let Ok(stats) = done {
        let bytes = choose|bytes: Seq<u64>| #[trigger]
            copies_made(src_backend, opts, work.copies, bytes) && stats.bytes_copied
                == total_bytes(bytes);
        assert(bytes.len() == 0);
    }
}

/// A one-way synchronization of a destination that mirrors the source does
/// nothing: where the source can be listed, and the destination mirrors the
/// source in whatever the two backends list, the synchronization succeeds
/// with all counters at zero.
pub proof fn lemma_sync_of_a_mirror_is_idle<S: Backend + ?Sized, D: Backend + ?Sized>(
    src_backend: &S,
    dst_backend: &D,
    opts: CopyOptions,
    src_path: Seq<char>,
    dst_path: Seq<char>,
    done: Result<SyncStats, BackendError>,
)
    requires
        synced(src_backend, dst_backend, opts, SyncMode::OneWay, src_path, dst_path, done),
        forall|src_listing: Result<Vec<FileInfo>, BackendError>| #[trigger]
            listed(src_backend, src_path, src_listing) ==> src_listing is Ok,
        forall|src_files: Vec<FileInfo>, dst_listing: Result<Vec<FileInfo>, BackendError>|
            #![trigger
                listed(src_backend, src_path, Ok::<Vec<FileInfo>, BackendError>(src_files)),
                listed(dst_backend, dst_path, dst_listing),
            ]
            listed(src_backend, src_path, Ok::<Vec<FileInfo>, BackendError>(src_files)) && listed(
                dst_backend,
                dst_path,
                dst_listing,
            ) ==> mirrors(
                entries(src_files@),
                entries(listed_or_nothing(dst_listing)),
                src_path,
                dst_path,
            ),
    ensures
        done matches Ok(stats) && stats.files_copied == 0 && stats.bytes_copied == 0
            && stats.files_deleted == 0,
{
    let outcome = choose|outcome: Result<SyncPlan, BackendError>| #[trigger]
        planned(src_backend, dst_backend, opts, SyncMode::OneWay, src_path, dst_path, outcome)
            && match outcome {
            Err(e) => done == Err::<SyncStats, BackendError>(e),
            Ok(plan) => applied(src_backend, dst_backend, opts, plan@, done),
        };
    let src_listing = choose|src_listing: Result<Vec<FileInfo>, BackendError>| #[trigger]
        listed(src_backend, src_path, src_listing) && match src_listing {
            Err(e) => outcome == Err::<SyncPlan, BackendError>(e),
            Ok(src_files) => exists|dst_listing: Result<Vec<FileInfo>, BackendError>| #[trigger]
                listed(dst_backend, dst_path, dst_listing) && (outcome matches Ok(plan) && plan@
                    == one_way_work(
                    entries(src_files@),
                    entries(listed_or_nothing(dst_listing)),
                    src_path,
                    dst_path,
                    opts,
                )),
        };
    let src_files = src_listing->Ok_0;
    let dst_listing = choose|dst_listing: Result<Vec<FileInfo>, BackendError>| #[trigger]
        listed(dst_backend, dst_path, dst_listing) && (outcome matches Ok(plan) && plan@
            == one_way_work(
            entries(src_files@),
            entries(listed_or_nothing(dst_listing)),
            src_path,
            dst_path,
            opts,
        ));
    let plan = outcome->Ok_0;
    lemma_idle_when_mirrored(
        entries(src_files@),
        entries(listed_or_nothing(dst_listing)),
        src_path,
        dst_path,
        opts,
    );
    lemma_no_work_counts_nothing(src_backend, dst_backend, opts, plan@, done);
}

/// What a completed synchronization leaves at the destination where the
/// backend carries size and modification time over: each source entry at its
/// place below the destination root.
pub open spec fn image(src_files: Seq<FileEntry>, src_root: Seq<char>, dst_root: Seq<char>) -> Seq<
    FileEntry,
> {
    Seq::new(
        src_files.len(),
        |i: int|
            FileEntry {
                path: join_under(dst_root, relative_to(src_files[i].path, src_root)),
                ..src_files[i]
            },
    )
}

/// No two entries of `files` have the same path below `root`.
pub open spec fn distinct_below(files: Seq<FileEntry>, root: Seq<char>) -> bool {
    forall|i: int, j: int|
        0 <= i < files.len() && 0 <= j < files.len() && i != j ==> relative_to(
            (#[trigger] files[i]).path,
            root,
        ) != relative_to((#[trigger] files[j]).path, root)
}

/// Synchronizing twice in a row does nothing the second time: after a
/// completed run the destination holds the image of the source, and against
/// that image there is nothing to copy and nothing to delete. The source
/// listing must not name one relative path twice.
pub proof fn lemma_second_run_is_idle(
    src_files: Seq<FileEntry>,
    src_root: Seq<char>,
    dst_root: Seq<char>,
    opts: CopyOptions,
)
    requires
        distinct_below(src_files, src_root),
    ensures
        mirrors(src_files, image(src_files, src_root, dst_root), src_root, dst_root),
        one_way_work(
            src_files,
            image(src_files, src_root, dst_root),
            src_root,
            dst_root,
            opts,
        ).copies.len() == 0,
        one_way_work(
            src_files,
            image(src_files, src_root, dst_root),
            src_root,
            dst_root,
            opts,
        ).deletes.len() == 0,
{
    let dst_files = image(src_files, src_root, dst_root);
    assert forall|k: int| 0 <= k < src_files.len() implies relative_to(
        (#[trigger] dst_files[k]).path,
        dst_root,
    ) == relative_to(src_files[k].path, src_root) by {
        lemma_relative_of_joined(dst_root, src_files[k].path, src_root);
    }
    assert forall|i: int|
        0 <= i < src_files.len() && !(#[trigger] src_files[i]).is_dir implies (counterpart(
        dst_files,
        dst_root,
        relative_to(src_files[i].path, src_root),
    ) matches Some(dst) && !differs(src_files[i], dst)) by {
        let rel = relative_to(src_files[i].path, src_root);
        assert forall|j: int| 0 <= j < i implies relative_to((#[trigger] dst_files[j]).path, dst_root)
            != rel by {
            assert(relative_to(src_files[j].path, src_root) != relative_to(
                src_files[i].path,
                src_root,
            ));
        }
        lemma_counterpart_found(dst_files, dst_root, rel, i);
    }
    assert forall|j: int|
        0 <= j < dst_files.len() && !(#[trigger] dst_files[j]).is_dir implies counterpart(
        src_files,
        src_root,
        relative_to(dst_files[j].path, dst_root),
    ) is Some by {
        let rel = relative_to(dst_files[j].path, dst_root);
        assert forall|k: int| 0 <= k < j implies relative_to((#[trigger] src_files[k]).path, src_root)
            != rel by {
            assert(relative_to(src_files[k].path, src_root) != relative_to(
                src_files[j].path,
                src_root,
            ));
        }
        lemma_counterpart_found(src_files, src_root, rel, j);
    }
    lemma_idle_when_mirrored(src_files, dst_files, src_root, dst_root, opts);
}

/// A relative path that was put under a root is found again below that root.
pub proof fn lemma_relative_of_joined(root: Seq<char>, path: Seq<char>, from: Seq<char>)
    ensures
        relative_to(join_under(root, relative_to(path, from)), root) == relative_to(path, from),
{
    let rel = relative_to(path, from);
    let joined = join_under(root, rel);
    lemma_trim_leading_done(strip_root(path, from), '/');
    assert(trim_leading(rel, '/') == rel);
    if root.len() > 0 && root.last() == '/' {
        assert(joined.subrange(0, root.len() as int) =~= root);
        assert(joined.skip(root.len() as int) =~= rel);
    } else {
        assert(joined.subrange(0, root.len() as int) =~= root);
        let tail = seq!['/'] + rel;
        assert(joined.skip(root.len() as int) =~= tail);
        assert(tail.drop_first() =~= rel);
    }
}

/// The step puts its file at the place below `dst_root` that the file has
/// below `src_root`.
pub open spec fn leads_below(step: CopyStep, src_root: Seq<char>, dst_root: Seq<char>) -> bool {
    step.dst == join_under(dst_root, relative_to(step.src, src_root))
}

/// Every planned copy leads from a path to the place below the destination
/// root that the path has below the source root.
pub proof fn lemma_copies_lead_below_root(
    src_files: Seq<FileEntry>,
    dst_files: Seq<FileEntry>,
    src_root: Seq<char>,
    dst_root: Seq<char>,
    opts: CopyOptions,
)
    ensures
        forall|i: int|
            0 <= i < planned_copies(src_files, dst_files, src_root, dst_root, opts).len()
                ==> leads_below(
                #[trigger] planned_copies(src_files, dst_files, src_root, dst_root, opts)[i],
                src_root,
                dst_root,
            ),
    decreases src_files.len(),
{
    let copies = planned_copies(src_files, dst_files, src_root, dst_root, opts);
    if src_files.len() > 0 {
        let earlier = planned_copies(src_files.drop_last(), dst_files, src_root, dst_root, opts);
        lemma_copies_lead_below_root(src_files.drop_last(), dst_files, src_root, dst_root, opts);
        assert forall|i: int| 0 <= i < copies.len() implies leads_below(
            #[trigger] copies[i],
            src_root,
            dst_root,
        ) by {
            if i < earlier.len() {
                assert(copies[i] == earlier[i]);
            }
        }
    }
}

} // verus!
