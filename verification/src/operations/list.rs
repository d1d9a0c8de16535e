use crate::backend::error::BackendError;
use crate::backend::traits::{
    ask_list, ask_path_exists, entries, listed, looked_for, presence, Backend, FileEntry,
    FileInfo,
};
use crate::backend::walk::regular_files;
use crate::operations::sync::paths;
use vstd::prelude::*;

verus! {

/// Lists through one backend.
pub struct ListOperation {
    /// The backend that is asked.
    pub backend: Box<dyn Backend>,
}

/// The paths of the directories among `listing`, in order.
pub open spec fn directory_paths(listing: Seq<FileEntry>) -> Seq<Seq<char>>
    decreases listing.len(),
{
    if listing.len() == 0 {
        Seq::empty()
    } else {
        let earlier = directory_paths(listing.drop_last());
        if listing.last().is_dir {
            earlier.push(listing.last().path)
        } else {
            earlier
        }
    }
}

/// There are no more directories in a listing than entries.
pub proof fn lemma_directory_paths_len(listing: Seq<FileEntry>)
    ensures
        directory_paths(listing).len() <= listing.len(),
    decreases listing.len(),
{
    if listing.len() > 0 {
        lemma_directory_paths_len(listing.drop_last());
    }
}

/// Puts the entries of one listing behind `all_files`, in order, and the
/// paths of the directories among them behind `to_process`.
pub fn take_in_listing(
    files: &Vec<FileInfo>,
    all_files: &mut Vec<FileInfo>,
    to_process: &mut Vec<String>,
)
    ensures
        entries(final(all_files)@) == entries(old(all_files)@) + entries(files@),
        paths(final(to_process)@) == paths(old(to_process)@) + directory_paths(entries(files@)),
{
    let ghost listing = entries(files@);
    let mut i: usize = 0;
    while i < files.len()
        invariant
            i <= files@.len(),
            listing == entries(files@),
            entries(all_files@) == entries(old(all_files)@) + listing.take(i as int),
            paths(to_process@) == paths(old(to_process)@) + directory_paths(listing.take(i as int)),
        decreases files@.len() - i,
    {
        let file = &files[i];
        proof {
            assert(listing.take(i + 1).drop_last() == listing.take(i as int));
            assert(listing.take(i + 1).last() == file@);
            assert(listing.take(i + 1) == listing.take(i as int).push(file@));
        }
        if file.is_dir {
            let path = file.path.clone();
            assert(paths(to_process@.push(path)) == paths(to_process@).push(path@));
            to_process.push(path);
        }
        let entry = file.clone();
        assert(entries(all_files@.push(entry)) == entries(all_files@).push(entry@));
        all_files.push(entry);
        i += 1;
    }
    assert(listing.take(files@.len() as int) == listing);
}

/// Counts the entries of `files` that are not directories.
pub fn count_regular_files(files: &Vec<FileInfo>) -> (count: usize)
    ensures
        count == regular_files(entries(files@)),
{
    let ghost listing = entries(files@);
    let mut count: usize = 0;
    let mut i: usize = 0;
    while i < files.len()
        invariant
            i <= files@.len(),
            listing == entries(files@),
            count <= i,
            count == regular_files(listing.take(i as int)),
        decreases files@.len() - i,
    {
        proof {
            assert(listing.take(i + 1).drop_last() == listing.take(i as int));
            assert(listing.take(i + 1).last() == files@[i as int]@);
        }
        if !files[i].is_dir {
            count += 1;
        }
        i += 1;
    }
    assert(listing.take(files@.len() as int) == listing);
    count
}

/// The directories that wait to be listed after the listings `answers` were
/// taken in, one after the other, beginning at `root`. The directory listed
/// next is the last one; what a listing holds goes behind the others.
pub open spec fn waiting(root: Seq<char>, answers: Seq<Vec<FileInfo>>) -> Seq<Seq<char>>
    decreases answers.len(),
{
    if answers.len() == 0 {
        seq![root]
    } else {
        waiting(root, answers.drop_last()).drop_last() + directory_paths(
            entries(answers.last()@),
        )
    }
}

/// The entries of the listings `answers`, one listing after the other.
pub open spec fn gathered(answers: Seq<Vec<FileInfo>>) -> Seq<FileEntry>
    decreases answers.len(),
{
    if answers.len() == 0 {
        Seq::empty()
    } else {
        gathered(answers.drop_last()) + entries(answers.last()@)
    }
}

/// Each of `answers` is what the backend listed for the directory that was
/// next in turn when the listings before it had been taken in.
pub open spec fn walked<B: Backend + ?Sized>(
    backend: &B,
    root: Seq<char>,
    answers: Seq<Vec<FileInfo>>,
) -> bool {
    forall|k: int|
        0 <= k < answers.len() ==> {
            let ahead = waiting(root, answers.take(k));
            ahead.len() > 0 && listed(
                backend,
                ahead.last(),
                Ok::<Vec<FileInfo>, BackendError>(#[trigger] answers[k]),
            )
        }
}

/// `outcome` is what listing `root` and everything below it came to.
///
/// A run that succeeded listed directory after directory until none was
/// waiting, and holds the entries of all listings in the order they were
/// taken. A run that failed ends with the failure that the backend gave for
/// the directory next in turn.
pub open spec fn listed_below<B: Backend + ?Sized>(
    backend: &B,
    root: Seq<char>,
    outcome: Result<Vec<FileInfo>, BackendError>,
) -> bool {
    exists|answers: Seq<Vec<FileInfo>>| #[trigger]
        walked(backend, root, answers) && match outcome {
            Ok(files) => waiting(root, answers).len() == 0 && entries(files@) == gathered(
                answers,
            ),
            Err(e) => waiting(root, answers).len() > 0 && listed(
                backend,
                waiting(root, answers).last(),
                Err::<Vec<FileInfo>, BackendError>(e),
            ),
        }
}

/// `counted` is what counting the files at and below `root` came to: the
/// number of entries that are not directories in a full listing, or the
/// failure of that listing.
pub open spec fn counted_below<B: Backend + ?Sized>(
    backend: &B,
    root: Seq<char>,
    counted: Result<usize, BackendError>,
) -> bool {
    match counted {
        Ok(count) => exists|files: Vec<FileInfo>| #[trigger]
            listed_below(backend, root, Ok::<Vec<FileInfo>, BackendError>(files)) && count
                == regular_files(entries(files@)),
        Err(e) => listed_below(backend, root, Err::<Vec<FileInfo>, BackendError>(e)),
    }
}

/// A walk goes on with the listing of the directory that is next in turn.
pub proof fn lemma_walk_goes_on<B: Backend + ?Sized>(
    backend: &B,
    root: Seq<char>,
    answers: Seq<Vec<FileInfo>>,
    files: Vec<FileInfo>,
)
    requires
        walked(backend, root, answers),
        waiting(root, answers).len() > 0,
        listed(backend, waiting(root, answers).last(), Ok::<Vec<FileInfo>, BackendError>(files)),
    ensures
        walked(backend, root, answers.push(files)),
        waiting(root, answers.push(files)) == waiting(root, answers).drop_last()
            + directory_paths(entries(files@)),
        gathered(answers.push(files)) == gathered(answers) + entries(files@),
{
    let longer = answers.push(files);
    assert(longer.drop_last() == answers);
    assert(longer.take(answers.len() as int) == answers);
    assert forall|k: int| 0 <= k < longer.len() implies {
        let ahead = waiting(root, longer.take(k));
        ahead.len() > 0 && listed(
            backend,
            ahead.last(),
            Ok::<Vec<FileInfo>, BackendError>(#[trigger] longer[k]),
        )
    } by {
        if k < answers.len() {
            assert(longer.take(k) == answers.take(k));
            assert(longer[k] == answers[k]);
        }
    }
}

/// Lists `path` and, in turn, every directory that a listing holds. The
/// entries of each listing stay together and in order. The first listing
/// that fails ends the run with its failure.
pub fn list_below<B: Backend + ?Sized>(backend: &B, path: &str) -> (outcome: Result<
    Vec<FileInfo>,
    BackendError,
>)
    ensures
        listed_below(backend, path@, outcome),
{
    let mut all_files: Vec<FileInfo> = Vec::new();
    let mut to_process: Vec<String> = Vec::new();
    to_process.push(path.to_owned());
    let ghost mut answers: Seq<Vec<FileInfo>> = Seq::empty();
    assert(paths(to_process@) =~= waiting(path@, answers));
    assert(entries(all_files@) =~= gathered(answers));
    loop
        invariant
            answers.len() + to_process@.len() <= all_files@.len() + 1,
            walked(backend, path@, answers),
            paths(to_process@) == waiting(path@, answers),
            entries(all_files@) == gathered(answers),
        decreases usize::MAX + 1 - answers.len(),
    {
        let bound = all_files.len();
        let ghost ahead = to_process@;
        let current = match to_process.pop() {
            Some(current) => current,
            None => {
                return Ok(all_files);
            },
        };
        assert(paths(ahead).last() == current@);
        assert(paths(to_process@) =~= paths(ahead).drop_last());
        let files = match ask_list(backend, current.as_str()) {
            Ok(files) => files,
            Err(e) => {
                return Err(e);
            },
        };
        let ghost before = (all_files@, to_process@);
        take_in_listing(&files, &mut all_files, &mut to_process);
        proof {
            lemma_directory_paths_len(entries(files@));
            assert(entries(all_files@).len() == entries(before.0).len() + entries(files@).len());
            assert(paths(to_process@).len() == paths(before.1).len() + directory_paths(
                entries(files@),
            ).len());
            lemma_walk_goes_on(backend, path@, answers, files);
            answers = answers.push(files);
        }
    }
}

/// Counts the files at and below `path`: the entries that are not
/// directories in the listing of `path` and of every directory that a
/// listing holds.
pub fn count_below<B: Backend + ?Sized>(backend: &B, path: &str) -> (counted: Result<
    usize,
    BackendError,
>)
    ensures
        counted_below(backend, path@, counted),
{
    match list_below(backend, path) {
        Ok(files) => Ok(count_regular_files(&files)),
        Err(e) => Err(e),
    }
}

impl ListOperation {
    /// `answer` is what the backend of the operation listed at `path`.
    pub open spec fn lists(
        &self,
        path: Seq<char>,
        answer: Result<Vec<FileInfo>, BackendError>,
    ) -> bool {
        listed::<dyn Backend>(&*self.backend, path, answer)
    }

    /// `outcome` is what listing `path` and everything below it through the
    /// backend of the operation came to; see [`listed_below`].
    pub open spec fn lists_below(
        &self,
        path: Seq<char>,
        outcome: Result<Vec<FileInfo>, BackendError>,
    ) -> bool {
        listed_below::<dyn Backend>(&*self.backend, path, outcome)
    }

    /// `counted` is what counting the files at and below `path` through the
    /// backend of the operation came to; see [`counted_below`].
    pub open spec fn counts(&self, path: Seq<char>, counted: Result<usize, BackendError>) -> bool {
        counted_below::<dyn Backend>(&*self.backend, path, counted)
    }

    /// `found` is what the backend of the operation answered when asked
    /// whether `path` is there, which follows from what it listed at `path`;
    /// see [`presence`].
    pub open spec fn finds(&self, path: Seq<char>, found: Result<bool, BackendError>) -> bool {
        &&& looked_for::<dyn Backend>(&*self.backend, path, found)
        &&& exists|listing: Result<Vec<FileInfo>, BackendError>| #[trigger]
            listed::<dyn Backend>(&*self.backend, path, listing) && found == presence(listing)
    }

    /// An operation that lists through `backend`.
    pub fn new(backend: Box<dyn Backend>) -> (op: Self)
        ensures
            op == (ListOperation { backend }),
    {
        Self { backend }
    }

    /// What the backend lists at `path`.
    pub fn list(&self, path: &str) -> (answer: Result<Vec<FileInfo>, BackendError>)
        ensures
            self.lists(path@, answer),
    {
        ask_list::<dyn Backend>(&*self.backend, path)
    }

    /// Lists `path` and, in turn, every directory that a listing holds. The
    /// entries of each listing stay together and in order. The first listing
    /// that fails ends the run with its failure.
    pub fn list_recursive(&self, path: &str) -> (listed: Result<Vec<FileInfo>, BackendError>)
        ensures
            self.lists_below(path@, listed),
    {
        list_below::<dyn Backend>(&*self.backend, path)
    }

    /// Counts the files at and below `path`: the entries that are not
    /// directories in the listing of `path` and of every directory that a
    /// listing holds.
    pub fn count_files(&self, path: &str) -> (counted: Result<usize, BackendError>)
        ensures
            self.counts(path@, counted),
    {
        count_below::<dyn Backend>(&*self.backend, path)
    }

    /// Whether `path` is there, as the backend judges it.
    pub fn path_exists(&self, path: &str) -> (found: Result<bool, BackendError>)
        ensures
            self.finds(path@, found),
    {
        ask_path_exists::<dyn Backend>(&*self.backend, path)
    }
}

} // verus!
