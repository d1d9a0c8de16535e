use crate::backend::error::BackendError;
use crate::copy::CopyStats;
use crate::filters::FilterChain;
use vstd::prelude::*;

verus! {

/// Digest used to compare a copy with its source.
#[derive(Debug, Clone, Copy, PartialEq, Eq, Structural)]
pub enum ChecksumAlgorithm {
    Md5,
    Sha1,
    Sha256,
}

/// What a listing says of one path.
#[derive(Debug)]
pub struct FileInfo {
    /// Absolute path, or path relative to the endpoint.
    pub path: String,
    /// Size in bytes; 0 for a directory.
    pub size: u64,
    pub is_dir: bool,
    /// Modification time in seconds since the epoch, where known.
    pub modified: Option<u64>,
}

/// The mathematical content of a [`FileInfo`].
pub struct FileEntry {
    pub path: Seq<char>,
    pub size: u64,
    pub is_dir: bool,
    pub modified: Option<u64>,
}

impl View for FileInfo {
    type V = FileEntry;

    open spec fn view(&self) -> FileEntry {
        FileEntry {
            path: self.path@,
            size: self.size,
            is_dir: self.is_dir,
            modified: self.modified,
        }
    }
}

impl Clone for FileInfo {
    fn clone(&self) -> (copy: Self)
        ensures
            copy@ == self@,
    {
        FileInfo {
            path: self.path.clone(),
            size: self.size,
            is_dir: self.is_dir,
            modified: self.modified,
        }
    }
}

/// The entries of a listing, as mathematical values.
pub open spec fn entries(files: Seq<FileInfo>) -> Seq<FileEntry> {
    files.map_values(|f: FileInfo| f@)
}

/// How a copy is to be carried out. Handed to every backend call and never
/// changed while an operation runs.
pub struct CopyOptions {
    pub verbose: bool,
    pub progress: bool,
    /// Read each file into memory whole, then write it out.
    pub use_ram: bool,
    pub recursive: bool,
    /// Options passed on to the secure-copy tool, in order.
    pub ssh_opts: Vec<String>,
    /// Report what would be done without touching the destination.
    pub dry_run: bool,
    /// Entries that do not pass are not transferred.
    pub filters: Option<FilterChain>,
}

impl CopyOptions {
    /// Whether the options let `file` be transferred.
    pub open spec fn admits(&self, file: FileEntry) -> bool {
        match self.filters {
            Some(chain) => chain.accepts(file),
            None => true,
        }
    }

    /// Whether the options ask for a summary, so that counters are kept.
    pub open spec fn wants_summary(&self) -> bool {
        self.verbose || self.progress
    }

    /// Decides whether `file` may be transferred.
    pub fn allows(&self, file: &FileInfo) -> (pass: bool)
        ensures
            pass == self.admits(file@),
    {
        match &self.filters {
            Some(chain) => chain.matches(file),
            None => true,
        }
    }

    /// The same options with `recursive` set.
    pub fn recursively(&self) -> (opts: Self)
        ensures
            opts.recursive,
            opts.verbose == self.verbose,
            opts.progress == self.progress,
            opts.use_ram == self.use_ram,
            opts.dry_run == self.dry_run,
            opts.ssh_opts@ == self.ssh_opts@,
            opts.filters is Some == self.filters is Some,
            forall|file: FileEntry| #[trigger] opts.admits(file) == self.admits(file),
    {
        let mut opts = self.clone();
        let ghost cloned = opts;
        opts.recursive = true;
        assert forall|file: FileEntry| #[trigger] opts.admits(file) == self.admits(file) by {
            assert(opts.admits(file) == cloned.admits(file));
        }
        opts
    }
}

impl Clone for CopyOptions {
    fn clone(&self) -> (copy: Self)
        ensures
            copy.verbose == self.verbose,
            copy.progress == self.progress,
            copy.use_ram == self.use_ram,
            copy.recursive == self.recursive,
            copy.dry_run == self.dry_run,
            copy.ssh_opts@ == self.ssh_opts@,
            copy.filters is Some == self.filters is Some,
            forall|file: FileEntry| #[trigger] copy.admits(file) == self.admits(file),
    {
        let filters = match &self.filters {
            Some(chain) => Some(chain.clone()),
            None => None,
        };
        Self {
            verbose: self.verbose,
            progress: self.progress,
            use_ram: self.use_ram,
            recursive: self.recursive,
            ssh_opts: self.ssh_opts.clone(),
            dry_run: self.dry_run,
            filters,
        }
    }
}

impl Default for CopyOptions {
    fn default() -> (opts: Self)
        ensures
            !opts.verbose,
            !opts.progress,
            !opts.use_ram,
            !opts.recursive,
            !opts.dry_run,
            opts.ssh_opts@.len() == 0,
            opts.filters is None,
    {
        Self {
            verbose: false,
            progress: false,
            use_ram: false,
            recursive: false,
            ssh_opts: Vec::new(),
            dry_run: false,
            filters: None,
        }
    }
}

/// What a listing attempt says of whether the listed path is there: a listing
/// shows that it is, a `NotFound` that it is not, and any other failure stays
/// a failure.
pub open spec fn presence(listing: Result<Vec<FileInfo>, BackendError>) -> Result<
    bool,
    BackendError,
> {
    match listing {
        Ok(_) => Ok(true),
        Err(BackendError::NotFound(_)) => Ok(false),
        Err(e) => Err(e),
    }
}

/// Reads off a listing attempt whether the listed path is there.
pub fn presence_from_listing(listing: Result<Vec<FileInfo>, BackendError>) -> (found: Result<
    bool,
    BackendError,
>)
    ensures
        found == presence(listing),
{
    match listing {
        Ok(_) => Ok(true),
        Err(BackendError::NotFound(_)) => Ok(false),
        Err(e) => Err(e),
    }
}

/// One kind of location: the local file system, or a remote reached through
/// an external tool. Each call stands alone; a backend keeps no state between
/// calls, so one instance may serve several workers at once.
///
/// What the methods return depends on the world outside, so nothing is
/// promised of it here, but for `path_exists`, whose answer follows from a
/// listing. Implementations are expected to behave as the comments say.
pub trait Backend: Send + Sync {
    /// Short name of the location kind.
    fn name(&self) -> &str;

    /// Copies exactly one regular file and returns the number of bytes
    /// written, creating missing parent directories of `dst`. Expected to
    /// fail with `NotFound` where `src` is absent and with `InvalidPath`
    /// where it is not a regular file.
    fn copy_file(&self, src: &str, dst: &str, opts: &CopyOptions) -> Result<u64, BackendError>;

    /// Copies a directory tree, creating the destination root if absent.
    /// Expected to fail with `UnsupportedOperation` unless `opts.recursive`
    /// is set. What was copied before a failure stays in place.
    fn copy_directory(&self, src: &str, dst: &str, opts: &CopyOptions) -> Result<
        CopyStats,
        BackendError,
    >;

    /// For a file, its single entry; for a directory, its immediate children.
    /// Expected to fail with `NotFound` where `path` is absent.
    fn list(&self, path: &str) -> Result<Vec<FileInfo>, BackendError>;

    /// Removes a file, or a directory with everything below it. Expected to
    /// fail with `NotFound` where `path` is absent.
    fn delete(&self, path: &str) -> Result<(), BackendError>;

    /// Digest of the content of a regular file, in lower-case hexadecimal.
    fn checksum(&self, path: &str, algorithm: ChecksumAlgorithm) -> Result<String, BackendError>;

    /// Whether `path` is there, judged by listing it: the answer is what
    /// [`presence`] reads off a listing that the backend gave for `path`.
    fn path_exists(&self, path: &str) -> (found: Result<bool, BackendError>)
        ensures
            exists|asked: &str, listing: Result<Vec<FileInfo>, BackendError>|
                asked@ == path@ && #[trigger] call_ensures(Self::list, (self, asked), listing)
                    && found == presence(listing),
    {
        let listing = self.list(path);
        presence_from_listing(listing)
    }
}

/// `answer` is what the backend gave when it was asked to list `path`.
pub open spec fn listed<B: Backend + ?Sized>(
    backend: &B,
    path: Seq<char>,
    answer: Result<Vec<FileInfo>, BackendError>,
) -> bool {
    exists|asked: &str| asked@ == path && #[trigger] call_ensures(B::list, (backend, asked), answer)
}

/// `answer` is what the backend gave when it was asked to copy the file
/// `src` to `dst` under `opts`.
pub open spec fn file_copied<B: Backend + ?Sized>(
    backend: &B,
    src: Seq<char>,
    dst: Seq<char>,
    opts: CopyOptions,
    answer: Result<u64, BackendError>,
) -> bool {
    exists|from: &str, to: &str|
        from@ == src && to@ == dst && #[trigger] call_ensures(
            B::copy_file,
            (backend, from, to, &opts),
            answer,
        )
}

/// `answer` is what the backend gave when it was asked to copy the directory
/// `src` to `dst` under `opts`.
pub open spec fn directory_copied<B: Backend + ?Sized>(
    backend: &B,
    src: Seq<char>,
    dst: Seq<char>,
    opts: CopyOptions,
    answer: Result<CopyStats, BackendError>,
) -> bool {
    exists|from: &str, to: &str|
        from@ == src && to@ == dst && #[trigger] call_ensures(
            B::copy_directory,
            (backend, from, to, &opts),
            answer,
        )
}

/// `answer` is what the backend gave when it was asked to delete `path`.
pub open spec fn deleted<B: Backend + ?Sized>(
    backend: &B,
    path: Seq<char>,
    answer: Result<(), BackendError>,
) -> bool {
    exists|asked: &str| asked@ == path && #[trigger] call_ensures(B::delete, (backend, asked), answer)
}

/// The backend was asked to delete `path` and did so.
pub open spec fn removed<B: Backend + ?Sized>(backend: &B, path: Seq<char>) -> bool {
    exists|answer: Result<(), BackendError>| answer is Ok && #[trigger] deleted(backend, path, answer)
}

/// `answer` is what the backend gave when it was asked for the digest of
/// `path` under `algorithm`.
pub open spec fn digested<B: Backend + ?Sized>(
    backend: &B,
    path: Seq<char>,
    algorithm: ChecksumAlgorithm,
    answer: Result<String, BackendError>,
) -> bool {
    exists|asked: &str|
        asked@ == path && #[trigger] call_ensures(B::checksum, (backend, asked, algorithm), answer)
}

/// `answer` is what the backend gave when it was asked whether `path` is
/// there.
pub open spec fn looked_for<B: Backend + ?Sized>(
    backend: &B,
    path: Seq<char>,
    answer: Result<bool, BackendError>,
) -> bool {
    exists|asked: &str|
        asked@ == path && #[trigger] call_ensures(B::path_exists, (backend, asked), answer)
}

/// Asks the backend to list `path`.
pub fn ask_list<B: Backend + ?Sized>(backend: &B, path: &str) -> (answer: Result<
    Vec<FileInfo>,
    BackendError,
>)
    ensures
        listed(backend, path@, answer),
{
    backend.list(path)
}

/// Asks the backend to copy the file `src` to `dst`.
pub fn ask_copy_file<B: Backend + ?Sized>(
    backend: &B,
    src: &str,
    dst: &str,
    opts: &CopyOptions,
) -> (answer: Result<u64, BackendError>)
    ensures
        file_copied(backend, src@, dst@, *opts, answer),
{
    backend.copy_file(src, dst, opts)
}

/// Asks the backend to copy the directory `src` to `dst`.
pub fn ask_copy_directory<B: Backend + ?Sized>(
    backend: &B,
    src: &str,
    dst: &str,
    opts: &CopyOptions,
) -> (answer: Result<CopyStats, BackendError>)
    ensures
        directory_copied(backend, src@, dst@, *opts, answer),
{
    backend.copy_directory(src, dst, opts)
}

/// Asks the backend to delete `path`.
pub fn ask_delete<B: Backend + ?Sized>(backend: &B, path: &str) -> (answer: Result<
    (),
    BackendError,
>)
    ensures
        deleted(backend, path@, answer),
{
    backend.delete(path)
}

/// Asks the backend for the digest of `path`.
pub fn ask_checksum<B: Backend + ?Sized>(
    backend: &B,
    path: &str,
    algorithm: ChecksumAlgorithm,
) -> (answer: Result<String, BackendError>)
    ensures
        digested(backend, path@, algorithm, answer),
{
    backend.checksum(path, algorithm)
}

/// Asks the backend whether `path` is there.
pub fn ask_path_exists<B: Backend + ?Sized>(backend: &B, path: &str) -> (answer: Result<
    bool,
    BackendError,
>)
    ensures
        looked_for(backend, path@, answer),
        exists|listing: Result<Vec<FileInfo>, BackendError>|
            listed(backend, path@, listing) && answer == presence(listing),
{
    backend.path_exists(path)
}

} // verus!
