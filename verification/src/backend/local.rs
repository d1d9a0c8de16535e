use crate::backend::error::BackendError;
use crate::backend::traits::{CopyOptions, FileEntry, FileInfo};
use vstd::prelude::*;
use vstd::string::*;

verus! {

/// What the file system holds at a path.
#[derive(Debug, Clone, Copy, PartialEq, Eq, Structural)]
pub enum PathKind {
    /// Nothing.
    Missing,
    /// A regular file.
    File,
    /// A directory.
    Directory,
    /// Something else.
    Other,
}

/// What listing a path amounts to.
#[derive(Debug, Clone, Copy, PartialEq, Eq, Structural)]
pub enum ListingShape {
    /// The path is a file: the listing is its one entry.
    Single,
    /// The path is a directory: the listing holds its immediate children.
    Children,
    /// The path is neither: the listing is empty.
    Nothing,
}

/// How a path is removed.
#[derive(Debug, Clone, Copy, PartialEq, Eq, Structural)]
pub enum DeleteAction {
    RemoveFile,
    /// Remove the directory and everything below it.
    RemoveTree,
}

/// The rules of the local file system backend. Reading and writing is left
/// to the caller, who asks here what to do with what was found.
#[derive(Debug, Clone, Copy)]
pub struct LocalBackend;

impl LocalBackend {
    pub fn new() -> Self {
        Self
    }

    /// Short name of the location kind.
    pub fn name(&self) -> (name: &str)
        ensures
            name@ == "local"@,
    {
        "local"
    }

    /// A failed read or write at `path`, with what was attempted in front.
    pub fn io_failure(&self, attempted: &str, path: &str, cause: String) -> (failure: BackendError)
        ensures
            failure matches BackendError::IoError { message, error } && message@ == attempted@
                + ": "@ + path@ && error@ == cause@,
    {
        let mut message = String::from_str(attempted);
        message.append(": ");
        message.append(path);
        BackendError::IoError { message, error: cause }
    }

    /// Whether `src` can be the source of a file copy: it has to be there and
    /// be a regular file.
    pub fn check_file_source(&self, src: &str, kind: PathKind) -> (checked: Result<(), BackendError>)
        ensures
            match kind {
                PathKind::File => checked is Ok,
                PathKind::Missing => checked matches Err(BackendError::NotFound(path)) && path@
                    == src@,
                _ => checked matches Err(BackendError::InvalidPath(why)) && why@
                    == "Source is not a file: "@ + src@,
            },
    {
        match kind {
            PathKind::File => Ok(()),
            PathKind::Missing => Err(BackendError::NotFound(String::from_str(src))),
            _ => {
                let mut why = String::from_str("Source is not a file: ");
                why.append(src);
                Err(BackendError::InvalidPath(why))
            },
        }
    }

    /// Whether `src` can be the source of a directory copy under `opts`: the
    /// copy has to be recursive, and `src` has to be there and be a directory.
    pub fn check_directory_source(&self, src: &str, kind: PathKind, opts: &CopyOptions) -> (checked:
        Result<(), BackendError>)
        ensures
            !opts.recursive ==> (checked matches Err(BackendError::UnsupportedOperation(why))
                && why@ == "Recursive copy requires -r flag"@),
            opts.recursive ==> match kind {
                PathKind::Directory => checked is Ok,
                PathKind::Missing => checked matches Err(BackendError::NotFound(path)) && path@
                    == src@,
                _ => checked matches Err(BackendError::InvalidPath(why)) && why@
                    == "Source is not a directory: "@ + src@,
            },
    {
        if !opts.recursive {
            return Err(
                BackendError::UnsupportedOperation(
                    String::from_str("Recursive copy requires -r flag"),
                ),
            );
        }
        match kind {
            PathKind::Directory => Ok(()),
            PathKind::Missing => Err(BackendError::NotFound(String::from_str(src))),
            _ => {
                let mut why = String::from_str("Source is not a directory: ");
                why.append(src);
                Err(BackendError::InvalidPath(why))
            },
        }
    }

    /// What listing `path` amounts to; a path that is not there cannot be
    /// listed.
    pub fn listing_shape(&self, path: &str, kind: PathKind) -> (shape: Result<
        ListingShape,
        BackendError,
    >)
        ensures
            match kind {
                PathKind::Missing => shape matches Err(BackendError::NotFound(missing)) && missing@
                    == path@,
                PathKind::File => shape == Ok::<ListingShape, BackendError>(ListingShape::Single),
                PathKind::Directory => shape == Ok::<ListingShape, BackendError>(
                    ListingShape::Children,
                ),
                PathKind::Other => shape == Ok::<ListingShape, BackendError>(ListingShape::Nothing),
            },
    {
        match kind {
            PathKind::Missing => Err(BackendError::NotFound(String::from_str(path))),
            PathKind::File => Ok(ListingShape::Single),
            PathKind::Directory => Ok(ListingShape::Children),
            PathKind::Other => Ok(ListingShape::Nothing),
        }
    }

    /// The listing entry for what stands at `path`. Only a regular file has a
    /// size; anything else is listed with size 0.
    pub fn describe(&self, path: String, kind: PathKind, len: u64, modified: Option<u64>) -> (entry:
        FileInfo)
        ensures
            entry@ == (FileEntry {
                path: path@,
                size: if kind == PathKind::File {
                    len
                } else {
                    0
                },
                is_dir: kind == PathKind::Directory,
                modified,
            }),
    {
        let size = match kind {
            PathKind::File => len,
            _ => 0,
        };
        let is_dir = match kind {
            PathKind::Directory => true,
            _ => false,
        };
        FileInfo { path, size, is_dir, modified }
    }

    /// How `path` is removed; a path that is not there cannot be removed, nor
    /// one that is neither file nor directory.
    pub fn plan_delete(&self, path: &str, kind: PathKind) -> (planned: Result<
        DeleteAction,
        BackendError,
    >)
        ensures
            match kind {
                PathKind::Missing => planned matches Err(BackendError::NotFound(missing))
                    && missing@ == path@,
                PathKind::File => planned == Ok::<DeleteAction, BackendError>(
                    DeleteAction::RemoveFile,
                ),
                PathKind::Directory => planned == Ok::<DeleteAction, BackendError>(
                    DeleteAction::RemoveTree,
                ),
                PathKind::Other => planned matches Err(BackendError::InvalidPath(why)) && why@
                    == "Path is neither file nor directory: "@ + path@,
            },
    {
        match kind {
            PathKind::Missing => Err(BackendError::NotFound(String::from_str(path))),
            PathKind::File => Ok(DeleteAction::RemoveFile),
            PathKind::Directory => Ok(DeleteAction::RemoveTree),
            PathKind::Other => {
                let mut why = String::from_str("Path is neither file nor directory: ");
                why.append(path);
                Err(BackendError::InvalidPath(why))
            },
        }
    }

    /// Whether the content at `path` can be digested: only a regular file
    /// can, and anything else counts as not found.
    pub fn check_checksum_source(&self, path: &str, kind: PathKind) -> (checked: Result<
        (),
        BackendError,
    >)
        ensures
            kind == PathKind::File ==> checked is Ok,
            kind != PathKind::File ==> (checked matches Err(BackendError::NotFound(missing))
                && missing@ == path@),
    {
        match kind {
            PathKind::File => Ok(()),
            _ => Err(BackendError::NotFound(String::from_str(path))),
        }
    }
}

impl Default for LocalBackend {
    fn default() -> Self {
        Self::new()
    }
}

} // verus!
