use crate::backend::cli::{described, listed_path, make_listed_path, push_arg};
use crate::backend::error::BackendError;
use crate::backend::traits::{entries, ChecksumAlgorithm, CopyOptions, FileEntry, FileInfo};
use crate::operations::sync::paths;
use crate::protocol::RemotePath;
use crate::scan::{
    copy_range, fields, lines, parse_u64, split_fields, split_lines, string_of, unsigned_number,
    views,
};
use crate::text::{
    contains_sub, find_char, find_sub, starts_with, str_starts_with, str_trim_leading, to_chars,
    trim_leading,
};
use vstd::prelude::*;
use vstd::string::*;

verus! {

/// `text` is the URL of an object: it begins with `s3://`.
pub open spec fn is_object_url(text: Seq<char>) -> bool {
    "s3://"@.is_prefix_of(text)
}

/// Which way a transfer goes.
#[derive(Debug, Clone, Copy, PartialEq, Eq, Structural)]
pub enum Direction {
    /// From the object store to a local path.
    Download,
    /// From a local path to the object store.
    Upload,
}

/// What one line of an object listing describes: with four fields or more, an
/// entry named by the fourth field, which is a directory of size 0 when the
/// first field begins with `PRE`, and otherwise a file of the size that the
/// third field writes (0 where it writes no number). A shorter line
/// describes nothing.
pub open spec fn object_listing_entry(dir: Seq<char>, line: Seq<char>) -> Option<FileEntry> {
    let parts = fields(line);
    if parts.len() >= 4 {
        let is_dir = seq!['P', 'R', 'E'].is_prefix_of(parts[0]);
        Some(
            FileEntry {
                path: listed_path(dir, parts[3]),
                size: if is_dir {
                    0
                } else {
                    match unsigned_number(parts[2]) {
                        Some(size) => size,
                        None => 0,
                    }
                },
                is_dir,
                modified: None,
            },
        )
    } else {
        None
    }
}

/// What stands between the first and the second double quote of `line`, or
/// behind the first where there is no second; nothing where `line` has no
/// double quote.
pub open spec fn quoted(line: Seq<char>) -> Option<Seq<char>> {
    if exists|open: int| first_quote(line, open) {
        let open = choose|open: int| first_quote(line, open);
        let rest = line.skip(open + 1);
        if exists|close: int| first_quote(rest, close) {
            Some(rest.take(choose|close: int| first_quote(rest, close)))
        } else {
            Some(rest)
        }
    } else {
        None
    }
}

/// `at` is where the first double quote of `s` stands.
pub open spec fn first_quote(s: Seq<char>, at: int) -> bool {
    &&& 0 <= at < s.len()
    &&& s[at] == '"'
    &&& forall|j: int| 0 <= j < at ==> s[j] != '"'
}

/// `at` is the first line of `all` that mentions the entity tag.
pub open spec fn first_tag_line(all: Seq<Seq<char>>, at: int) -> bool {
    &&& 0 <= at < all.len()
    &&& contains_sub(all[at], "ETag"@)
    &&& forall|j: int| 0 <= j < at ==> !contains_sub(#[trigger] all[j], "ETag"@)
}

/// The entity tag in the description of an object: what is quoted on the
/// first line that mentions it.
pub open spec fn entity_tag(output: Seq<char>) -> Option<Seq<char>> {
    if exists|at: int| first_tag_line(lines(output), at) {
        quoted(lines(output)[choose|at: int| first_tag_line(lines(output), at)])
    } else {
        None
    }
}

/// The quoted part of `line`.
fn find_quoted(line: &Vec<char>) -> (found: Option<Vec<char>>)
    ensures
        match found {
            Some(text) => quoted(line@) == Some(text@),
            None => quoted(line@) is None,
        },
{
    match find_char(line, '"', 0) {
        None => {
            assert forall|open: int| !first_quote(line@, open) by {}
            None
        },
        Some(open) => {
            assert(first_quote(line@, open as int));
            assert forall|other: int| first_quote(line@, other) implies other == open by {}
            let len = line.len();
            let ghost rest = line@.skip(open + 1);
            match find_char(line, '"', open + 1) {
                Some(close) => {
                    let text = copy_range(line, open + 1, close);
                    proof {
                        let at = close - (open + 1);
                        assert(rest[at] == '"');
                        assert forall|j: int| 0 <= j < at implies rest[j] != '"' by {
                            assert(rest[j] == line@[j + open + 1]);
                        }
                        assert(first_quote(rest, at));
                        assert forall|other: int| first_quote(rest, other) implies other == at by {}
                        assert(text@ =~= rest.take(at));
                    }
                    Some(text)
                },
                None => {
                    let text = copy_range(line, open + 1, len);
                    proof {
                        assert forall|close: int| !first_quote(rest, close) by {
                            if 0 <= close < rest.len() {
                                assert(rest[close] == line@[close + open + 1]);
                            }
                        }
                        assert(text@ =~= rest);
                    }
                    Some(text)
                },
            }
        },
    }
}

/// The rules of an object store reached with its command-line client.
#[derive(Debug, Clone)]
pub struct S3Backend {
    remote_path: RemotePath,
}

impl S3Backend {
    /// The location that the backend was made for.
    pub closed spec fn location(&self) -> RemotePath {
        self.remote_path
    }

    /// The bucket, or nothing where the URL names none.
    pub open spec fn bucket_or_empty(&self) -> Seq<char> {
        match self.location().url@.host {
            Some(host) => host,
            None => Seq::empty(),
        }
    }

    /// The URL of the object at `path`: `path` itself where it is a URL
    /// already, else `path` in the bucket of the backend.
    pub open spec fn spec_s3_url(&self, path: Seq<char>) -> Seq<char> {
        if is_object_url(path) {
            path
        } else {
            "s3://"@ + self.bucket_or_empty() + path
        }
    }

    /// The flags of a transfer: `--debug` when verbose, `--no-progress` with
    /// progress.
    pub open spec fn transfer_flags(opts: CopyOptions) -> Seq<Seq<char>> {
        let debug = if opts.verbose {
            seq!["--debug"@]
        } else {
            Seq::empty()
        };
        let quiet = if opts.progress {
            seq!["--no-progress"@]
        } else {
            Seq::empty()
        };
        debug + quiet
    }

    pub fn new(remote_path: RemotePath) -> (backend: Self)
        ensures
            backend.location() == remote_path,
    {
        Self { remote_path }
    }

    /// Short name of the location kind.
    pub fn name(&self) -> (name: &str)
        ensures
            name@ == "s3"@,
    {
        "s3"
    }

    /// The URL of the object at `path`.
    pub fn s3_url(&self, path: &str) -> (url: String)
        ensures
            url@ == self.spec_s3_url(path@),
    {
        if str_starts_with(path, "s3://") {
            String::from_str(path)
        } else {
            let mut url = String::from_str("s3://");
            if let Some(bucket) = self.remote_path.url.host_str() {
                url.append(bucket);
            }
            url.append(path);
            assert(url@ =~= self.spec_s3_url(path@));
            url
        }
    }

    /// Which way a transfer from `src` to `dst` goes: down where the source
    /// alone is an object URL, up where the destination alone is one. Nothing
    /// is transferred between two objects, nor between two local paths;
    /// `what` names the transfer in the refusal.
    pub fn direction(&self, src: &str, dst: &str, what: &str) -> (way: Result<
        Direction,
        BackendError,
    >)
        ensures
            is_object_url(src@) && !is_object_url(dst@) ==> way == Ok::<Direction, BackendError>(
                Direction::Download,
            ),
            !is_object_url(src@) && is_object_url(dst@) ==> way == Ok::<Direction, BackendError>(
                Direction::Upload,
            ),
            is_object_url(src@) == is_object_url(dst@) ==> (way matches Err(
                BackendError::UnsupportedOperation(why),
            ) && why@ == "S3 to S3 "@ + what@ + " not yet implemented"@),
    {
        let from_store = str_starts_with(src, "s3://");
        let to_store = str_starts_with(dst, "s3://");
        if from_store && !to_store {
            Ok(Direction::Download)
        } else if !from_store && to_store {
            Ok(Direction::Upload)
        } else {
            let mut why = String::from_str("S3 to S3 ");
            why.append(what);
            why.append(" not yet implemented");
            Err(BackendError::UnsupportedOperation(why))
        }
    }

    /// The arguments of the client for a transfer with `subcommand` from
    /// `src` to `dst`: the subcommand, the flags, then source and
    /// destination, the side in the store by its URL.
    pub fn transfer_arguments(
        &self,
        subcommand: &str,
        src: &str,
        dst: &str,
        way: Direction,
        opts: &CopyOptions,
    ) -> (args: Vec<String>)
        ensures
            paths(args@) == seq!["s3"@, subcommand@] + Self::transfer_flags(*opts) + match way {
                Direction::Download => seq![self.spec_s3_url(src@), dst@],
                Direction::Upload => seq![src@, self.spec_s3_url(dst@)],
            },
    {
        let mut args: Vec<String> = Vec::new();
        assert(paths(args@) =~= Seq::<Seq<char>>::empty());
        push_arg(&mut args, "s3");
        push_arg(&mut args, subcommand);
        if opts.verbose {
            push_arg(&mut args, "--debug");
        }
        if opts.progress {
            push_arg(&mut args, "--no-progress");
        }
        assert(paths(args@) =~= seq!["s3"@, subcommand@] + Self::transfer_flags(*opts));
        match way {
            Direction::Download => {
                let url = self.s3_url(src);
                push_arg(&mut args, url.as_str());
                push_arg(&mut args, dst);
            },
            Direction::Upload => {
                let url = self.s3_url(dst);
                push_arg(&mut args, src);
                push_arg(&mut args, url.as_str());
            },
        }
        assert(paths(args@) =~= seq!["s3"@, subcommand@] + Self::transfer_flags(*opts) + match way {
            Direction::Download => seq![self.spec_s3_url(src@), dst@],
            Direction::Upload => seq![src@, self.spec_s3_url(dst@)],
        });
        args
    }

    /// The arguments of the client for `subcommand` on the object at `path`.
    pub fn object_arguments(&self, subcommand: &str, path: &str) -> (args: Vec<String>)
        ensures
            paths(args@) == seq!["s3"@, subcommand@, self.spec_s3_url(path@)],
    {
        let mut args: Vec<String> = Vec::new();
        assert(paths(args@) =~= Seq::<Seq<char>>::empty());
        let url = self.s3_url(path);
        push_arg(&mut args, "s3");
        push_arg(&mut args, subcommand);
        push_arg(&mut args, url.as_str());
        assert(paths(args@) =~= seq!["s3"@, subcommand@, self.spec_s3_url(path@)]);
        args
    }

    /// The arguments of the client that describe the object at `path`, where
    /// the digest asked for can be had that way: the store keeps an MD5
    /// digest as entity tag, and no other. A URL without a bucket describes
    /// no object.
    pub fn describe_arguments(&self, path: &str, algorithm: ChecksumAlgorithm) -> (planned: Result<
        Vec<String>,
        BackendError,
    >)
        ensures
            algorithm == ChecksumAlgorithm::Sha1 ==> (planned matches Err(
                BackendError::UnsupportedOperation(why),
            ) && why@ == "S3 does not support SHA1 checksums via CLI"@),
            algorithm == ChecksumAlgorithm::Sha256 ==> (planned matches Err(
                BackendError::UnsupportedOperation(why),
            ) && why@ == "S3 does not support SHA256 checksums via CLI"@),
            algorithm == ChecksumAlgorithm::Md5 ==> match self.location().url@.host {
                Some(bucket) => planned matches Ok(args) && paths(args@) == seq![
                    "s3api"@,
                    "head-object"@,
                    "--bucket"@,
                    bucket,
                    "--key"@,
                    trim_leading(path@, '/'),
                ],
                None => planned matches Err(BackendError::InvalidPath(why)) && why@
                    == "No bucket specified"@,
            },
    {
        match algorithm {
            ChecksumAlgorithm::Md5 => {},
            ChecksumAlgorithm::Sha1 => {
                return Err(
                    BackendError::UnsupportedOperation(
                        String::from_str("S3 does not support SHA1 checksums via CLI"),
                    ),
                );
            },
            ChecksumAlgorithm::Sha256 => {
                return Err(
                    BackendError::UnsupportedOperation(
                        String::from_str("S3 does not support SHA256 checksums via CLI"),
                    ),
                );
            },
        }
        let bucket = match self.remote_path.url.host_str() {
            Some(bucket) => bucket,
            None => {
                return Err(BackendError::InvalidPath(String::from_str("No bucket specified")));
            },
        };
        let key = str_trim_leading(path, '/');
        let mut args: Vec<String> = Vec::new();
        assert(paths(args@) =~= Seq::<Seq<char>>::empty());
        push_arg(&mut args, "s3api");
        push_arg(&mut args, "head-object");
        push_arg(&mut args, "--bucket");
        push_arg(&mut args, bucket);
        push_arg(&mut args, "--key");
        push_arg(&mut args, key.as_str());
        assert(paths(args@) =~= seq![
            "s3api"@,
            "head-object"@,
            "--bucket"@,
            bucket@,
            "--key"@,
            trim_leading(path@, '/'),
        ]);
        Ok(args)
    }

    /// Reads the listing of the directory `path`.
    pub fn parse_listing(&self, path: &str, output: &str) -> (files: Vec<FileInfo>)
        ensures
            entries(files@) == described(
                |line: Seq<char>| object_listing_entry(path@, line),
                lines(output@),
            ),
    {
        let text = to_chars(output);
        let all = split_lines(&text);
        let ghost entry = |line: Seq<char>| object_listing_entry(path@, line);
        let ghost wanted = lines(output@);
        let mut prefix: Vec<char> = Vec::new();
        prefix.push('P');
        prefix.push('R');
        prefix.push('E');
        assert(prefix@ =~= seq!['P', 'R', 'E']);
        let mut files: Vec<FileInfo> = Vec::new();
        assert(entries(files@) =~= Seq::<FileEntry>::empty());
        let mut i: usize = 0;
        assert(wanted.take(0) =~= Seq::<Seq<char>>::empty());
        while i < all.len()
            invariant
                i <= all@.len(),
                wanted == views(all@),
                prefix@ == seq!['P', 'R', 'E'],
                entry == (|line: Seq<char>| object_listing_entry(path@, line)),
                entries(files@) == described(entry, wanted.take(i as int)),
            decreases all@.len() - i,
        {
            proof {
                assert(wanted.take(i + 1).drop_last() == wanted.take(i as int));
                assert(wanted.take(i + 1).last() == all@[i as int]@);
            }
            let parts = split_fields(&all[i]);
            if parts.len() >= 4 {
                let is_dir = starts_with(&parts[0], &prefix);
                let size = if is_dir {
                    0
                } else {
                    match parse_u64(&parts[2]) {
                        Some(size) => size,
                        None => 0,
                    }
                };
                let file = FileInfo {
                    path: make_listed_path(path, &parts[3]),
                    size,
                    is_dir,
                    modified: None,
                };
                assert(views(parts@)[0] == parts@[0]@);
                assert(views(parts@)[2] == parts@[2]@);
                assert(views(parts@)[3] == parts@[3]@);
                assert(Some(file@) == entry(all@[i as int]@));
                assert(entries(files@.push(file)) =~= entries(files@).push(file@));
                files.push(file);
            } else {
                assert(entry(all@[i as int]@) is None);
            }
            i += 1;
        }
        assert(wanted.take(all@.len() as int) == wanted);
        files
    }

    /// Reads the entity tag out of the description of an object.
    pub fn parse_etag(&self, output: &str) -> (tag: Result<String, BackendError>)
        ensures
            match entity_tag(output@) {
                Some(text) => tag matches Ok(found) && found@ == text,
                None => tag matches Err(BackendError::Other(why)) && why@
                    == "ETag not found in response"@,
            },
    {
        let text = to_chars(output);
        let all = split_lines(&text);
        let marker = to_chars("ETag");
        let ghost wanted = lines(output@);
        let mut i: usize = 0;
        while i < all.len()
            invariant
                i <= all@.len(),
                wanted == views(all@),
                wanted == lines(output@),
                marker@ == "ETag"@,
                forall|j: int| 0 <= j < i ==> !contains_sub(#[trigger] wanted[j], "ETag"@),
            decreases all@.len() - i,
        {
            assert(wanted[i as int] == all@[i as int]@);
            if find_sub(&all[i], &marker).is_some() {
                proof {
                    assert(first_tag_line(wanted, i as int));
                    assert forall|other: int| first_tag_line(wanted, other) implies other == i by {
                        if other < i {
                            assert(!contains_sub(wanted[other], "ETag"@));
                        } else if other > i {
                            assert(contains_sub(wanted[i as int], "ETag"@));
                        }
                    }
                }
                return match find_quoted(&all[i]) {
                    Some(tag) => Ok(string_of(&tag)),
                    None => Err(BackendError::Other(String::from_str("ETag not found in response"))),
                };
            }
            i += 1;
        }
        assert forall|at: int| !first_tag_line(wanted, at) by {}
        Err(BackendError::Other(String::from_str("ETag not found in response")))
    }
}

} // verus!
