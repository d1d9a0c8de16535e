use crate::text::{contains_sub, find_char, find_sub, first_occurrence, to_chars};
use vstd::prelude::*;
use vstd::string::*;

verus! {

/// Why a string was refused as a local path.
#[derive(Debug, Clone, PartialEq, Eq)]
pub enum PathError {
    /// The string names a protocol (the part before `://`).
    ProtocolNotAllowed(String),
    /// The string has the form `user@host:path`.
    RemotePathNotAllowed,
}

impl PathError {
    /// The diagnostic of this error.
    pub open spec fn display_text(&self) -> Seq<char> {
        match self {
            PathError::ProtocolNotAllowed(protocol) => "Protocol '"@ + protocol@
                + "' is not allowed. Only local paths are supported."@,
            PathError::RemotePathNotAllowed =>
                "Remote paths (e.g., user@host:path) are not allowed. Only local paths are supported."@,
        }
    }

    /// Renders the error for the user.
    pub fn to_string(&self) -> (text: String)
        ensures
            text@ == self.display_text(),
    {
        match self {
            PathError::ProtocolNotAllowed(protocol) => {
                let mut text = String::from_str("Protocol '");
                text.append(protocol.as_str());
                text.append("' is not allowed. Only local paths are supported.");
                text
            },
            PathError::RemotePathNotAllowed => String::from_str(
                "Remote paths (e.g., user@host:path) are not allowed. Only local paths are supported.",
            ),
        }
    }
}

/// `at` is where the one and only `@` of `s` stands.
pub open spec fn sole_at_sign(s: Seq<char>, at: int) -> bool {
    &&& 0 <= at < s.len()
    &&& s[at] == '@'
    &&& forall|j: int| 0 <= j < s.len() && j != at ==> s[j] != '@'
}

/// `tail` holds a `:` and does not begin with `//`: it reads as `host:path`.
pub open spec fn host_and_path(tail: Seq<char>) -> bool {
    tail.contains(':') && !seq!['/', '/'].is_prefix_of(tail)
}

/// `s` has the form `user@host:path`: exactly one `@`, and after it a `:` but
/// no leading `//`.
pub open spec fn ssh_style(s: Seq<char>) -> bool {
    exists|at: int| sole_at_sign(s, at) && host_and_path(s.skip(at + 1))
}

/// The separator between a protocol and the rest of a URL.
pub open spec fn scheme_separator() -> Seq<char> {
    seq![':', '/', '/']
}

/// Where the single `@` of `s` stands, if `s` has exactly one.
pub fn find_sole_at_sign(s: &Vec<char>) -> (found: Option<usize>)
    ensures
        match found {
            Some(at) => sole_at_sign(s@, at as int),
            None => forall|at: int| !sole_at_sign(s@, at),
        },
{
    let len = s.len();
    match find_char(s, '@', 0) {
        None => None,
        Some(first) => match find_char(s, '@', first + 1) {
            None => Some(first),
            Some(second) => {
                assert forall|at: int| !sole_at_sign(s@, at) by {
                    if sole_at_sign(s@, at) {
                        if at == first as int {
                            assert(s@[second as int] == '@');
                        } else {
                            assert(s@[first as int] == '@');
                        }
                    }
                }
                None
            },
        },
    }
}

/// Whether what follows index `at` in `s` reads as `host:path`.
pub(crate) fn tail_is_host_and_path(s: &Vec<char>, at: usize) -> (yes: bool)
    requires
        at < s@.len(),
    ensures
        yes == host_and_path(s@.skip(at + 1)),
{
    let len = s.len();
    let ghost tail = s@.skip(at + 1);
    let colon = find_char(s, ':', at + 1);
    let slashes = len - at > 2 && s[at + 1] == '/' && s[at + 2] == '/';
    proof {
        match colon {
            Some(c) => {
                assert(tail[c - (at + 1)] == ':');
            },
            None => {
                assert forall|i: int| 0 <= i < tail.len() implies tail[i] != ':' by {
                    assert(tail[i] == s@[i + at + 1]);
                }
            },
        }
        let lead = seq!['/', '/'];
        if slashes {
            assert(tail.subrange(0, 2) =~= lead);
        } else if lead.is_prefix_of(tail) {
            assert(tail.subrange(0, 2)[0] == lead[0]);
            assert(tail.subrange(0, 2)[1] == lead[1]);
        }
    }
    colon.is_some() && !slashes
}

/// `std::path::PathBuf`: a path of the file system, carried through without
/// looking inside.
#[verifier::external_type_specification]
#[verifier::external_body]
pub struct ExPathBuf(std::path::PathBuf);

/// A path on the local file system.
#[derive(Debug, Clone)]
pub struct LocalPath {
    path: String,
}

impl View for LocalPath {
    type V = Seq<char>;

    closed spec fn view(&self) -> Seq<char> {
        self.path@
    }
}

impl LocalPath {
    /// Takes `path_str` as a local path unless it reads as a remote location:
    /// a string with `://` in it is refused with the protocol named before the
    /// first `://`, and a string of the form `user@host:path` as a remote path.
    pub fn parse(path_str: &str) -> (parsed: Result<Self, PathError>)
        ensures
            match parsed {
                Ok(local) => {
                    &&& !contains_sub(path_str@, scheme_separator())
                    &&& !ssh_style(path_str@)
                    &&& local@ == path_str@
                },
                Err(PathError::ProtocolNotAllowed(protocol)) => exists|at: int|
                    first_occurrence(path_str@, scheme_separator(), at) && protocol@
                        == path_str@.subrange(0, at),
                Err(PathError::RemotePathNotAllowed) => {
                    &&& !contains_sub(path_str@, scheme_separator())
                    &&& ssh_style(path_str@)
                },
            },
    {
        let chars = to_chars(path_str);
        let separator = to_chars("://");
        proof {
            reveal_strlit("://");
            assert(separator@ =~= scheme_separator());
        }
        if let Some(at) = find_sub(&chars, &separator) {
            let protocol = String::from_str(path_str.substring_char(0, at));
            return Err(PathError::ProtocolNotAllowed(protocol));
        }
        if let Some(at) = find_sole_at_sign(&chars) {
            if tail_is_host_and_path(&chars, at) {
                return Err(PathError::RemotePathNotAllowed);
            }
            proof {
                assert forall|other: int| sole_at_sign(chars@, other) implies other == at by {}
            }
        }
        Ok(LocalPath { path: String::from_str(path_str) })
    }

    /// The path as text.
    pub fn to_string_lossy(&self) -> (text: String)
        ensures
            text@ == self@,
    {
        self.path.clone()
    }

    /// The path as `std::path::PathBuf::from` reads its text, for calls into
    /// the file system. Nothing is read off the result here.
    #[verifier::external_body]
    pub fn as_path(&self) -> std::path::PathBuf {
        std::path::PathBuf::from(self.path.as_str())
    }

    /// Asks the file system, through `std::path::Path::exists`, whether
    /// something is at the path. The answer is that of the moment of the
    /// call; nothing is promised of it.
    #[verifier::external_body]
    pub fn path_exists(&self) -> bool {
        std::path::Path::new(self.path.as_str()).exists()
    }

    /// Asks the file system, through `std::path::Path::is_dir`, whether the
    /// path leads to a directory. Nothing is promised of the answer.
    #[verifier::external_body]
    pub fn is_dir(&self) -> bool {
        std::path::Path::new(self.path.as_str()).is_dir()
    }

    /// Asks the file system, through `std::path::Path::is_file`, whether the
    /// path leads to a regular file. Nothing is promised of the answer.
    #[verifier::external_body]
    pub fn is_file(&self) -> bool {
        std::path::Path::new(self.path.as_str()).is_file()
    }
}

} // verus!
