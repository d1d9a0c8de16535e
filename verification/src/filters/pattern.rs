use crate::backend::traits::{FileEntry, FileInfo};
use crate::filters::Filter;
use vstd::prelude::*;
use vstd::string::*;

verus! {

/// The message with which `glob::Pattern::new` refuses `pattern`, or nothing
/// where it takes the pattern. The platform that the crate is built for
/// fixes which characters are path separators, and a `**` is well-formed
/// only between separators or the ends of the pattern.
pub uninterp spec fn glob_syntax_error(pattern: Seq<char>) -> Option<Seq<char>>;

/// Whether the compiled form of a well-formed `pattern` matches `path`, as
/// `glob::Pattern::matches` answers with its default options. The platform
/// that the crate is built for fixes which characters are path separators:
/// that bears on what a `**` takes in, and in a build for Windows either
/// separator in `path` matches a separator written in the pattern.
pub uninterp spec fn glob_matches(pattern: Seq<char>, path: Seq<char>) -> bool;

/// `pattern` is well-formed glob syntax.
pub open spec fn glob_valid(pattern: Seq<char>) -> bool {
    glob_syntax_error(pattern) is None
}

/// The message that refuses a malformed `pattern`.
pub open spec fn glob_error_text(pattern: Seq<char>) -> Seq<char> {
    glob_syntax_error(pattern)->0
}

/// `pattern` is well-formed and matches `path`.
pub open spec fn pattern_hits(pattern: Seq<char>, path: Seq<char>) -> bool {
    glob_valid(pattern) && glob_matches(pattern, path)
}

/// Some pattern of `patterns` is well-formed and matches `path`.
pub open spec fn any_hits(patterns: Seq<String>, path: Seq<char>) -> bool {
    exists|i: int| 0 <= i < patterns.len() && pattern_hits(#[trigger] patterns[i]@, path)
}

/// Every pattern of `patterns` is well-formed.
pub open spec fn all_valid(patterns: Seq<String>) -> bool {
    forall|i: int| 0 <= i < patterns.len() ==> glob_valid(#[trigger] patterns[i]@)
}

/// `at` is the first pattern of `patterns` that is malformed.
pub open spec fn first_invalid(patterns: Seq<String>, at: int) -> bool {
    &&& 0 <= at < patterns.len()
    &&& !glob_valid(patterns[at]@)
    &&& forall|j: int| 0 <= j < at ==> glob_valid(#[trigger] patterns[j]@)
}

/// Calls `glob::Pattern::new` on `pattern` and, where that succeeds,
/// `glob::Pattern::matches` on `path`; where it fails, reads the text of the
/// error. Trusted: the call succeeds exactly for a well-formed pattern, with
/// what the matcher says of `path`, and fails with the message that the
/// crate prints for the pattern.
#[verifier::external_body]
fn glob_probe(pattern: &str, path: &str) -> (probed: Result<bool, String>)
    ensures
        match probed {
            Ok(hit) => glob_syntax_error(pattern@) is None && hit == glob_matches(pattern@, path@),
            Err(text) => glob_syntax_error(pattern@) == Some(text@),
        },
{
    match glob::Pattern::new(pattern) {
        Ok(compiled) => Ok(compiled.matches(path)),
        Err(e) => Err(e.to_string()),
    }
}

/// Checks `patterns` in order; hands back the message for the first malformed
/// one under `label`.
fn check_patterns(patterns: &Vec<String>, label: &str) -> (problem: Option<String>)
    ensures
        problem.is_none() == all_valid(patterns@),
        problem matches Some(text) ==> exists|at: int|
            first_invalid(patterns@, at) && text@ == label@ + glob_error_text(patterns@[at]@),
{
    let mut i: usize = 0;
    while i < patterns.len()
        invariant
            i <= patterns@.len(),
            forall|j: int| 0 <= j < i ==> glob_valid(#[trigger] patterns@[j]@),
        decreases patterns@.len() - i,
    {
        if let Err(detail) = glob_probe(patterns[i].as_str(), "") {
            let mut text = String::from_str(label);
            text.append(detail.as_str());
            assert(first_invalid(patterns@, i as int));
            return Some(text);
        }
        i += 1;
    }
    None
}

/// Whether some pattern of `patterns` matches `path`.
fn any_match(patterns: &Vec<String>, path: &str) -> (hit: bool)
    ensures
        hit == any_hits(patterns@, path@),
{
    let mut i: usize = 0;
    while i < patterns.len()
        invariant
            i <= patterns@.len(),
            forall|j: int| 0 <= j < i ==> !pattern_hits(#[trigger] patterns@[j]@, path@),
        decreases patterns@.len() - i,
    {
        if let Ok(true) = glob_probe(patterns[i].as_str(), path) {
            return true;
        }
        i += 1;
    }
    false
}

/// Keeps entries by glob patterns on their path: any match of an excludes
/// pattern rejects; otherwise, where include patterns are given, one of them
/// must match.
#[derive(Debug)]
pub struct PatternFilter {
    include_patterns: Vec<String>,
    exclude_patterns: Vec<String>,
}

impl PatternFilter {
    /// The include patterns, as given.
    pub closed spec fn include_patterns(&self) -> Seq<String> {
        self.include_patterns@
    }

    /// The exclude patterns, as given.
    pub closed spec fn exclude_patterns(&self) -> Seq<String> {
        self.exclude_patterns@
    }

    /// Every pattern of the filter is well-formed.
    pub open spec fn well_formed(&self) -> bool {
        all_valid(self.include_patterns()) && all_valid(self.exclude_patterns())
    }

    /// Builds the filter, or reports the first malformed pattern: an include
    /// pattern before any exclude pattern.
    pub fn new(includes: Vec<String>, excludes: Vec<String>) -> (made: Result<Self, String>)
        ensures
            made.is_ok() == (all_valid(includes@) && all_valid(excludes@)),
            made matches Ok(filter) ==> {
                &&& filter.include_patterns() == includes@
                &&& filter.exclude_patterns() == excludes@
                &&& filter.well_formed()
            },
            made matches Err(text) ==> {
                if !all_valid(includes@) {
                    exists|at: int|
                        first_invalid(includes@, at) && text@ == "Invalid include pattern: "@
                            + glob_error_text(includes@[at]@)
                } else {
                    exists|at: int|
                        first_invalid(excludes@, at) && text@ == "Invalid exclude pattern: "@
                            + glob_error_text(excludes@[at]@)
                }
            },
    {
        if let Some(text) = check_patterns(&includes, "Invalid include pattern: ") {
            return Err(text);
        }
        if let Some(text) = check_patterns(&excludes, "Invalid exclude pattern: ") {
            return Err(text);
        }
        Ok(Self { include_patterns: includes, exclude_patterns: excludes })
    }
}

impl Clone for PatternFilter {
    fn clone(&self) -> (copy: Self)
        ensures
            copy.include_patterns() == self.include_patterns(),
            copy.exclude_patterns() == self.exclude_patterns(),
    {
        Self {
            include_patterns: self.include_patterns.clone(),
            exclude_patterns: self.exclude_patterns.clone(),
        }
    }
}

impl Filter for PatternFilter {
    open spec fn accepts(&self, file: FileEntry) -> bool {
        &&& !any_hits(self.exclude_patterns(), file.path)
        &&& self.include_patterns().len() > 0 ==> any_hits(self.include_patterns(), file.path)
    }

    fn matches(&self, file: &FileInfo) -> (pass: bool) {
        if any_match(&self.exclude_patterns, file.path.as_str()) {
            return false;
        }
        if self.include_patterns.len() > 0 {
            return any_match(&self.include_patterns, file.path.as_str());
        }
        true
    }
}

} // verus!
