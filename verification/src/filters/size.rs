use crate::backend::traits::{FileEntry, FileInfo};
use crate::filters::Filter;
use vstd::prelude::*;

verus! {

/// Keeps regular files whose size lies within optional bounds, both inclusive.
/// Directories always pass.
#[derive(Clone, Copy, Debug)]
pub struct SizeFilter {
    min_size: Option<u64>,
    max_size: Option<u64>,
}

impl SizeFilter {
    /// Lower bound in bytes, if one is set.
    pub closed spec fn min_size(&self) -> Option<u64> {
        self.min_size
    }

    /// Upper bound in bytes, if one is set.
    pub closed spec fn max_size(&self) -> Option<u64> {
        self.max_size
    }

    pub fn new(min_size: Option<u64>, max_size: Option<u64>) -> (filter: Self)
        ensures
            filter.min_size() == min_size,
            filter.max_size() == max_size,
    {
        Self { min_size, max_size }
    }
}

/// `value` is no smaller than `min` and no larger than `max`, where these are set.
pub open spec fn within_bounds(value: u64, min: Option<u64>, max: Option<u64>) -> bool {
    &&& min matches Some(lo) ==> value >= lo
    &&& max matches Some(hi) ==> value <= hi
}

/// Tests `value` against optional inclusive bounds.
pub fn check_bounds(value: u64, min: Option<u64>, max: Option<u64>) -> (inside: bool)
    ensures
        inside == within_bounds(value, min, max),
{
    if let Some(lo) = min {
        if value < lo {
            return false;
        }
    }
    if let Some(hi) = max {
        if value > hi {
            return false;
        }
    }
    true
}

impl Filter for SizeFilter {
    open spec fn accepts(&self, file: FileEntry) -> bool {
        file.is_dir || within_bounds(file.size, self.min_size(), self.max_size())
    }

    fn matches(&self, file: &FileInfo) -> (pass: bool) {
        if file.is_dir {
            return true;
        }
        check_bounds(file.size, self.min_size, self.max_size)
    }
}

} // verus!
