use crate::backend::traits::{FileEntry, FileInfo};
use crate::filters::size::{check_bounds, within_bounds};
use crate::filters::Filter;
use vstd::prelude::*;

verus! {

/// Keeps entries whose modification time lies within optional bounds, both
/// inclusive. An entry without a modification time always passes.
#[derive(Clone, Copy, Debug)]
pub struct DateFilter {
    min_date: Option<u64>,
    max_date: Option<u64>,
}

impl DateFilter {
    /// Earliest accepted time in seconds since the epoch, if one is set.
    pub closed spec fn min_date(&self) -> Option<u64> {
        self.min_date
    }

    /// Latest accepted time in seconds since the epoch, if one is set.
    pub closed spec fn max_date(&self) -> Option<u64> {
        self.max_date
    }

    pub fn new(min_date: Option<u64>, max_date: Option<u64>) -> (filter: Self)
        ensures
            filter.min_date() == min_date,
            filter.max_date() == max_date,
    {
        Self { min_date, max_date }
    }
}

impl Filter for DateFilter {
    open spec fn accepts(&self, file: FileEntry) -> bool {
        match file.modified {
            None => true,
            Some(modified) => within_bounds(modified, self.min_date(), self.max_date()),
        }
    }

    fn matches(&self, file: &FileInfo) -> (pass: bool) {
        match file.modified {
            None => true,
            Some(modified) => check_bounds(modified, self.min_date, self.max_date),
        }
    }
}

} // verus!
