pub mod date;
pub mod pattern;
pub mod size;

pub use date::DateFilter;
pub use pattern::PatternFilter;
pub use size::SizeFilter;

use crate::backend::traits::{FileEntry, FileInfo};
use vstd::prelude::*;

verus! {

/// A predicate over listing entries.
pub trait Filter: Send + Sync {
    /// Whether the filter lets `file` through.
    spec fn accepts(&self, file: FileEntry) -> bool;

    /// Decides whether `file` passes.
    fn matches(&self, file: &FileInfo) -> (pass: bool)
        ensures
            pass == self.accepts(file@),
    ;
}

/// A filter of any kind, as a chain holds it.
pub enum AnyFilter {
    Pattern(PatternFilter),
    Size(SizeFilter),
    Date(DateFilter),
}

impl Filter for AnyFilter {
    open spec fn accepts(&self, file: FileEntry) -> bool {
        match self {
            AnyFilter::Pattern(f) => f.accepts(file),
            AnyFilter::Size(f) => f.accepts(file),
            AnyFilter::Date(f) => f.accepts(file),
        }
    }

    fn matches(&self, file: &FileInfo) -> (pass: bool) {
        match self {
            AnyFilter::Pattern(f) => f.matches(file),
            AnyFilter::Size(f) => f.matches(file),
            AnyFilter::Date(f) => f.matches(file),
        }
    }
}

impl Clone for AnyFilter {
    fn clone(&self) -> (copy: Self)
        ensures
            forall|file: FileEntry| #[trigger] copy.accepts(file) == self.accepts(file),
    {
        match self {
            AnyFilter::Pattern(f) => AnyFilter::Pattern(f.clone()),
            AnyFilter::Size(f) => AnyFilter::Size(*f),
            AnyFilter::Date(f) => AnyFilter::Date(*f),
        }
    }
}

/// Every filter of `filters` lets `file` through.
pub open spec fn all_accept(filters: Seq<AnyFilter>, file: FileEntry) -> bool {
    forall|i: int| 0 <= i < filters.len() ==> (#[trigger] filters[i]).accepts(file)
}

/// Filters applied together: an entry passes when every one of them lets it
/// through.
pub struct FilterChain {
    filters: Vec<AnyFilter>,
}

impl FilterChain {
    /// The filters of the chain, in the order in which they were added.
    pub closed spec fn filters(&self) -> Seq<AnyFilter> {
        self.filters@
    }

    /// Whether every filter of the chain lets `file` through.
    pub open spec fn accepts(&self, file: FileEntry) -> bool {
        all_accept(self.filters(), file)
    }

    /// A chain without filters; it lets everything through.
    pub fn new() -> (chain: Self)
        ensures
            chain.filters() == Seq::<AnyFilter>::empty(),
    {
        Self { filters: Vec::new() }
    }

    /// Puts `filter` at the end of the chain.
    pub fn add(&mut self, filter: AnyFilter)
        ensures
            final(self).filters() == old(self).filters().push(filter),
    {
        self.filters.push(filter);
    }

    /// Number of filters in the chain.
    pub fn len(&self) -> (n: usize)
        ensures
            n == self.filters().len(),
    {
        self.filters.len()
    }

    /// Decides whether `file` passes every filter. The filters are asked in
    /// the order in which they were added, up to the first that refuses.
    pub fn matches(&self, file: &FileInfo) -> (pass: bool)
        ensures
            pass == self.accepts(file@),
    {
        let mut i: usize = 0;
        while i < self.filters.len()
            invariant
                i <= self.filters@.len(),
                forall|j: int| 0 <= j < i ==> (#[trigger] self.filters@[j]).accepts(file@),
            decreases self.filters@.len() - i,
        {
            if !self.filters[i].matches(file) {
                assert(!self.filters()[i as int].accepts(file@));
                return false;
            }
            i += 1;
        }
        true
    }
}

impl Clone for FilterChain {
    fn clone(&self) -> (copy: Self)
        ensures
            copy.filters().len() == self.filters().len(),
            forall|file: FileEntry| #[trigger] copy.accepts(file) == self.accepts(file),
    {
        let mut filters: Vec<AnyFilter> = Vec::new();
        let mut i: usize = 0;
        while i < self.filters.len()
            invariant
                i <= self.filters@.len(),
                filters@.len() == i,
                forall|j: int, file: FileEntry|
                    0 <= j < i ==> (#[trigger] filters@[j].accepts(file)) == self.filters@[j].accepts(
                        file,
                    ),
            decreases self.filters@.len() - i,
        {
            let one = self.filters[i].clone();
            filters.push(one);
            i += 1;
        }
        let copy = Self { filters };
        proof {
            assert forall|file: FileEntry| #[trigger] copy.accepts(file) == self.accepts(file) by {
                if copy.accepts(file) {
                    assert forall|j: int| 0 <= j < self.filters().len() implies (
                    #[trigger] self.filters()[j]).accepts(file) by {
                        assert(copy.filters()[j].accepts(file));
                    }
                }
                if self.accepts(file) {
                    assert forall|j: int| 0 <= j < copy.filters().len() implies (
                    #[trigger] copy.filters()[j]).accepts(file) by {
                        assert(self.filters()[j].accepts(file));
                    }
                }
            }
        }
        copy
    }
}

impl Default for FilterChain {
    fn default() -> (chain: Self)
        ensures
            chain.filters() == Seq::<AnyFilter>::empty(),
    {
        Self::new()
    }
}

/// A chain is the conjunction of its filters: one more filter at the end lets
/// through what the shorter chain and that filter both let through.
pub proof fn lemma_chain_is_conjunction(filters: Seq<AnyFilter>, added: AnyFilter, file: FileEntry)
    ensures
        all_accept(filters.push(added), file) <==> all_accept(filters, file) && added.accepts(file),
        all_accept(Seq::<AnyFilter>::empty(), file),
{
    let longer = filters.push(added);
    let n = filters.len() as int;
    if all_accept(longer, file) {
        assert(longer[n].accepts(file));
        assert forall|i: int| 0 <= i < n implies (#[trigger] filters[i]).accepts(file) by {
            assert(longer[i].accepts(file));
        }
    }
    if all_accept(filters, file) && added.accepts(file) {
        assert forall|i: int| 0 <= i < longer.len() implies (#[trigger] longer[i]).accepts(file) by {
            if i < n {
                assert(filters[i].accepts(file));
            }
        }
    }
}

/// The order in which filters stand in a chain does not change what passes.
pub proof fn lemma_chain_order_irrelevant(a: Seq<AnyFilter>, b: Seq<AnyFilter>, file: FileEntry)
    requires
        a.to_multiset() == b.to_multiset(),
    ensures
        all_accept(a, file) == all_accept(b, file),
{
    lemma_all_accept_by_membership(a, b, file);
    lemma_all_accept_by_membership(b, a, file);
}

proof fn lemma_all_accept_by_membership(a: Seq<AnyFilter>, b: Seq<AnyFilter>, file: FileEntry)
    requires
        a.to_multiset() == b.to_multiset(),
    ensures
        all_accept(a, file) ==> all_accept(b, file),
{
    if all_accept(a, file) {
        assert forall|i: int| 0 <= i < b.len() implies (#[trigger] b[i]).accepts(file) by {
            b.to_multiset_ensures();
            a.to_multiset_ensures();
            assert(b.contains(b[i]));
            assert(b.to_multiset().count(b[i]) > 0);
            assert(a.contains(b[i]));
            let j = choose|j: int| 0 <= j < a.len() && a[j] == b[i];
            assert(a[j].accepts(file));
        }
    }
}

} // verus!
