//! Target filters consulted before a record is formatted

use vstd::prelude::*;
use vstd::string::StringSliceAdditionalSpecFns;

use crate::level::{level_passes, Level, LevelFilter};

verus! {

/// A logging target and an optional level filter for it
///
/// With no level filter, every level of that target passes.
pub type Filter = (&'static str, Option<LevelFilter>);

/// Whether `filter` names `target` and lets `level` through.
pub open spec fn filter_admits(filter: Filter, level: Level, target: Seq<char>) -> bool {
    &&& filter.0@ == target
    &&& match filter.1 {
        None => true,
        Some(limit) => level_passes(level, limit),
    }
}

/// Whether a list of filters lets a record through: an empty list lets every
/// record through, else one of its filters must admit it.
pub open spec fn filters_admit(filters: Seq<Filter>, level: Level, target: Seq<char>) -> bool {
    filters.len() == 0 || exists|i: int|
        0 <= i < filters.len() && #[trigger] filter_admits(filters[i], level, target)
}

/// Whether two strings hold the same characters.
fn same_str(a: &str, b: &str) -> (r: bool)
    ensures
        r == (a@ == b@),
{
    let x = a.as_bytes();
    let y = b.as_bytes();
    proof {
        vstd::utf8::encode_utf8_decode_utf8(a@);
        vstd::utf8::encode_utf8_decode_utf8(b@);
    }
    assert((a@ == b@) == (x@ == y@));
    if x.len() != y.len() {
        return false;
    }
    let mut i: usize = 0;
    while i < x.len()
        invariant
            x@ == a.spec_bytes(),
            y@ == b.spec_bytes(),
            (a@ == b@) == (x@ == y@),
            x@.len() == y@.len(),
            i <= x@.len(),
            forall|j: int| 0 <= j < i ==> x@[j] == y@[j],
        decreases x@.len() - i,
    {
        if x[i] != y[i] {
            assert(x@ != y@);
            return false;
        }
        i = i + 1;
    }
    assert(x@ =~= y@);
    true
}

/// The target filters of a logger
pub struct Filters(pub &'static [Filter]);

impl Filters {
    /// Whether a record of `level` from `target` passes the filters.
    pub fn is_enabled(&self, level: Level, target: &str) -> (r: bool)
        ensures
            r == filters_admit(self.0@, level, target@),
    {
        let filters = self.0;
        if filters.len() == 0 {
            return true;
        }
        let mut i: usize = 0;
        while i < filters.len()
            invariant
                i <= filters@.len(),
                filters@ == self.0@,
                forall|j: int| 0 <= j < i ==> !filter_admits(#[trigger] filters@[j], level, target@),
            decreases filters@.len() - i,
        {
            let filter = &filters[i];
            let admits = same_str(filter.0, target) && match filter.1 {
                None => true,
                Some(limit) => level.passes(limit),
            };
            if admits {
                assert(filter_admits(filters@[i as int], level, target@));
                return true;
            }
            i = i + 1;
        }
        false
    }
}

} // verus!
