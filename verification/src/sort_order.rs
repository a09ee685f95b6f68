//! Sort criteria for the task list. A sort order is a chain of criteria:
//! later criteria break ties left by earlier ones.

use vstd::prelude::*;

verus! {

/// One criterion by which two tasks can be ordered.
#[derive(Debug, Clone, Copy, PartialEq, Eq, Structural)]
pub enum SortCriteria {
    /// Highest priority first.
    Priority,
    /// Lowest priority first.
    PriorityReverse,
    /// Newest creation time first.
    CreatedDesc,
    /// Oldest creation time first.
    CreatedAsc,
    /// Earliest due date first; tasks without a due date last.
    DueDate,
    /// Latest due date first; tasks without a due date last.
    DueDateReverse,
    /// Title A to Z, case-insensitively.
    TitleAsc,
    /// Title Z to A, case-insensitively.
    TitleDesc,
    /// Unfinished tasks first.
    Status,
    /// Finished tasks first.
    StatusReverse,
}

impl Default for SortCriteria {
    /// The default criterion orders newest first.
    fn default() -> (r: Self)
        ensures
            r == SortCriteria::CreatedDesc,
    {
        SortCriteria::CreatedDesc
    }
}

/// A chain of sort criteria, applied left to right.
#[derive(Debug)]
pub struct SortOrder {
    pub criteria: Vec<SortCriteria>,
}

impl Default for SortOrder {
    /// The default order holds the single default criterion.
    fn default() -> (r: Self)
        ensures
            r.criteria@ == seq![SortCriteria::CreatedDesc],
    {
        let mut criteria: Vec<SortCriteria> = Vec::new();
        criteria.push(SortCriteria::CreatedDesc);
        proof {
            assert(criteria@ =~= seq![SortCriteria::CreatedDesc]);
        }
        SortOrder { criteria }
    }
}

} // verus!
