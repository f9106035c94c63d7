//! Where a command sends its changes: a writer commits one history item
//! and answers the new head index of the history.

use vstd::prelude::*;
use crate::replay::WireItem;

verus! {

/// A destination for history items.
pub trait CloudWriter {
    /// Commits one item on top of `ancestor_index` (the current head when
    /// none is given); answers the new head index, or why it failed.
    fn commit(&mut self, changes: WireItem, ancestor_index: Option<i64>) -> Result<i64, String>;

    /// The head index of the history as last seen.
    fn head_index(&self) -> i64;
}

/// A writer that sends nothing and counts the items it was given.
pub struct DryRunCloudWriter {
    head_index: i64,
}

impl DryRunCloudWriter {
    /// The head index seen so far.
    pub closed spec fn head(&self) -> i64 {
        self.head_index
    }

    /// A writer at head index 0.
    pub fn new() -> (r: Self)
        ensures
            r.head() == 0,
    {
        DryRunCloudWriter { head_index: 0 }
    }
}

impl CloudWriter for DryRunCloudWriter {
    /// Each commit moves the head one up and answers it; the head cannot pass
    /// `i64::MAX`, so a commit there is refused.
    fn commit(&mut self, changes: WireItem, ancestor_index: Option<i64>) -> (r: Result<i64, String>)
        ensures
            old(self).head() < i64::MAX ==> final(self).head() == old(self).head() + 1 && r == Ok::<i64, String>(final(self).head()),
            old(self).head() == i64::MAX ==> final(self).head() == old(self).head() && r is Err,
    {
        if self.head_index == i64::MAX {
            return Err(crate::text::owned("head index exhausted"));
        }
        self.head_index = self.head_index + 1;
        Ok(self.head_index)
    }

    fn head_index(&self) -> (r: i64)
        ensures
            r == self.head(),
    {
        self.head_index
    }
}

} // verus!
