//! The demo's cluster guard: whether the demo cluster is torn down when the
//! demo ends.

use vstd::prelude::*;

verus! {

/// Tracks the demo's k3d cluster so that it can be torn down at the end,
/// unless it is to be kept.
#[derive(Debug)]
pub struct ClusterGuard {
    pub name: String,
    pub keep: bool,
    pub created: bool,
}

/// What happens to the demo cluster at the end.
#[derive(Debug, Clone, Copy, PartialEq, Eq, Structural)]
pub enum Teardown {
    /// No cluster was created: nothing to do.
    Nothing,
    /// Delete the cluster.
    Delete,
    /// Leave it running and tell the user how to delete it.
    Keep,
}

impl ClusterGuard {
    /// A guard for cluster `name`, not yet created.
    pub fn new(name: &str, keep: bool) -> (g: Self)
        ensures
            g.name@ == name@,
            g.keep == keep,
            !g.created,
    {
        ClusterGuard { name: String::from_str(name), keep, created: false }
    }

    /// Records that the cluster now exists.
    pub fn mark_created(&mut self)
        ensures
            final(self).created,
            final(self).keep == old(self).keep,
            final(self).name == old(self).name,
    {
        self.created = true;
    }

    /// What to do with the cluster at the end: delete it if it was created
    /// and is not to be kept.
    pub fn teardown(&self) -> (t: Teardown)
        ensures
            t == if !self.created {
                Teardown::Nothing
            } else if self.keep {
                Teardown::Keep
            } else {
                Teardown::Delete
            },
    {
        if !self.created {
            Teardown::Nothing
        } else if self.keep {
            Teardown::Keep
        } else {
            Teardown::Delete
        }
    }
}

} // verus!
