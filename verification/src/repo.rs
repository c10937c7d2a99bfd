//! Organizations and repository descriptors produced by discovery, and the
//! archived/fork membership test applied in full-discovery mode.

use vstd::prelude::*;

verus! {

/// An organization as the hosting service describes it. Transient: it
/// exists only while discovery turns it into repository listings.
#[derive(Debug)]
pub struct Org {
    pub login: String,
    pub repos_url: String,
}

/// A repository as the hosting service describes it: a clone URL, and the
/// two flags that full discovery filters on. Identity is the clone URL.
#[derive(Debug)]
pub struct Repo {
    pub clone_url: String,
    pub fork: bool,
    pub archived: bool,
}

impl Clone for Repo {
    fn clone(&self) -> (r: Self)
        ensures
            r == *self,
    {
        Repo { clone_url: self.clone_url.clone(), fork: self.fork, archived: self.archived }
    }
}

impl Repo {
    /// A repository belongs to the full-discovery work set exactly when it
    /// is neither archived nor a fork.
    pub open spec fn spec_wanted(self) -> bool {
        !self.archived && !self.fork
    }

    /// Decides membership in the full-discovery work set.
    pub fn wanted(&self) -> (r: bool)
        ensures
            r == self.spec_wanted(),
    {
        !self.archived && !self.fork
    }
}

} // verus!
