//! Tool configuration: where the repository's index and object store live.

use vstd::prelude::*;

verus! {

/// Repository configuration: the URLs of the index and object-store
/// sources, and the root for local checkouts of remote repositories.
#[derive(Debug)]
pub struct Repository {
    pub index: Option<String>,
    pub objects: Option<String>,
    pub local_repos: Option<String>,
}

impl Default for Repository {
    /// The default configuration names no sources.
    fn default() -> (r: Repository)
        ensures
            r.index is None,
            r.objects is None,
            r.local_repos is None,
    {
        Repository { index: None, objects: None, local_repos: None }
    }
}

/// The whole configuration file.
#[derive(Debug)]
pub struct Config {
    pub repository: Repository,
}

} // verus!
