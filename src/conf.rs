//! The configuration that the changelog is built from.
use vstd::prelude::*;

verus! {

/// One repository to read.
#[derive(Clone, Debug)]
pub struct Repository {
    /// The name shown for the repository.
    pub name: String,
    /// Where the repository lies on disk.
    pub path: String,
    /// The scopes that commits of this repository are expected to name. A
    /// commit whose scope is not listed is still kept: the list informs and
    /// does not filter.
    pub scopes: Option<Vec<String>>,
    /// The revision range to walk; the history from `HEAD` when absent.
    pub range: Option<String>,
    /// A link template for commits, with `{hash}` where the full hash goes.
    pub link: Option<String>,
}

/// The whole configuration.
#[derive(Clone, Debug)]
pub struct Configuration {
    /// Each commit kind that is kept, with the label of its group. Where a
    /// kind stands twice, its first label is used.
    pub kinds: Vec<(String, String)>,
    /// The repositories, in the order in which the changelog lists them.
    pub repositories: Vec<Repository>,
}

} // verus!
