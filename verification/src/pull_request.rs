//! The library's view of a pull request.
//!
//! The code-hosting API hands the application a rich pull-request
//! record; the grader only ever reads its number, its source-branch
//! name, and the three possible fetch URLs of the repository it came
//! from. The application copies those into this plain model before any
//! of the verified logic runs.

use vstd::prelude::*;

verus! {

/// The fetchable locations of the repository a pull request belongs to.
///
/// Any of the three may be absent; the grading engine prefers the HTTPS
/// clone URL, then the SSH URL, then the web URL.
pub struct RepoRef {
    pub clone_url: Option<String>,
    pub ssh_url: Option<String>,
    pub html_url: Option<String>,
}

/// What the grader reads of a pull request.
pub struct PrInfo {
    /// The pull request's number in its repository.
    pub number: u64,
    /// The name of the source branch (the branch to be graded).
    pub branch: String,
    /// The repository the pull request's head lives in, if the API
    /// reported one.
    pub repo: Option<RepoRef>,
}

} // verus!
