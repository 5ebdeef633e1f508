//! An assignment task.

use vstd::prelude::*;

verus! {

/// One assignment unit of the catalog.
///
/// `id` doubles as the branch-name key: a pull request is a candidate
/// exactly when its source-branch name contains `id` as a substring.
/// `test_path` points at the held-out test fixtures that are
/// overlaid over a candidate's checkout before the test run.
#[derive(Debug, Clone)]
pub struct Task {
    pub id: String,
    pub name: String,
    pub description: String,
    pub test_path: String,
}

} // verus!
