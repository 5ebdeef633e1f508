//! Automatic grading of pull requests against assignment tasks.
//!
//! The library holds the verified core of the grader: the test-summary
//! parser, the score model, the candidate matcher, the idempotency check
//! on comment histories, and the decisions of the grading engine. All
//! network, filesystem and subprocess work lives outside, in the
//! application crate, which hands this library plain values.

pub mod check_branch_manager;
pub mod comment;
pub mod file_task_manager;
pub mod pr_task_manager;
pub mod pull_request;
pub mod score;
pub mod task;
pub mod text;
