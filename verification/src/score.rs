//! The result of one grading attempt.

use vstd::prelude::*;

verus! {

/// The outcome of grading one pull request against one task.
///
/// `max_points` is the total number of tests that ran across all parsed
/// summary blocks, `received_points` how many of them passed. The raw
/// test-runner and lint outputs are carried along verbatim so that the
/// posted comment can show them.
pub struct Score {
    pub max_points: u32,
    pub received_points: u32,
    pub test_output: String,
    pub clippy_output: String,
}

impl Score {
    /// A score never awards more points than it has available.
    pub open spec fn wf(self) -> bool {
        self.received_points <= self.max_points
    }

    /// A score that awards nothing and carries no output.
    pub open spec fn is_zero(self) -> bool {
        &&& self.max_points == 0
        &&& self.received_points == 0
        &&& self.test_output@ == Seq::<char>::empty()
        &&& self.clippy_output@ == Seq::<char>::empty()
    }
}

impl Default for Score {
    /// The zero score: 0 of 0 points, empty outputs.
    fn default() -> (s: Self)
        ensures
            s.is_zero(),
            s.wf(),
    {
        Score {
            max_points: 0,
            received_points: 0,
            test_output: String::new(),
            clippy_output: String::new(),
        }
    }
}

} // verus!
