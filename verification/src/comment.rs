//! Rendering a score into the comment that is posted on the pull
//! request.
//!
//! The rendered text always contains the marker `Score`, which is what
//! the already-graded check looks for: posting a result is also what
//! keeps the pull request from being graded again.

use vstd::prelude::*;
use vstd::string::*;
use crate::score::Score;
use crate::text::{contains_at, lemma_contains_prefix, text_contains};

verus! {

/// The character of one decimal digit value.
pub open spec fn digit_char(d: nat) -> char {
    "0123456789"@[d as int]
}

/// The decimal numeral of `n`, most significant digit first.
pub open spec fn dec_seq(n: nat) -> Seq<char>
    decreases n,
{
    if n < 10 {
        seq![digit_char(n)]
    } else {
        dec_seq(n / 10).push(digit_char(n % 10))
    }
}

fn digit_str(d: u32) -> (r: &'static str)
    requires
        d < 10,
    ensures
        r@ == seq![digit_char(d as nat)],
{
    let r: &'static str = match d {
        0 => "0",
        1 => "1",
        2 => "2",
        3 => "3",
        4 => "4",
        5 => "5",
        6 => "6",
        7 => "7",
        8 => "8",
        _ => "9",
    };
    proof {
        reveal_strlit("0123456789");
        reveal_strlit("0");
        reveal_strlit("1");
        reveal_strlit("2");
        reveal_strlit("3");
        reveal_strlit("4");
        reveal_strlit("5");
        reveal_strlit("6");
        reveal_strlit("7");
        reveal_strlit("8");
        reveal_strlit("9");
        assert(r@ =~= seq![digit_char(d as nat)]);
    }
    r
}

/// Render `n` in decimal.
pub fn decimal_string(n: u32) -> (r: String)
    ensures
        r@ == dec_seq(n as nat),
    decreases n,
{
    if n < 10 {
        String::from_str(digit_str(n))
    } else {
        let mut s = decimal_string(n / 10);
        s.append(digit_str(n % 10));
        proof {
            assert(s@ =~= dec_seq(n as nat));
        }
        s
    }
}

/// The comment text posted for a score: the fixed template with the
/// points and both captured outputs embedded verbatim.
pub open spec fn spec_comment(s: Score) -> Seq<char> {
    "## Test Results\n\n**Score:** "@ + dec_seq(s.received_points as nat) + "/"@ + dec_seq(
        s.max_points as nat,
    ) + "\n\n### Test Output\n```\n"@ + s.test_output@ + "\n```\n\n### Clippy Output\n```\n"@
        + s.clippy_output@ + "\n```"@
}

/// Render the comment for a score.
///
/// The result always contains the marker text `Score`: once it is
/// posted, every later run's already-graded check finds the marker and
/// skips the pull request.
pub fn format_score_comment(score: &Score) -> (r: String)
    ensures
        r@ == spec_comment(*score),
        text_contains(r@, "Score"@),
{
    let mut r = String::from_str("## Test Results\n\n**Score:** ");
    let rec = decimal_string(score.received_points);
    r.append(rec.as_str());
    r.append("/");
    let mx = decimal_string(score.max_points);
    r.append(mx.as_str());
    r.append("\n\n### Test Output\n```\n");
    r.append(score.test_output.as_str());
    r.append("\n```\n\n### Clippy Output\n```\n");
    r.append(score.clippy_output.as_str());
    r.append("\n```");
    proof {
        assert(r@ =~= spec_comment(*score));
        reveal_strlit("## Test Results\n\n**Score:** ");
        reveal_strlit("Score");
        let head = "## Test Results\n\n**Score:** "@;
        assert(head.subrange(19, 24) =~= "Score"@);
        assert(contains_at(head, "Score"@, 19));
        let tail = r@.skip(head.len() as int);
        assert(head + tail =~= r@);
        lemma_contains_prefix(head, tail, "Score"@);
    }
    r
}

} // verus!
