//! The grading engine's computational core.
//!
//! A grading attempt checks out a candidate branch, overlays the task's
//! held-out test fixtures, runs the test suite and the lint pass, and
//! scores the attempt from the test runner's report. The subprocesses
//! and the filesystem work are driven by the application; everything
//! that decides or computes — resolving the repository URL, parsing the
//! test report, assembling the score — is here.
//!
//! The test report is scanned for every line of the shape
//! `test result: <status> N passed; N failed; N ignored; N measured;
//! N filtered out`. A block's run count is `passed + failed + measured`;
//! blocks whose run count is zero contribute nothing, and the remaining
//! blocks are summed.

use vstd::prelude::*;
use crate::pull_request::PrInfo;
use crate::score::Score;
use crate::text::{chars_of, contains_at, occurs_at};

verus! {

/// A decimal digit.
pub open spec fn is_digit(c: char) -> bool {
    48 <= c as u32 && c as u32 <= 57
}

/// The value of one decimal digit.
pub open spec fn digit_val(c: char) -> nat {
    (c as u32 - 48) as nat
}

/// The number denoted by a sequence of decimal digits.
pub open spec fn digits_val(s: Seq<char>) -> nat
    decreases s.len(),
{
    if s.len() == 0 {
        0
    } else {
        digits_val(s.drop_last()) * 10 + digit_val(s.last())
    }
}

/// The count a numeric capture contributes: a number too large for
/// `u32` is treated as malformed and reads as zero.
pub open spec fn capture_val(s: Seq<char>) -> nat {
    if digits_val(s) > u32::MAX {
        0
    } else {
        digits_val(s)
    }
}

/// The end of the run of digits that starts at `j`: the first position
/// at or after `j` that holds no digit.
pub open spec fn digit_run_end(t: Seq<char>, j: int) -> int
    decreases t.len() - j,
{
    if j < 0 || j >= t.len() || !is_digit(t[j]) {
        j
    } else {
        digit_run_end(t, j + 1)
    }
}

/// The digit run starting at `j` is well placed: it ends within the
/// text, and every position up to its end holds a digit.
pub proof fn lemma_digit_run_end(t: Seq<char>, j: int)
    requires
        0 <= j <= t.len(),
    ensures
        j <= digit_run_end(t, j) <= t.len(),
        forall|x: int| j <= x < digit_run_end(t, j) ==> is_digit(t[x]),
    decreases t.len() - j,
{
    if j < t.len() && is_digit(t[j]) {
        lemma_digit_run_end(t, j + 1);
    }
}

/// The counts of one summary block whose `passed` capture starts
/// exactly at `j`: `Some((passed, failed, measured, end))` when the
/// five captures and the literal text between them are all present,
/// with `end` just after `filtered out`.
pub open spec fn tail_at(t: Seq<char>, j: int) -> Option<(nat, nat, nat, int)> {
    let e1 = digit_run_end(t, j);
    let j2 = e1 + " passed; "@.len();
    let e2 = digit_run_end(t, j2);
    let j3 = e2 + " failed; "@.len();
    let e3 = digit_run_end(t, j3);
    let j4 = e3 + " ignored; "@.len();
    let e4 = digit_run_end(t, j4);
    let j5 = e4 + " measured; "@.len();
    let e5 = digit_run_end(t, j5);
    if e1 == j || !contains_at(t, " passed; "@, e1) {
        None
    } else if e2 == j2 || !contains_at(t, " failed; "@, e2) {
        None
    } else if e3 == j3 || !contains_at(t, " ignored; "@, e3) {
        None
    } else if e4 == j4 || !contains_at(t, " measured; "@, e4) {
        None
    } else if e5 == j5 || !contains_at(t, " filtered out"@, e5) {
        None
    } else {
        Some(
            (
                capture_val(t.subrange(j, e1)),
                capture_val(t.subrange(j2, e2)),
                capture_val(t.subrange(j4, e4)),
                e5 + " filtered out"@.len(),
            ),
        )
    }
}

/// A block found at `j` lies between `j` and the end of the text.
pub proof fn lemma_tail_at_bounds(t: Seq<char>, j: int)
    requires
        0 <= j <= t.len(),
        tail_at(t, j) is Some,
    ensures
        j < tail_at(t, j)->Some_0.3 <= t.len(),
{
    let e1 = digit_run_end(t, j);
    lemma_digit_run_end(t, j);
    let j2 = e1 + " passed; "@.len();
    let e2 = digit_run_end(t, j2);
    assert(0 <= j2 <= t.len());
    lemma_digit_run_end(t, j2);
    let j3 = e2 + " failed; "@.len();
    let e3 = digit_run_end(t, j3);
    assert(0 <= j3 <= t.len());
    lemma_digit_run_end(t, j3);
    let j4 = e3 + " ignored; "@.len();
    let e4 = digit_run_end(t, j4);
    assert(0 <= j4 <= t.len());
    lemma_digit_run_end(t, j4);
    let j5 = e4 + " measured; "@.len();
    let e5 = digit_run_end(t, j5);
    assert(0 <= j5 <= t.len());
    lemma_digit_run_end(t, j5);
}

/// Where the status gap after `test result: ` ends: the first
/// position at or after `j` holding a space with a whole block right
/// after it; the counts start just past that space. The gap may not
/// leave the line — a newline before any match means no match for
/// this occurrence.
pub open spec fn gap_end(t: Seq<char>, j: int) -> Option<int>
    decreases t.len() - j,
{
    if j < 0 || j >= t.len() {
        None
    } else if t[j] == ' ' && tail_at(t, j + 1) is Some {
        Some(j + 1)
    } else if t[j] == '\n' {
        None
    } else {
        gap_end(t, j + 1)
    }
}

/// A found gap end lies within the text, after the search start, and a
/// block matches there.
pub proof fn lemma_gap_end(t: Seq<char>, j: int)
    requires
        0 <= j,
        gap_end(t, j) is Some,
    ensures
        j < gap_end(t, j)->Some_0 <= t.len(),
        tail_at(t, gap_end(t, j)->Some_0) is Some,
    decreases t.len() - j,
{
    if j < t.len() && !(t[j] == ' ' && tail_at(t, j + 1) is Some) && t[j] != '\n' {
        lemma_gap_end(t, j + 1);
    }
}

/// The summary block whose `test result: ` opener starts exactly at
/// `i`, if the rest of a block follows on the same line.
pub open spec fn match_from(t: Seq<char>, i: int) -> Option<(nat, nat, nat, int)> {
    if contains_at(t, "test result: "@, i) {
        match gap_end(t, i + "test result: "@.len()) {
            Some(k) => tail_at(t, k),
            None => None,
        }
    } else {
        None
    }
}

/// A block matched at `i` ends after `i` and within the text.
pub proof fn lemma_match_from_bounds(t: Seq<char>, i: int)
    requires
        match_from(t, i) is Some,
    ensures
        i < match_from(t, i)->Some_0.3 <= t.len(),
{
    let j = i + "test result: "@.len();
    let k = gap_end(t, j)->Some_0;
    lemma_gap_end(t, j);
    lemma_tail_at_bounds(t, k);
}

/// One scan step: the totals contributed by blocks at or after
/// position `i`, scanning left to right, never overlapping, and
/// skipping blocks that ran nothing.
pub open spec fn spec_scan(t: Seq<char>, i: int) -> (nat, nat)
    decreases t.len() - i,
    when true
    via spec_scan_decreases
{
    if i < 0 || i >= t.len() {
        (0, 0)
    } else {
        match match_from(t, i) {
            Some((p, f, m, end)) => {
                let rest = spec_scan(t, end);
                if p + f + m == 0 {
                    rest
                } else {
                    ((p + f + m + rest.0) as nat, (p + rest.1) as nat)
                }
            },
            None => spec_scan(t, i + 1),
        }
    }
}

#[via_fn]
proof fn spec_scan_decreases(t: Seq<char>, i: int) {
    if 0 <= i < t.len() && match_from(t, i) is Some {
        lemma_match_from_bounds(t, i);
    }
}

/// The totals parsed out of a test report: how many tests the summary
/// blocks ran in all, and how many of those passed.
pub open spec fn spec_parse(t: Seq<char>) -> (nat, nat) {
    spec_scan(t, 0)
}

/// A sum clamped into `u32`: totals beyond `u32::MAX` saturate.
pub open spec fn clamp_u32(n: nat) -> nat {
    if n > u32::MAX {
        u32::MAX as nat
    } else {
        n
    }
}

fn saturating_add_u32(a: u32, b: u64) -> (r: u32)
    ensures
        r as nat == clamp_u32(a as nat + b as nat),
{
    if b > u32::MAX as u64 - a as u64 {
        u32::MAX
    } else {
        a + b as u32
    }
}

fn digit_check(c: char) -> (b: bool)
    ensures
        b == is_digit(c),
{
    let u = c as u32;
    48 <= u && u <= 57
}

fn digit_run_end_exec(t: &Vec<char>, j: usize) -> (e: usize)
    requires
        j <= t@.len(),
    ensures
        e == digit_run_end(t@, j as int),
        j <= e <= t@.len(),
{
    let n = t.len();
    let mut e = j;
    while e < n && digit_check(t[e])
        invariant
            j <= e <= n,
            n == t@.len(),
            digit_run_end(t@, j as int) == digit_run_end(t@, e as int),
        decreases n - e,
    {
        e = e + 1;
    }
    proof {
        lemma_digit_run_end(t@, j as int);
    }
    e
}

fn capture_value(t: &Vec<char>, j: usize, e: usize) -> (v: u32)
    requires
        j <= e <= t@.len(),
        forall|x: int| j <= x < e ==> is_digit(t@[x]),
    ensures
        v as nat == capture_val(t@.subrange(j as int, e as int)),
{
    let mut acc: u32 = 0;
    let mut big = false;
    let mut x = j;
    while x < e
        invariant
            j <= x <= e <= t@.len(),
            forall|y: int| j <= y < e ==> is_digit(t@[y]),
            !big ==> acc as nat == digits_val(t@.subrange(j as int, x as int)),
            big ==> digits_val(t@.subrange(j as int, x as int)) > u32::MAX,
        decreases e - x,
    {
        proof {
            assert(is_digit(t@[x as int]));
        }
        let d: u32 = t[x] as u32 - 48;
        let ghost prefix = t@.subrange(j as int, x as int);
        let ghost extended = t@.subrange(j as int, x + 1);
        proof {
            assert(extended.drop_last() =~= prefix);
            assert(extended.last() == t@[x as int]);
            assert(digits_val(extended) == digits_val(prefix) * 10 + digit_val(t@[x as int]));
        }
        if !big {
            let next: u64 = acc as u64 * 10 + d as u64;
            if next > u32::MAX as u64 {
                big = true;
            } else {
                acc = next as u32;
            }
        } else {
            proof {
                assert(digits_val(extended) >= digits_val(prefix) * 10 >= digits_val(prefix));
            }
        }
        x = x + 1;
    }
    if big {
        0
    } else {
        acc
    }
}

fn tail_at_exec(t: &Vec<char>, j: usize) -> (r: Option<(u32, u32, u32, usize)>)
    requires
        j <= t@.len(),
    ensures
        r is None ==> tail_at(t@, j as int) is None,
        r matches Some((p, f, m, end)) ==> tail_at(t@, j as int) == Some(
            (p as nat, f as nat, m as nat, end as int),
        ),
{
    let n = t.len();
    let e1 = digit_run_end_exec(t, j);
    if e1 == j {
        return None;
    }
    if !occurs_at(t, e1, " passed; ") {
        return None;
    }
    proof {
        assert(n == t@.len());
    }
    proof {
        reveal_strlit(" passed; ");
        assert(" passed; "@.len() == 9);
    }
    let j2 = e1 + 9;
    let e2 = digit_run_end_exec(t, j2);
    if e2 == j2 {
        return None;
    }
    if !occurs_at(t, e2, " failed; ") {
        return None;
    }
    proof {
        reveal_strlit(" failed; ");
        assert(" failed; "@.len() == 9);
    }
    let j3 = e2 + 9;
    let e3 = digit_run_end_exec(t, j3);
    if e3 == j3 {
        return None;
    }
    if !occurs_at(t, e3, " ignored; ") {
        return None;
    }
    proof {
        reveal_strlit(" ignored; ");
        assert(" ignored; "@.len() == 10);
    }
    let j4 = e3 + 10;
    let e4 = digit_run_end_exec(t, j4);
    if e4 == j4 {
        return None;
    }
    if !occurs_at(t, e4, " measured; ") {
        return None;
    }
    proof {
        reveal_strlit(" measured; ");
        assert(" measured; "@.len() == 11);
    }
    let j5 = e4 + 11;
    let e5 = digit_run_end_exec(t, j5);
    if e5 == j5 {
        return None;
    }
    if !occurs_at(t, e5, " filtered out") {
        return None;
    }
    proof {
        reveal_strlit(" filtered out");
        assert(" filtered out"@.len() == 13);
        lemma_digit_run_end(t@, j as int);
        lemma_digit_run_end(t@, j2 as int);
        lemma_digit_run_end(t@, j4 as int);
    }
    let end = e5 + 13;
    let p = capture_value(t, j, e1);
    let f = capture_value(t, j2, e2);
    let m = capture_value(t, j4, e4);
    Some((p, f, m, end))
}

fn gap_end_exec(t: &Vec<char>, j: usize) -> (r: Option<(usize, (u32, u32, u32, usize))>)
    requires
        j <= t@.len(),
    ensures
        r is None ==> gap_end(t@, j as int) is None,
        r matches Some((k, (p, f, m, end))) ==> {
            &&& gap_end(t@, j as int) == Some(k as int)
            &&& tail_at(t@, k as int) == Some((p as nat, f as nat, m as nat, end as int))
        },
{
    let n = t.len();
    let mut x = j;
    while x < n
        invariant
            j <= x <= n,
            n == t@.len(),
            gap_end(t@, j as int) == gap_end(t@, x as int),
        decreases n - x,
    {
        if t[x] == ' ' {
            match tail_at_exec(t, x + 1) {
                Some(res) => {
                    return Some((x + 1, res));
                },
                None => {},
            }
        }
        if t[x] == '\n' {
            return None;
        }
        x = x + 1;
    }
    None
}

/// Parse a test runner's report into `(total_tests, passed_tests)`.
///
/// Every summary block in the text contributes its `passed + failed +
/// measured` to the total and its `passed` to the passed count, except
/// blocks that ran nothing, which contribute nothing at all. Text
/// around and between blocks is ignored. Totals beyond `u32::MAX`
/// saturate.
pub fn parse_test_summary(output: &str) -> (r: (u32, u32))
    ensures
        r.0 as nat == clamp_u32(spec_parse(output@).0),
        r.1 as nat == clamp_u32(spec_parse(output@).1),
        r.1 <= r.0,
{
    let t = chars_of(output);
    let n = t.len();
    let mut total: u32 = 0;
    let mut passed: u32 = 0;
    let ghost mut done_total: nat = 0;
    let ghost mut done_passed: nat = 0;
    let mut i: usize = 0;
    while i < n
        invariant
            n == t@.len(),
            t@ == output@,
            i <= n,
            spec_parse(t@).0 == done_total + spec_scan(t@, i as int).0,
            spec_parse(t@).1 == done_passed + spec_scan(t@, i as int).1,
            done_passed <= done_total,
            total as nat == clamp_u32(done_total),
            passed as nat == clamp_u32(done_passed),
        decreases n - i,
    {
        let mut next: usize = i + 1;
        if occurs_at(&t, i, "test result: ") {
            proof {
                reveal_strlit("test result: ");
                assert("test result: "@.len() == 13);
            }
            match gap_end_exec(&t, i + 13) {
                Some((_k, (p, f, m, end))) => {
                    proof {
                        assert(match_from(t@, i as int) == Some(
                            (p as nat, f as nat, m as nat, end as int),
                        ));
                        lemma_match_from_bounds(t@, i as int);
                    }
                    let run: u64 = p as u64 + f as u64 + m as u64;
                    if run > 0 {
                        total = saturating_add_u32(total, run);
                        passed = saturating_add_u32(passed, p as u64);
                        proof {
                            done_total = done_total + (p + f + m) as nat;
                            done_passed = done_passed + p as nat;
                        }
                    }
                    next = end;
                },
                None => {
                    proof {
                        assert(match_from(t@, i as int) is None);
                    }
                },
            }
        } else {
            proof {
                assert(match_from(t@, i as int) is None);
            }
        }
        i = next;
    }
    proof {
        assert(spec_scan(t@, i as int) == (0nat, 0nat));
    }
    (total, passed)
}

/// No scan ever reports more passed tests than tests run.
pub proof fn lemma_scan_passed_le(t: Seq<char>, i: int)
    ensures
        spec_scan(t, i).1 <= spec_scan(t, i).0,
    decreases t.len() - i,
{
    if 0 <= i < t.len() {
        match match_from(t, i) {
            Some((p, f, m, end)) => {
                lemma_match_from_bounds(t, i);
                lemma_scan_passed_le(t, end);
            },
            None => {
                lemma_scan_passed_le(t, i + 1);
            },
        }
    }
}

/// A stretch of text with no block start contributes nothing: scanning
/// may begin after it.
pub proof fn lemma_scan_skip(t: Seq<char>, a: int, b: int)
    requires
        0 <= a <= b <= t.len(),
        forall|j: int| a <= j < b ==> match_from(t, j) is None,
    ensures
        spec_scan(t, a) == spec_scan(t, b),
    decreases b - a,
{
    if a < b {
        lemma_scan_skip(t, a + 1, b);
    }
}

/// Text with no summary block at all parses to `(0, 0)`.
pub proof fn lemma_parse_no_match(t: Seq<char>)
    requires
        forall|j: int| 0 <= j < t.len() ==> match_from(t, j) is None,
    ensures
        spec_parse(t) == (0nat, 0nat),
{
    lemma_scan_skip(t, 0, t.len() as int);
}

/// Blocks sum: the first block of the text contributes its counts on
/// top of whatever the rest of the text parses to — or, if it ran
/// nothing, contributes nothing to either total.
pub proof fn lemma_parse_first_block(t: Seq<char>, i: int)
    requires
        0 <= i,
        match_from(t, i) is Some,
        forall|j: int| 0 <= j < i ==> match_from(t, j) is None,
    ensures
        ({
            let (p, f, m, end) = match_from(t, i)->Some_0;
            let rest = spec_scan(t, end);
            spec_parse(t) == if p + f + m == 0 {
                rest
            } else {
                ((p + f + m + rest.0) as nat, (p + rest.1) as nat)
            }
        }),
{
    lemma_match_from_bounds(t, i);
    lemma_scan_skip(t, 0, i);
}

/// A well-formed report with a single block parses to exactly
/// `(passed + failed + measured, passed)`.
pub proof fn lemma_parse_single_block(t: Seq<char>, i: int)
    requires
        0 <= i,
        match_from(t, i) is Some,
        forall|j: int| 0 <= j < i ==> match_from(t, j) is None,
        forall|j: int|
            match_from(t, i)->Some_0.3 <= j < t.len() ==> match_from(t, j) is None,
    ensures
        ({
            let (p, f, m, end) = match_from(t, i)->Some_0;
            spec_parse(t) == (((p + f + m) as nat, p))
        }),
{
    let (p, f, m, end) = match_from(t, i)->Some_0;
    lemma_match_from_bounds(t, i);
    lemma_parse_first_block(t, i);
    lemma_scan_skip(t, end, t.len() as int);
}

/// Where a grading attempt got before it was scored.
///
/// Attempts can fail before any tool runs — no resolvable repository
/// URL, a failed branch checkout, a failed fixture copy. Those are
/// recoverable conditions, not crashes: they score zero. An attempt
/// that reached the tools carries their captured outputs.
pub enum GradeRun {
    /// The pull request's repository offered no usable URL.
    NoRepoUrl,
    /// The source branch could not be checked out into the workspace.
    CheckoutFailed,
    /// The held-out test fixtures could not be copied over the checkout.
    FixtureCopyFailed,
    /// Tests and lint ran; their captured output streams.
    Executed { test_output: String, clippy_output: String },
}

/// The repository URL a pull request's repository reference resolves
/// to: the HTTPS clone URL if present, else the SSH URL, else the web
/// URL, else nothing.
pub open spec fn spec_repo_url(repo: Option<crate::pull_request::RepoRef>) -> Option<Seq<char>> {
    match repo {
        None => None,
        Some(rr) => if rr.clone_url is Some {
            Some(rr.clone_url->Some_0@)
        } else if rr.ssh_url is Some {
            Some(rr.ssh_url->Some_0@)
        } else if rr.html_url is Some {
            Some(rr.html_url->Some_0@)
        } else {
            None
        },
    }
}

/// Resolve the URL the candidate repository can be fetched from,
/// preferring the clone URL, then the SSH URL, then the web URL.
pub fn get_repo_url(pr: &PrInfo) -> (r: Option<String>)
    ensures
        r is Some <==> spec_repo_url(pr.repo) is Some,
        r matches Some(u) ==> spec_repo_url(pr.repo) == Some(u@),
{
    match &pr.repo {
        None => None,
        Some(rr) => {
            if let Some(u) = &rr.clone_url {
                Some(u.clone())
            } else if let Some(u) = &rr.ssh_url {
                Some(u.clone())
            } else if let Some(u) = &rr.html_url {
                Some(u.clone())
            } else {
                None
            }
        },
    }
}

/// Score one grading attempt.
///
/// An attempt that never reached the tools scores zero of zero with
/// empty outputs; an executed attempt is scored by parsing its test
/// report, and carries both outputs verbatim. Either way the score is
/// well formed: it never awards more points than it has.
pub fn score_of_run(run: GradeRun) -> (s: Score)
    ensures
        s.wf(),
        !(run matches GradeRun::Executed { .. }) ==> s.is_zero(),
        run matches GradeRun::Executed { test_output, clippy_output } ==> {
            &&& s.max_points as nat == clamp_u32(spec_parse(test_output@).0)
            &&& s.received_points as nat == clamp_u32(spec_parse(test_output@).1)
            &&& s.test_output@ == test_output@
            &&& s.clippy_output@ == clippy_output@
        },
{
    match run {
        GradeRun::Executed { test_output, clippy_output } => {
            let (total, passed) = parse_test_summary(test_output.as_str());
            Score { max_points: total, received_points: passed, test_output, clippy_output }
        },
        _ => Score::default(),
    }
}

} // verus!
