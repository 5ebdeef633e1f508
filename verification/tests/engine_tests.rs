use pr_grader::check_branch_manager::{get_repo_url, score_of_run, GradeRun};
use pr_grader::pull_request::{PrInfo, RepoRef};
use pr_grader::score::Score;

fn pr_with(clone_url: Option<&str>, ssh_url: Option<&str>, html_url: Option<&str>) -> PrInfo {
    PrInfo {
        number: 1,
        branch: String::from("t1"),
        repo: Some(RepoRef {
            clone_url: clone_url.map(String::from),
            ssh_url: ssh_url.map(String::from),
            html_url: html_url.map(String::from),
        }),
    }
}

#[test]
fn clone_url_is_preferred() {
    let pr = pr_with(Some("https://host/r.git"), Some("git@host:r.git"), Some("https://host/r"));
    assert_eq!(get_repo_url(&pr), Some(String::from("https://host/r.git")));
}

#[test]
fn ssh_url_is_the_first_fallback() {
    let pr = pr_with(None, Some("git@host:r.git"), Some("https://host/r"));
    assert_eq!(get_repo_url(&pr), Some(String::from("git@host:r.git")));
}

#[test]
fn web_url_is_the_last_fallback() {
    let pr = pr_with(None, None, Some("https://host/r"));
    assert_eq!(get_repo_url(&pr), Some(String::from("https://host/r")));
}

#[test]
fn no_urls_resolve_to_none() {
    let pr = pr_with(None, None, None);
    assert_eq!(get_repo_url(&pr), None);
}

#[test]
fn missing_repo_resolves_to_none() {
    let pr = PrInfo { number: 1, branch: String::from("t1"), repo: None };
    assert_eq!(get_repo_url(&pr), None);
}

#[test]
fn unresolvable_repo_grades_to_zero_score() {
    // A repository reference with no URL at all ends the attempt with
    // the zero score instead of failing.
    let pr = pr_with(None, None, None);
    assert_eq!(get_repo_url(&pr), None);
    let s = score_of_run(GradeRun::NoRepoUrl);
    assert_eq!(s.max_points, 0);
    assert_eq!(s.received_points, 0);
    assert_eq!(s.test_output, "");
    assert_eq!(s.clippy_output, "");
}

#[test]
fn failed_checkout_scores_zero() {
    let s = score_of_run(GradeRun::CheckoutFailed);
    assert_eq!((s.max_points, s.received_points), (0, 0));
}

#[test]
fn failed_fixture_copy_scores_zero() {
    let s = score_of_run(GradeRun::FixtureCopyFailed);
    assert_eq!((s.max_points, s.received_points), (0, 0));
}

#[test]
fn executed_run_is_scored_from_the_test_report() {
    let report =
        "test result: ok. 3 passed; 1 failed; 0 ignored; 0 measured; 0 filtered out";
    let s = score_of_run(GradeRun::Executed {
        test_output: String::from(report),
        clippy_output: String::from("warning: unused variable"),
    });
    assert_eq!(s.max_points, 4);
    assert_eq!(s.received_points, 3);
    assert_eq!(s.test_output, report);
    assert_eq!(s.clippy_output, "warning: unused variable");
    assert!(s.received_points <= s.max_points);
}

#[test]
fn default_score_is_zero() {
    let s = Score::default();
    assert_eq!(s.max_points, 0);
    assert_eq!(s.received_points, 0);
    assert_eq!(s.test_output, "");
    assert_eq!(s.clippy_output, "");
}
