use pr_grader::comment::{decimal_string, format_score_comment};
use pr_grader::score::Score;

#[test]
fn decimal_rendering_is_exact() {
    assert_eq!(decimal_string(0), "0");
    assert_eq!(decimal_string(7), "7");
    assert_eq!(decimal_string(10), "10");
    assert_eq!(decimal_string(42), "42");
    assert_eq!(decimal_string(4294967295), "4294967295");
}

#[test]
fn comment_embeds_points_and_outputs() {
    let s = Score {
        max_points: 4,
        received_points: 3,
        test_output: String::from("all fine"),
        clippy_output: String::from("no lint"),
    };
    let body = format_score_comment(&s);
    assert_eq!(
        body,
        "## Test Results\n\n**Score:** 3/4\n\n### Test Output\n```\nall fine\n```\n\n### Clippy Output\n```\nno lint\n```"
    );
}

#[test]
fn comment_always_contains_the_marker() {
    let s = Score {
        max_points: 0,
        received_points: 0,
        test_output: String::new(),
        clippy_output: String::new(),
    };
    let body = format_score_comment(&s);
    assert!(body.contains("Score"));
}
