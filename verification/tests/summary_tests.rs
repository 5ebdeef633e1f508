use pr_grader::check_branch_manager::parse_test_summary;

#[test]
fn single_block_counts_passed_failed_measured() {
    let text = "test result: ok. 3 passed; 1 failed; 0 ignored; 0 measured; 0 filtered out";
    assert_eq!(parse_test_summary(text), (4, 3));
}

#[test]
fn single_block_inside_surrounding_noise() {
    let text = "running 5 tests\ntest a ... ok\ntest result: FAILED. 2 passed; 2 failed; 1 ignored; 1 measured; 0 filtered out\ndone\n";
    assert_eq!(parse_test_summary(text), (5, 2));
}

#[test]
fn no_matching_line_yields_zero() {
    let text = "nothing to see here\ncompiling...\n";
    assert_eq!(parse_test_summary(text), (0, 0));
}

#[test]
fn empty_text_yields_zero() {
    assert_eq!(parse_test_summary(""), (0, 0));
}

#[test]
fn incomplete_summary_line_is_ignored() {
    let text = "test result: ok. 3 passed; 1 failed;";
    assert_eq!(parse_test_summary(text), (0, 0));
}

#[test]
fn blocks_sum_and_zero_run_block_contributes_nothing() {
    let text = "test result: ok. 2 passed; 0 failed; 0 ignored; 0 measured; 0 filtered out\ntest result: ok. 0 passed; 0 failed; 0 ignored; 0 measured; 0 filtered out\n";
    assert_eq!(parse_test_summary(text), (2, 2));
}

#[test]
fn multiple_nonzero_blocks_sum() {
    let text = "test result: ok. 2 passed; 1 failed; 0 ignored; 0 measured; 0 filtered out\nsome unrelated line\ntest result: ok. 4 passed; 0 failed; 3 ignored; 1 measured; 2 filtered out\n";
    // 3 from the first block, 5 from the second; ignored and filtered
    // out never count.
    assert_eq!(parse_test_summary(text), (8, 6));
}

#[test]
fn counts_without_a_status_word_do_not_match() {
    // The shape asks for a status between `test result: ` and the
    // counts; with nothing in between there is no separating space and
    // the line does not match.
    let text = "test result: 3 passed; 1 failed; 0 ignored; 0 measured; 0 filtered out";
    assert_eq!(parse_test_summary(text), (0, 0));
}

#[test]
fn summary_split_across_lines_does_not_match() {
    let text = "test result: ok.\n3 passed; 1 failed; 0 ignored; 0 measured; 0 filtered out";
    assert_eq!(parse_test_summary(text), (0, 0));
}

#[test]
fn oversized_capture_reads_as_zero() {
    let text =
        "test result: ok. 99999999999 passed; 1 failed; 0 ignored; 0 measured; 0 filtered out";
    // The passed capture overflows and is treated as zero; the block
    // still ran one (failed) test.
    assert_eq!(parse_test_summary(text), (1, 0));
}

#[test]
fn accented_noise_around_a_block_is_ignored() {
    let text = "r\u{e9}sum\u{e9}\ntest result: ok. 1 passed; 0 failed; 0 ignored; 0 measured; 0 filtered out\nfin\u{2603}";
    assert_eq!(parse_test_summary(text), (1, 1));
}

#[test]
fn totals_saturate_instead_of_overflowing() {
    let text = "test result: ok. 4294967295 passed; 4294967295 failed; 0 ignored; 4294967295 measured; 0 filtered out";
    // One block runs three times u32::MAX tests; the total saturates,
    // and the passed count is exactly u32::MAX.
    assert_eq!(parse_test_summary(text), (u32::MAX, u32::MAX));
}

#[test]
fn ignored_and_filtered_do_not_count() {
    let text = "test result: ok. 0 passed; 0 failed; 7 ignored; 0 measured; 9 filtered out";
    assert_eq!(parse_test_summary(text), (0, 0));
}
