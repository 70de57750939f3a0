use doc_as_test::DocAsTest;

#[test]
fn diff_of_equal_texts_is_empty_with_the_line_count() {
    let doc = DocAsTest::new("d", "a::d");
    let (message, line) = doc.extract_diff("A\nB", "A\nB");
    assert_eq!(message, "");
    assert_eq!(line, 2);
}

#[test]
fn diff_of_empty_texts() {
    let doc = DocAsTest::new("d", "a::d");
    let (message, line) = doc.extract_diff("", "");
    assert_eq!(message, "");
    assert_eq!(line, 1);
}

#[test]
fn diff_reports_first_divergence_with_both_lines() {
    let doc = DocAsTest::new("d", "a::d");
    let (message, line) = doc.extract_diff("ABC\nDEF", "ABC\nGHI");
    assert_eq!(message, "Line 2:\n    left : DEF\n    right: GHI");
    assert_eq!(line, 2);
}

#[test]
fn diff_stops_at_the_first_divergence_only() {
    let doc = DocAsTest::new("d", "a::d");
    let (message, line) = doc.extract_diff("a\nb\nc", "a\nx\ny");
    assert_eq!(message, "Line 2:\n    left : b\n    right: x");
    assert_eq!(line, 2);
}

#[test]
fn diff_when_right_is_longer() {
    let doc = DocAsTest::new("d", "a::d");
    let (message, line) = doc.extract_diff("A\nB", "A\nB\nC");
    assert_eq!(message, "Right is greater than left from line 3.");
    assert_eq!(line, 2);
}

#[test]
fn diff_when_left_is_longer() {
    let doc = DocAsTest::new("d", "a::d");
    let (message, line) = doc.extract_diff("A\nB\nC", "A\nB");
    assert_eq!(message, "Left is greater than right from line 3.");
    assert_eq!(line, 2);
}

#[test]
fn diff_counts_lines_past_nine() {
    let doc = DocAsTest::new("d", "a::d");
    let left = "a\na\na\na\na\na\na\na\na\na\na\na";
    let right = "a\na\na\na\na\na\na\na\na\na\na\nb";
    let (message, line) = doc.extract_diff(left, right);
    assert_eq!(message, "Line 12:\n    left : a\n    right: b");
    assert_eq!(line, 12);
}

#[test]
fn diff_sees_a_trailing_newline_as_an_extra_empty_line() {
    let doc = DocAsTest::new("d", "a::d");
    let (message, line) = doc.extract_diff("A", "A\n");
    assert_eq!(message, "Right is greater than left from line 2.");
    assert_eq!(line, 1);
}
