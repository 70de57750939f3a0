use doc_as_test::{DocAsTest, Verdict};

#[test]
fn basic_usage() {
    let mut doc = DocAsTest::new("Using DocAsTest", "doc_as_test::tests::basic_usage");
    doc.write("xyz");

    assert_eq!(doc.content(), "= Using DocAsTest\n\nxyz");
    let verdict = doc
        .checked_verdict(Some("= Using DocAsTest\n\nxyz"))
        .unwrap();
    assert!(matches!(verdict, Verdict::Pass));
}

#[test]
fn title_derivation() {
    let doc = DocAsTest::new("basic_usage", "a::b");
    assert_eq!(doc.title(), "Basic usage");

    let empty = DocAsTest::new("", "a::b");
    assert_eq!(empty.title(), "");
}

#[test]
fn title_does_not_replace_a_leading_underscore() {
    let doc = DocAsTest::new("_private_case", "a::b");
    assert_eq!(doc.title(), "_private case");
}

#[test]
fn title_uses_the_full_uppercase_mapping() {
    let doc = DocAsTest::new("\u{df}_sharp", "a::b");
    assert_eq!(doc.title(), "SS sharp");
}

#[test]
fn title_keeps_remainder_verbatim() {
    let doc = DocAsTest::new("my_Test_case", "a::b");
    assert_eq!(doc.title(), "My Test case");
}

#[test]
fn content_renders_header_blank_line_and_body() {
    let mut doc = DocAsTest::new("widget", "a::b");
    doc.write("alpha\n");
    doc.write("beta");
    assert_eq!(doc.content(), "= Widget\n\nalpha\nbeta");
}

#[test]
fn content_with_no_fragments() {
    let doc = DocAsTest::new("widget", "a::b");
    assert_eq!(doc.content(), "= Widget\n\n");
}

#[test]
fn filenames_replace_namespace_separators() {
    let doc = DocAsTest::new("x", "doc_as_test::tests::basic_usage");
    assert_eq!(
        doc.received_filename(),
        "./docs/doc_as_test/tests/basic_usage_received.adoc"
    );
    assert_eq!(
        doc.approved_filename(),
        "./docs/doc_as_test/tests/basic_usage_approved.adoc"
    );
}

#[test]
fn filenames_for_flat_identifier() {
    let doc = DocAsTest::new("x", "single");
    assert_eq!(doc.received_filename(), "./docs/single_received.adoc");
    assert_eq!(doc.approved_filename(), "./docs/single_approved.adoc");
}

#[test]
fn filenames_for_empty_identifier() {
    let doc = DocAsTest::new("x", "");
    assert_eq!(doc.received_filename(), "./docs/_received.adoc");
    assert_eq!(doc.approved_filename(), "./docs/_approved.adoc");
}

#[test]
fn matching_baseline_passes() {
    let mut doc = DocAsTest::new("widget", "a::widget");
    doc.write("alpha");
    assert_eq!(doc.content(), "= Widget\n\nalpha");
    let verdict = doc.checked_verdict(Some("= Widget\n\nalpha")).unwrap();
    assert!(matches!(verdict, Verdict::Pass));
}

#[test]
fn baseline_with_trailing_newlines_still_passes() {
    let mut doc = DocAsTest::new("widget", "a::widget");
    doc.write("alpha");
    let verdict = doc.checked_verdict(Some("= Widget\n\nalpha\n\n")).unwrap();
    assert!(matches!(verdict, Verdict::Pass));
}

#[test]
fn mismatch_reports_line_and_writes_trimmed_content() {
    let mut doc = DocAsTest::new("T", "a::t");
    doc.write("A\nC");
    match doc.checked_verdict(Some("= T\n\nA\nB")).unwrap() {
        Verdict::Pass => panic!("expected a mismatch"),
        Verdict::Mismatch {
            received,
            message,
            line,
        } => {
            assert_eq!(received, "= T\n\nA\nC");
            assert_eq!(message, "Line 4:\n    left : B\n    right: C");
            assert_eq!(line, 4);
        }
    }
}

#[test]
fn missing_baseline_is_an_empty_baseline() {
    let mut doc = DocAsTest::new("new", "a::n");
    doc.write("hello");
    match doc.checked_verdict(None).unwrap() {
        Verdict::Pass => panic!("expected a mismatch"),
        Verdict::Mismatch {
            received,
            message,
            line,
        } => {
            assert_eq!(received, "= New\n\nhello");
            assert_eq!(message, "Line 1:\n    left : \n    right: = New");
            assert_eq!(line, 1);
        }
    }
}

#[test]
fn rerun_that_matches_passes_again() {
    let mut first = DocAsTest::new("widget", "a::widget");
    first.write("alpha");
    match first.checked_verdict(Some("= Widget\n\nbeta")).unwrap() {
        Verdict::Mismatch { received, .. } => assert_eq!(received, "= Widget\n\nalpha"),
        Verdict::Pass => panic!("expected a mismatch"),
    }

    let mut rerun = DocAsTest::new("widget", "a::widget");
    rerun.write("beta");
    let verdict = rerun.checked_verdict(Some("= Widget\n\nbeta")).unwrap();
    assert!(matches!(verdict, Verdict::Pass));
}

#[test]
fn received_content_is_the_compared_content_byte_for_byte() {
    let mut doc = DocAsTest::new("widget", "a::widget");
    doc.write("alpha\ninner\n\n\n");
    match doc.checked_verdict(Some("something else")).unwrap() {
        Verdict::Mismatch { received, .. } => {
            // trailing newlines trimmed, interior ones kept
            assert_eq!(received, "= Widget\n\nalpha\ninner");
        }
        Verdict::Pass => panic!("expected a mismatch"),
    }
}

#[test]
fn content_mutation_is_append_only_and_ordered() {
    let mut doc = DocAsTest::new("t", "a::t");
    doc.write("one");
    doc.write(" ");
    doc.write("two");
    assert_eq!(doc.content(), "= T\n\none two");
}
