use fps_enhancer::text::{insert_line_at, replace_multiple_parallel, replace_single_parallel};

#[test]
fn replace_single_swaps_the_numbered_line() {
    let content = String::from("alpha\nbeta\ngamma\n");
    let out = replace_single_parallel(content, 2, String::from("BETA")).unwrap();
    assert_eq!(out, "alpha\nBETA\ngamma");
}

#[test]
fn replace_single_rejects_number_past_the_text() {
    let content = String::from("alpha\nbeta");
    let err = replace_single_parallel(content, 5, String::from("x")).unwrap_err();
    assert_eq!(err, "Line number 5 out of bounds");
}

#[test]
fn replace_single_cannot_touch_the_last_line() {
    // a line is replaceable only while some line follows it
    let content = String::from("alpha\nbeta");
    let err = replace_single_parallel(content, 2, String::from("x")).unwrap_err();
    assert_eq!(err, "Line number 2 out of bounds");
}

#[test]
fn replace_multiple_applies_every_pair() {
    let content = String::from("a\nb\nc\nd\n");
    let reps = vec![
        (1, String::from("A")),
        (3, String::from("C")),
    ];
    let out = replace_multiple_parallel(content, &reps).unwrap();
    assert_eq!(out, "A\nb\nC\nd");
}

#[test]
fn replace_multiple_names_the_bad_line_number() {
    let content = String::from("a\nb\n");
    let reps = vec![(1, String::from("A")), (9, String::from("X"))];
    let err = replace_multiple_parallel(content, &reps).unwrap_err();
    assert_eq!(err, "Line number 9 out of bounds");
}

#[test]
fn insert_after_the_numbered_line() {
    let content = String::from("one\ntwo\nthree");
    let out = insert_line_at(content, 1, 1, String::from("mid")).unwrap();
    assert_eq!(out, "one\nmid\ntwo\nthree");
}

#[test]
fn insert_before_the_numbered_line() {
    let content = String::from("one\ntwo\nthree");
    let out = insert_line_at(content, 1, 0, String::from("first")).unwrap();
    assert_eq!(out, "first\none\ntwo\nthree");
}

#[test]
fn insert_with_unknown_mode_changes_nothing_but_joins() {
    let content = String::from("one\r\ntwo\r\n");
    let out = insert_line_at(content, 1, 7, String::from("x")).unwrap();
    assert_eq!(out, "one\ntwo");
}

#[test]
fn insert_past_the_text_is_out_of_bounds() {
    let content = String::from("one");
    let err = insert_line_at(content, 2, 1, String::from("x")).unwrap_err();
    assert_eq!(err, "Line number 2 out of bounds");
}

#[test]
fn windows_line_endings_are_normalised_by_the_rewrite() {
    let content = String::from("a\r\nb\r\nc\r\n");
    let out = replace_single_parallel(content, 1, String::from("A")).unwrap();
    assert_eq!(out, "A\nb\nc");
}
