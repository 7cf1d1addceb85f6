use gemini_relay::clean_error_output;

#[test]
fn sanitize_removes_color_codes() {
    let input = "\u{1b}[31mTraceback\u{1b}[0m (most recent call last)";
    assert_eq!(clean_error_output(input), "Traceback (most recent call last)");
}

#[test]
fn sanitize_removes_cursor_column_codes() {
    let input = "\u{1b}[1;32mNameError\u{1b}[0G: name 'x' is not defined";
    assert_eq!(clean_error_output(input), "NameError: name 'x' is not defined");
}

#[test]
fn sanitize_trims_each_line() {
    let input = "  first line  \n\t second line \t\nthird";
    assert_eq!(clean_error_output(input), "first line\nsecond line\nthird");
}

#[test]
fn sanitize_keeps_interior_whitespace() {
    let input = "  a  b  ";
    assert_eq!(clean_error_output(input), "a  b");
}

#[test]
fn sanitize_empty_input() {
    assert_eq!(clean_error_output(""), "");
}

#[test]
fn sanitize_only_whitespace_lines() {
    assert_eq!(clean_error_output("   \n\t\n "), "\n\n");
}

#[test]
fn sanitize_carriage_returns_trimmed() {
    assert_eq!(clean_error_output("a\r\nb"), "a\nb");
}

#[test]
fn sanitize_output_has_no_sequence_even_when_nested() {
    // Deleting the inner sequence exposes an outer one; that one goes too.
    let input = "\u{1b}[\u{1b}[0m0m";
    assert_eq!(clean_error_output(input), "");
}

#[test]
fn sanitize_is_idempotent() {
    let input = " \u{1b}[33mwarning\u{1b}[0m: check \n   indent ";
    let once = clean_error_output(input);
    let twice = clean_error_output(&once);
    assert_eq!(once, twice);
}

#[test]
fn sanitize_keeps_plain_multiline_error() {
    let input = "Traceback (most recent call last):\n  File \"cell\", line 1\nNameError: name 'x' is not defined";
    assert_eq!(
        clean_error_output(input),
        "Traceback (most recent call last):\nFile \"cell\", line 1\nNameError: name 'x' is not defined"
    );
}

#[test]
fn sanitize_incomplete_sequence_is_kept() {
    // `ESC [ 31` without a final byte is not a complete sequence.
    let input = "\u{1b}[31 partial";
    assert_eq!(clean_error_output(input), "\u{1b}[31 partial");
}
