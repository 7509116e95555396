//! End-to-end scenarios for the statement accumulator: one accumulator
//! per candidate statement, driven through append / check_termination /
//! consume as a shell's read loop would.

use quote_terminator::quotes::QuoteTerminator;

#[test]
fn plain_line_is_complete() {
    let mut qt = QuoteTerminator::new(b"echo hello".to_vec());
    assert!(qt.check_termination());
    assert_eq!(qt.consume(), b"echo hello".to_vec());
}

#[test]
fn empty_line_is_complete() {
    let mut qt = QuoteTerminator::new(Vec::new());
    assert!(qt.check_termination());
    assert_eq!(qt.consume(), Vec::<u8>::new());
}

#[test]
fn single_quote_spans_two_lines() {
    let mut qt = QuoteTerminator::new(b"echo 'a".to_vec());
    assert!(!qt.check_termination());
    qt.append(b"b'".to_vec());
    assert!(qt.check_termination());
    assert_eq!(qt.consume(), b"echo 'a\nb'".to_vec());
}

#[test]
fn double_quote_spans_two_lines() {
    let mut qt = QuoteTerminator::new(b"echo \"a".to_vec());
    assert!(!qt.check_termination());
    qt.append(b"b\"".to_vec());
    assert!(qt.check_termination());
    assert_eq!(qt.consume(), b"echo \"a\nb\"".to_vec());
}

#[test]
fn comment_truncates_and_completes() {
    let mut qt = QuoteTerminator::new(b"echo foo # bye".to_vec());
    assert!(qt.check_termination());
    assert_eq!(qt.consume(), b"echo foo ".to_vec());
}

#[test]
fn comment_at_line_start() {
    let mut qt = QuoteTerminator::new(b"# all comment".to_vec());
    assert!(qt.check_termination());
    assert_eq!(qt.consume(), b"".to_vec());
}

#[test]
fn comment_at_second_position() {
    let mut qt = QuoteTerminator::new(b"x# y".to_vec());
    assert!(qt.check_termination());
    assert_eq!(qt.consume(), b"x".to_vec());
}

#[test]
fn hash_inside_word_is_no_comment() {
    let mut qt = QuoteTerminator::new(b"echo foo#bar".to_vec());
    assert!(qt.check_termination());
    assert_eq!(qt.consume(), b"echo foo#bar".to_vec());
}

#[test]
fn hash_inside_quotes_is_no_comment() {
    let mut qt = QuoteTerminator::new(b"echo '#'".to_vec());
    assert!(qt.check_termination());
    assert_eq!(qt.consume(), b"echo '#'".to_vec());
}

#[test]
fn array_joins_lines_with_space() {
    let mut qt = QuoteTerminator::new(b"let x = [1, 2".to_vec());
    assert!(!qt.check_termination());
    qt.append(b", 3]".to_vec());
    assert!(qt.check_termination());
    assert_eq!(qt.consume(), b"let x = [1, 2 , 3]".to_vec());
}

#[test]
fn nested_arrays_stay_open() {
    let mut qt = QuoteTerminator::new(b"[ [1".to_vec());
    assert!(!qt.check_termination());
    qt.append(b"] ]".to_vec());
    assert!(qt.check_termination());
    assert_eq!(qt.consume(), b"[ [1 ] ]".to_vec());
}

#[test]
fn bracket_inside_quotes_is_plain_text() {
    let mut qt = QuoteTerminator::new(b"echo '['".to_vec());
    assert!(qt.check_termination());
    assert_eq!(qt.consume(), b"echo '['".to_vec());
}

#[test]
fn stray_close_bracket_is_harmless() {
    let mut qt = QuoteTerminator::new(b"echo ]".to_vec());
    assert!(qt.check_termination());
    assert_eq!(qt.consume(), b"echo ]".to_vec());
}

#[test]
fn comment_leaves_array_open() {
    let mut qt = QuoteTerminator::new(b"let x = [1 # rest".to_vec());
    assert!(!qt.check_termination());
    qt.append(b"2]".to_vec());
    assert!(qt.check_termination());
    assert_eq!(qt.consume(), b"let x = [1 2]".to_vec());
}

#[test]
fn escape_continuation_trims_next_line() {
    let mut qt = QuoteTerminator::new(b"echo hi \\".to_vec());
    assert!(!qt.check_termination());
    qt.append(b"there".to_vec());
    assert!(qt.check_termination());
    assert_eq!(qt.consume(), b"echo hi there".to_vec());
}

#[test]
fn escape_continuation_trims_leading_whitespace() {
    let mut qt = QuoteTerminator::new(b"echo hi \\".to_vec());
    assert!(!qt.check_termination());
    qt.append(b"   there\t".to_vec());
    assert!(qt.check_termination());
    assert_eq!(qt.consume(), b"echo hi there".to_vec());
}

#[test]
fn escaped_quote_does_not_open() {
    let mut qt = QuoteTerminator::new(b"echo \\'".to_vec());
    assert!(qt.check_termination());
    assert_eq!(qt.consume(), b"echo \\'".to_vec());
}

#[test]
fn trailing_and_continues() {
    let mut qt = QuoteTerminator::new(b"true &&".to_vec());
    assert!(!qt.check_termination());
    qt.append(b"false".to_vec());
    assert!(qt.check_termination());
    assert_eq!(qt.consume(), b"true &&false".to_vec());
}

#[test]
fn trailing_or_continues() {
    let mut qt = QuoteTerminator::new(b"false ||".to_vec());
    assert!(!qt.check_termination());
    qt.append(b"true".to_vec());
    assert!(qt.check_termination());
    assert_eq!(qt.consume(), b"false ||true".to_vec());
}

#[test]
fn single_ampersand_is_complete() {
    let mut qt = QuoteTerminator::new(b"job &".to_vec());
    assert!(qt.check_termination());
    assert_eq!(qt.consume(), b"job &".to_vec());
}

#[test]
fn heredoc_collects_until_marker() {
    let mut qt = QuoteTerminator::new(b"cat <<EOF".to_vec());
    assert!(!qt.check_termination());
    qt.append(b"line1".to_vec());
    assert!(!qt.check_termination());
    qt.append(b"EOF".to_vec());
    assert!(qt.check_termination());
    assert_eq!(qt.consume(), b"cat <<EOF\nline1\nEOF\n".to_vec());
}

#[test]
fn heredoc_marker_is_trimmed_on_both_sides() {
    let mut qt = QuoteTerminator::new(b"cat <<END".to_vec());
    assert!(!qt.check_termination());
    qt.append(b"  body".to_vec());
    assert!(!qt.check_termination());
    qt.append(b" END ".to_vec());
    assert!(qt.check_termination());
    assert_eq!(qt.consume(), b"cat <<END\n  body\n END \n".to_vec());
}

#[test]
fn heredoc_inside_quotes_is_plain_text() {
    let mut qt = QuoteTerminator::new(b"echo '<<EOF'".to_vec());
    assert!(qt.check_termination());
    assert_eq!(qt.consume(), b"echo '<<EOF'".to_vec());
}

#[test]
fn triple_less_than_is_ordinary_text() {
    let mut qt = QuoteTerminator::new(b"cat <<<word".to_vec());
    assert!(qt.check_termination());
    assert_eq!(qt.consume(), b"cat <<<word".to_vec());
}

#[test]
fn single_less_than_is_ordinary_text() {
    let mut qt = QuoteTerminator::new(b"sort < file".to_vec());
    assert!(qt.check_termination());
    assert_eq!(qt.consume(), b"sort < file".to_vec());
}

#[test]
fn quote_closed_on_third_line() {
    let mut qt = QuoteTerminator::new(b"echo 'one".to_vec());
    assert!(!qt.check_termination());
    qt.append(b"two".to_vec());
    assert!(!qt.check_termination());
    qt.append(b"three'".to_vec());
    assert!(qt.check_termination());
    assert_eq!(qt.consume(), b"echo 'one\ntwo\nthree'".to_vec());
}

#[test]
fn escape_inside_open_quote_pops_and_trims() {
    let mut qt = QuoteTerminator::new(b"echo 'abc \\".to_vec());
    assert!(!qt.check_termination());
    qt.append(b"  def'".to_vec());
    assert!(qt.check_termination());
    assert_eq!(qt.consume(), b"echo 'abc def'".to_vec());
}
