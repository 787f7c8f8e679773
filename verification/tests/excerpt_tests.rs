use simpla::extract_line_error::{extract_error_code, find_wrong_code, WrongLines};
use simpla::semantic_analysis::semantic_error::SemanticError;

static CODE: &'static str = r#"
        Lorem ipsum dolor sit amet,
        consectetur adipisci elit, 
        sed do eiusmod tempor incidunt ut labore 
        et dolore magna aliqua. Ut enim ad minim veniam,
        quis nostrum exercitationem ullamco laboriosam,
        nisi ut aliquid ex ea commodi consequatur. 
        Duis aute irure reprehenderit in voluptate 
        velit esse cillum dolore eu fugiat nulla pariatur.
        Excepteur sint obcaecat cupiditat non proident, 
        sunt in culpa qui officia deserunt mollit anim id est laborum.
        "#;

// word 'nostrum' on 6th line
const ONE_LINE_ERROR: (usize, usize) = (193, 200);

// start with 'Ut' on 5th line end with 'ea' on 7th line
const MULTIPLE_LINE_ERROR: (usize, usize) = (155, 265);

#[test]
fn test_wrong_code_constructor() {
    let (lines, token) = find_wrong_code(CODE, ONE_LINE_ERROR.0, ONE_LINE_ERROR.1);
    assert!(matches!(lines, WrongLines::Single(n) if n == 5));

    assert_eq!(token.begin, 180);
    assert_eq!(token.end, 235);

    let (lines, token) = find_wrong_code(CODE, MULTIPLE_LINE_ERROR.0, MULTIPLE_LINE_ERROR.1);
    assert!(matches!(lines, WrongLines::Multiple(begin, end) if begin == 4 && end == 6));

    assert_eq!(token.begin, 123);
    assert_eq!(token.end, 287);
}

#[test]
fn test_format_wrong_code() {
    let wrong_line = "        quis nostrum exercitationem ullamco laboriosam,";
    let correct_format = format!("Error on line: 6\n{}", wrong_line);
    let ans = extract_error_code(&CODE, ONE_LINE_ERROR.0, ONE_LINE_ERROR.1);
    assert_eq!(correct_format, ans);

    let wrong_lines = r#"        et dolore magna aliqua. Ut enim ad minim veniam,
        quis nostrum exercitationem ullamco laboriosam,
        nisi ut aliquid ex ea commodi consequatur. "#;
    let correct_format = format!("Error from line: 5 to line: 7\n{}", wrong_lines);
    let ans = extract_error_code(&CODE, MULTIPLE_LINE_ERROR.0, MULTIPLE_LINE_ERROR.1);
    assert_eq!(ans, correct_format);
}

#[test]
fn test_format_break_error() {
    let msg = SemanticError::BreakOutsideLoop.format_error("body break; end.");
    assert_eq!(msg, "break error: break outside loop");
}

#[test]
fn test_format_unknown_variable() {
    let msg = SemanticError::UnknownVariable("ghost_name".to_owned()).format_error("x = 1;");
    assert_eq!(msg, "unknown variable error: ghost_name");
}

#[test]
fn test_format_points_at_span() {
    // a one-line source: the excerpt names line 1 and shows the line
    let code = "a = waldo;";
    let msg = SemanticError::MismatchedAssignment(
        simpla::semantic_analysis::semantic_error::MismatchedAssignment::new(
            "a".to_owned(),
            simpla::syntax_tree::Kind::Int,
            simpla::syntax_tree::Kind::Str,
            &simpla::syntax_tree::Location::new(0, 9),
        ),
    )
    .format_error(code);
    assert_eq!(
        msg,
        "assignment error: expected integer, found string in variable a assignment:\nError on line: 1\na = waldo;"
    );
}
