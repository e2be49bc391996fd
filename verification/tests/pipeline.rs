//! End-to-end tests of `run`: the single boundary operation of the pipeline.

use tiger::run;

#[test]
fn run_empty_source_gives_empty_output() {
    assert_eq!(run(""), "");
}

#[test]
fn run_let_then_print() {
    assert_eq!(run("let x = \"hi\"; print x;"), "hi");
}

#[test]
fn run_undefined_variable_gives_placeholder() {
    assert_eq!(run("print missing;"), "[undefined variable: missing]");
}

#[test]
fn run_rebinding_last_write_wins() {
    assert_eq!(run("let x = \"a\"; let x = \"b\"; print x;"), "b");
}

#[test]
fn run_two_prints_newline_joined_no_trailing_newline() {
    assert_eq!(run("let a = \"1\"; let b = \"2\"; print a; print b;"), "1\n2");
}

#[test]
fn run_numeric_literal_stored_as_surface_text() {
    assert_eq!(run("let n = 42; print n;"), "42");
}

#[test]
fn run_float_literal_stored_as_surface_text() {
    assert_eq!(run("let n = 1.5; print n;"), "1.5");
}

#[test]
fn run_boolean_literal_stored_as_surface_text() {
    assert_eq!(run("let b = true; print b;"), "true");
}

#[test]
fn run_unterminated_string_does_not_fail() {
    assert_eq!(run("let x = \"oops"), "");
}

#[test]
fn run_unterminated_string_value_reaches_end_of_input() {
    assert_eq!(run("let x = \"oops; print x;"), "");
}

#[test]
fn run_skips_unrecognized_statements() {
    assert_eq!(run("if while print x;"), "[undefined variable: x]");
}

#[test]
fn run_delimiters_alone_are_no_ops() {
    assert_eq!(run("; { } ( ) ,"), "");
}

#[test]
fn run_print_of_string_literal_resolves_it_as_a_name() {
    assert_eq!(run("print \"hi\";"), "[undefined variable: hi]");
}

#[test]
fn run_let_takes_value_position_verbatim() {
    assert_eq!(run("let x y z; print x;"), "z");
}

#[test]
fn run_undefined_then_execution_continues() {
    assert_eq!(
        run("print missing; let x = \"ok\"; print x;"),
        "[undefined variable: missing]\nok"
    );
}

#[test]
fn run_unicode_whitespace_is_skipped() {
    assert_eq!(run("let\u{00A0}x\u{2003}=\u{3000}\"w\"; print x;"), "w");
}
