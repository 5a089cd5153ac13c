use wasm_bindgen_cli_support::format::reset_indentation;

#[test]
fn formats_simple_block() {
    assert_eq!(reset_indentation("a {\nb\n}"), "a {\n    b\n}\n");
}

#[test]
fn formatting_twice_changes_nothing() {
    let once = reset_indentation("function f() {\n  if (x) {\n y();\n   }\n\n}\n");
    assert_eq!(once, "function f() {\n    if (x) {\n        y();\n    }\n\n}\n");
    assert_eq!(reset_indentation(&once), once);
}

#[test]
fn blank_lines_carry_no_indentation() {
    assert_eq!(reset_indentation("a {\n   \nb\n}"), "a {\n\n    b\n}\n");
}

#[test]
fn continuation_lines_go_one_deeper() {
    assert_eq!(
        reset_indentation("x = {\na\n? b\n: c\n}"),
        "x = {\n    a\n        ? b\n        : c\n}\n"
    );
}

#[test]
fn comment_lines_ending_in_brace_do_not_close() {
    assert_eq!(
        reset_indentation("/**\n* {@link x}\n*/"),
        "/**\n* {@link x}\n*/\n"
    );
}

#[test]
fn closing_below_zero_saturates() {
    assert_eq!(reset_indentation("}\n}\na"), "}\n}\na\n");
}

#[test]
fn line_closing_and_opening_stays_level() {
    assert_eq!(
        reset_indentation("if (a) {\nb\n} else {\nc\n}"),
        "if (a) {\n    b\n} else {\n    c\n}\n"
    );
}

#[test]
fn empty_input_gives_empty_output() {
    assert_eq!(reset_indentation(""), "");
}

#[test]
fn carriage_returns_and_tabs_are_trimmed() {
    assert_eq!(reset_indentation("\ta {\r\n\tb\r\n}\r\n"), "a {\n    b\n}\n");
}
