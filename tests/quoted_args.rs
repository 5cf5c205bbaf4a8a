use mdfmt::quoted_args::parse_quoted_args;

#[test]
fn quoted_args_empty() {
    assert_eq!(parse_quoted_args(""), Vec::<String>::new());
}

#[test]
fn unquoted_string() {
    assert_eq!(parse_quoted_args("foo"), vec!["foo"]);
}

#[test]
fn quoted_string() {
    assert_eq!(parse_quoted_args("\"foo bar\""), vec!["foo bar"]);
}

#[test]
fn escaped_string() {
    assert_eq!(parse_quoted_args("\"fo\\\"o\""), vec!["fo\"o"]);
}

#[test]
fn multiple_unquoted_string() {
    assert_eq!(parse_quoted_args("foo bar"), vec!["foo", "bar"]);
}

#[test]
fn multiple_quoted_string() {
    assert_eq!(
        parse_quoted_args("\"foo bar\" \"bar baz\""),
        vec!["foo bar", "bar baz"]
    );
}

#[test]
fn multiple_escaped_string() {
    assert_eq!(
        parse_quoted_args("\"foo b\\\"ar\" \"bar baz\""),
        vec!["foo b\"ar", "bar baz"]
    );
}

#[test]
fn quoted_args_extra_spaces_and_trailing_backslash() {
    assert_eq!(parse_quoted_args("  a   b \\"), vec!["a", "b"]);
}
