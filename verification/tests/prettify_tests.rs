use cargo_testdox::prettify;
use cargo_testdox::prettify_module;

#[test]
fn prettify_returns_expected_results() {
    assert_eq!(
        "anagrams must use all letters exactly once",
        prettify("anagrams_must_use_all_letters_exactly_once")
    );
    assert_eq!("no matches", prettify("no_matches"));
    assert_eq!("single", prettify("single"));
    assert_eq!("parse_line does stuff", prettify("parse_line_fn_does_stuff"));
    assert_eq!(
        "prettify handles multiple underscores",
        prettify("prettify__handles_multiple_underscores")
    );
    assert_eq!(
        "prettify handles multiple underscores",
        prettify("prettify_fn__handles_multiple_underscores")
    );
}

#[test]
fn prettify_without_marker_replaces_underscores_and_collapses_runs() {
    assert_eq!("a b c", prettify("a_b_c"));
    assert_eq!("a b", prettify("a___b"));
    assert_eq!("leading and trailing go", prettify("__leading_and_trailing_go__"));
    assert_eq!("", prettify(""));
    assert_eq!("", prettify("___"));
}

#[test]
fn prettify_collapses_whitespace_like_separators() {
    assert_eq!("a b", prettify("a \t b"));
    assert_eq!("a b", prettify("a_ _b"));
}

#[test]
fn prettify_splits_at_first_marker_only() {
    assert_eq!("parse_line parses a line", prettify("parse_line_fn_parses_a_line"));
    assert_eq!("head tail fn more", prettify("head_fn_tail_fn_more"));
}

#[test]
fn prettify_is_stable_on_already_prettified_text() {
    let once = prettify("no_matches");
    assert_eq!(once, prettify(&once));
    let twice = prettify(&prettify("anagrams_must_use_all_letters_exactly_once"));
    assert_eq!("anagrams must use all letters exactly once", twice);
}

#[test]
fn prettify_module_strips_one_trailing_marker_segment() {
    assert_eq!(Some("foo".to_string()), prettify_module("foo::tests"));
    assert_eq!(Some("foo".to_string()), prettify_module("foo::test"));
    assert_eq!(None, prettify_module("tests"));
    assert_eq!(None, prettify_module("test"));
    assert_eq!(Some("files::test::foo".to_string()), prettify_module("files::test::foo::tests"));
    assert_eq!(Some("files::test_foo".to_string()), prettify_module("files::test_foo"));
    assert_eq!(Some("a::b::c".to_string()), prettify_module("a::b::c"));
    assert_eq!(Some("".to_string()), prettify_module(""));
}
