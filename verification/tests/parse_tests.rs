use cargo_testdox::parse_line;
use cargo_testdox::parse_test_results;
use cargo_testdox::ParseError;
use cargo_testdox::Status;
use cargo_testdox::TestResult;

#[test]
fn parse_line_fn_returns_expected_result() {
    assert_eq!(
        Ok(None),
        parse_line("    Finished `test` profile [unoptimized + debuginfo] target(s) in 0.20s")
    );
    assert_eq!(
        Ok(Some(TestResult {
            module: None,
            name: "foo".into(),
            status: Status::Pass,
        })),
        parse_line("test foo ... ok")
    );
    assert_eq!(
        Ok(Some(TestResult {
            module: Some("foo".into()),
            name: "does foo stuff".into(),
            status: Status::Pass,
        })),
        parse_line("test foo::tests::does_foo_stuff ... ok")
    );
    assert_eq!(
        Ok(Some(TestResult {
            module: None,
            name: "urls correctly extracts valid urls".into(),
            status: Status::Fail,
        })),
        parse_line("test tests::urls_correctly_extracts_valid_urls ... FAILED")
    );
    assert_eq!(
        Ok(Some(TestResult {
            module: Some("files".into()),
            name: "files can be sorted in descending order".into(),
            status: Status::Ignored,
        })),
        parse_line("test files::test::files_can_be_sorted_in_descending_order ... ignored")
    );
    assert_eq!(
        Ok(Some(TestResult {
            module: Some("files::test::foo".into()),
            name: "files can be sorted in descending order".into(),
            status: Status::Ignored,
        })),
        parse_line("test files::test::foo::tests::files_can_be_sorted_in_descending_order ... ignored")
    );
    assert_eq!(
        Ok(Some(TestResult {
            module: Some("files::test_foo".into()),
            name: "files can be sorted in descending order".into(),
            status: Status::Ignored,
        })),
        parse_line("test files::test_foo::files_can_be_sorted_in_descending_order ... ignored")
    );
    assert_eq!(Ok(None), parse_line("test src/lib.rs - find_top_n_largest_files (line 17) ... ok"));
    assert_eq!(
        Ok(Some(TestResult {
            module: Some("output_format".into()),
            name: "concise expects".into(),
            status: Status::Pass,
        })),
        parse_line("test output_format::_concise_expects ... ok")
    );
}

#[test]
fn parse_line_rejects_summary_line() {
    assert_eq!(Ok(None), parse_line("test result: ok. 5 passed; 0 failed; 0 ignored"));
}

#[test]
fn parse_line_rejects_line_without_separator() {
    assert_eq!(Ok(None), parse_line("test something_is_running"));
    assert_eq!(Ok(None), parse_line("running 3 tests"));
    assert_eq!(Ok(None), parse_line(""));
}

#[test]
fn parse_line_reports_unknown_status_token() {
    let got = parse_line("test foo ... banana");
    assert_eq!(
        Err(ParseError {
            token: "banana".into()
        }),
        got
    );
    let err = got.unwrap_err();
    assert_eq!("unhandled test status \"banana\"", err.message());
}

#[test]
fn status_from_token_covers_the_closed_vocabulary() {
    assert_eq!(Ok(Status::Pass), Status::from_token("ok"));
    assert_eq!(Ok(Status::Fail), Status::from_token("FAILED"));
    assert_eq!(Ok(Status::Ignored), Status::from_token("ignored"));
    assert_eq!(
        Err(ParseError {
            token: "passed".into()
        }),
        Status::from_token("passed")
    );
}

#[test]
fn parse_test_results_keeps_source_order() {
    let output = "running 3 tests\n\
                  test one_does_a_thing ... ok\n\
                  test alpha::tests::two_does_another ... FAILED\n\
                  test three_is_skipped ... ignored\n\
                  test result: FAILED. 1 passed; 1 failed; 1 ignored\n";
    let results = parse_test_results(output).unwrap();
    assert_eq!(3, results.len());
    assert_eq!("one does a thing", results[0].name);
    assert_eq!(Status::Pass, results[0].status);
    assert_eq!(Some("alpha".to_string()), results[1].module);
    assert_eq!("two does another", results[1].name);
    assert_eq!(Status::Fail, results[1].status);
    assert_eq!("three is skipped", results[2].name);
    assert_eq!(Status::Ignored, results[2].status);
}

#[test]
fn parse_test_results_handles_crlf_and_missing_final_newline() {
    let output = "test one ... ok\r\ntest two ... ok";
    let results = parse_test_results(output).unwrap();
    assert_eq!(2, results.len());
    assert_eq!("one", results[0].name);
    assert_eq!("two", results[1].name);
}

#[test]
fn parse_test_results_on_empty_output_is_empty() {
    assert_eq!(Ok(Vec::new()), parse_test_results(""));
}

#[test]
fn parse_test_results_stops_at_first_unknown_token() {
    let output = "test one ... ok\ntest two ... weird\ntest three ... ok\n";
    assert_eq!(
        Err(ParseError {
            token: "weird".into()
        }),
        parse_test_results(output)
    );
}

#[test]
fn render_includes_module_and_en_dash() {
    let with_module = TestResult {
        module: Some("foo".into()),
        name: "does foo stuff".into(),
        status: Status::Pass,
    };
    assert_eq!("\u{2714} foo \u{2013} does foo stuff", with_module.render());
    let without_module = TestResult {
        module: None,
        name: "fails".into(),
        status: Status::Fail,
    };
    assert_eq!("x fails", without_module.render());
    let ignored = TestResult {
        module: None,
        name: "waits".into(),
        status: Status::Ignored,
    };
    assert_eq!("? waits", ignored.render());
}

#[test]
fn glyphs_match_statuses() {
    assert_eq!('\u{2714}', Status::Pass.glyph());
    assert_eq!('x', Status::Fail.glyph());
    assert_eq!('?', Status::Ignored.glyph());
}
