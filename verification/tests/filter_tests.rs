use rgx::filter::json_path::{extract, extract_str, parse_path, JsonValue, Segment};
use rgx::filter::{count_text, emitted_text, filter_lines, split_lines, FilterApp, FilterOptions, Outcome};

fn to_lines(strs: &[&str]) -> Vec<String> {
    strs.iter().map(|s| s.to_string()).collect()
}

#[test]
fn empty_pattern_passes_every_line() {
    let lines = to_lines(&["foo", "bar", "baz"]);
    let got = filter_lines(&lines, "", FilterOptions::default()).unwrap();
    assert_eq!(got, vec![0, 1, 2]);
}

#[test]
fn empty_pattern_with_invert_passes_nothing() {
    let lines = to_lines(&["foo", "bar", "baz"]);
    let got = filter_lines(
        &lines,
        "",
        FilterOptions {
            invert: true,
            case_insensitive: false,
        },
    )
    .unwrap();
    assert!(got.is_empty());
}

#[test]
fn simple_pattern_selects_matching_lines() {
    let lines = to_lines(&["hello 42", "world", "hello 99", "foo"]);
    let got = filter_lines(&lines, r"\d+", FilterOptions::default()).unwrap();
    assert_eq!(got, vec![0, 2]);
}

#[test]
fn invert_flag_selects_non_matching_lines() {
    let lines = to_lines(&["hello 42", "world", "hello 99", "foo"]);
    let got = filter_lines(
        &lines,
        r"\d+",
        FilterOptions {
            invert: true,
            case_insensitive: false,
        },
    )
    .unwrap();
    assert_eq!(got, vec![1, 3]);
}

#[test]
fn case_insensitive_flag() {
    let lines = to_lines(&["Error: boom", "OK", "ERROR again"]);
    let got = filter_lines(
        &lines,
        "error",
        FilterOptions {
            invert: false,
            case_insensitive: true,
        },
    )
    .unwrap();
    assert_eq!(got, vec![0, 2]);
}

#[test]
fn invalid_pattern_returns_err() {
    let lines = to_lines(&["a"]);
    let got = filter_lines(&lines, "(unclosed", FilterOptions::default());
    assert!(got.is_err());
}

#[test]
fn invalid_pattern_error_names_compile_error() {
    let lines = to_lines(&["a"]);
    let err = filter_lines(&lines, "(unclosed", FilterOptions::default()).unwrap_err();
    assert!(err.starts_with("Compile error: "));
}

#[test]
fn plain_and_inverted_filters_partition_the_lines() {
    let lines = to_lines(&["a1", "b", "c2", "d", "e3"]);
    let plain = filter_lines(&lines, r"\d", FilterOptions::default()).unwrap();
    let inverted = filter_lines(
        &lines,
        r"\d",
        FilterOptions {
            invert: true,
            case_insensitive: false,
        },
    )
    .unwrap();
    let mut all: Vec<usize> = plain.iter().chain(inverted.iter()).copied().collect();
    all.sort();
    assert_eq!(all, vec![0, 1, 2, 3, 4]);
    assert!(plain.iter().all(|i| !inverted.contains(i)));
}

#[test]
fn filter_app_empty_pattern_shows_all_lines() {
    let lines = to_lines(&["one", "two", "three"]);
    let app = FilterApp::new(lines, "", FilterOptions::default());
    assert_eq!(app.matched, vec![0, 1, 2]);
    assert_eq!(app.outcome, Outcome::Pending);
    assert!(app.error.is_none());
}

#[test]
fn filter_app_applies_initial_pattern() {
    let lines = to_lines(&["error 1", "ok", "error 2"]);
    let app = FilterApp::new(lines, "error", FilterOptions::default());
    assert_eq!(app.matched, vec![0, 2]);
}

#[test]
fn filter_app_invalid_pattern_sets_error() {
    let lines = to_lines(&["a"]);
    let app = FilterApp::new(lines, "(unclosed", FilterOptions::default());
    assert!(app.error.is_some());
    assert!(app.matched.is_empty());
}

#[test]
fn filter_app_toggle_invert_flips_match_set() {
    let lines = to_lines(&["error 1", "ok", "error 2"]);
    let mut app = FilterApp::new(lines, "error", FilterOptions::default());
    assert_eq!(app.matched, vec![0, 2]);
    app.toggle_invert();
    assert_eq!(app.matched, vec![1]);
}

#[test]
fn filter_app_toggle_case_insensitive_recomputes() {
    let lines = to_lines(&["ERROR one", "ok", "error two"]);
    let mut app = FilterApp::new(lines.clone(), "error", FilterOptions::default());
    assert_eq!(app.matched, vec![2]);
    app.toggle_case_insensitive();
    assert_eq!(app.matched, vec![0, 2]);
}

#[test]
fn filter_app_selection_clamps_on_pattern_change() {
    let lines = to_lines(&["a", "b", "c", "d"]);
    let mut app = FilterApp::new(lines, "", FilterOptions::default());
    app.selected = 3;
    // Change pattern — now only one line matches.
    app.pattern_editor = rgx::input::editor::Editor::with_content("a".to_string());
    app.recompute();
    assert_eq!(app.matched, vec![0]);
    assert_eq!(app.selected, 0);
}

#[test]
fn filter_app_records_match_spans() {
    let lines = to_lines(&["a1b22", "none"]);
    let app = FilterApp::new(lines, r"\d+", FilterOptions::default());
    assert_eq!(app.matched, vec![0]);
    assert_eq!(app.match_spans, vec![vec![1..2, 3..5]]);
}

#[test]
fn filter_app_inverted_lines_have_no_spans() {
    let lines = to_lines(&["a1", "none"]);
    let mut app = FilterApp::new(lines, r"\d", FilterOptions::default());
    app.toggle_invert();
    assert_eq!(app.matched, vec![1]);
    assert_eq!(app.match_spans, vec![Vec::<std::ops::Range<usize>>::new()]);
}

#[test]
fn filter_app_json_mode_matches_extracted_fields() {
    let lines = to_lines(&[r#"{"msg":"boom"}"#, r#"{"msg":"ok"}"#, "not json"]);
    let extracted = vec![Some("boom".to_string()), Some("ok".to_string()), None];
    let app = FilterApp::with_json_extracted(lines, extracted, "o", FilterOptions::default());
    assert_eq!(app.matched, vec![0, 1]);
    assert_eq!(app.match_spans, vec![vec![1..2, 2..3], vec![0..1]]);
}

#[test]
fn filter_app_json_mode_skips_missing_fields_even_inverted() {
    let lines = to_lines(&["x", "y"]);
    let extracted = vec![Some("abc".to_string()), None];
    let options = FilterOptions {
        invert: true,
        case_insensitive: false,
    };
    let app = FilterApp::with_json_extracted(lines.clone(), extracted.clone(), "zzz", options);
    assert_eq!(app.matched, vec![0]);
    let empty = FilterApp::with_json_extracted(lines, extracted, "", FilterOptions::default());
    assert_eq!(empty.matched, vec![0]);
}

#[test]
fn filter_app_selection_moves_within_bounds() {
    let lines = to_lines(&["a", "a", "a"]);
    let mut app = FilterApp::new(lines, "a", FilterOptions::default());
    app.select_prev();
    assert_eq!(app.selected, 0);
    app.select_next();
    app.select_next();
    app.select_next();
    assert_eq!(app.selected, 2);
    app.select_prev();
    assert_eq!(app.selected, 1);
}

#[test]
fn filter_app_pattern_reads_the_editor() {
    let app = FilterApp::new(to_lines(&["x"]), "x+", FilterOptions::default());
    assert_eq!(app.pattern(), "x+");
}

#[test]
fn parse_path_keys_and_indices() {
    assert_eq!(
        parse_path(".steps[0].text").unwrap(),
        vec![
            Segment::Key("steps".to_string()),
            Segment::Index(0),
            Segment::Key("text".to_string())
        ]
    );
    assert_eq!(parse_path("[12]").unwrap(), vec![Segment::Index(12)]);
    assert_eq!(parse_path("._a1").unwrap(), vec![Segment::Key("_a1".to_string())]);
}

#[test]
fn parse_path_errors_name_the_position() {
    assert_eq!(parse_path("").unwrap_err(), "empty path");
    assert_eq!(parse_path(".").unwrap_err(), "expected identifier at position 1");
    assert_eq!(
        parse_path(".1").unwrap_err(),
        "expected identifier start at position 1, found '1'"
    );
    assert_eq!(parse_path("[]").unwrap_err(), "expected digits at position 1");
    assert_eq!(parse_path("[3").unwrap_err(), "expected ']' at position 2");
    assert_eq!(
        parse_path("x").unwrap_err(),
        "expected '.' or '[' at position 0, found 'x'"
    );
    assert!(parse_path("[99999999999999999999999]")
        .unwrap_err()
        .starts_with("invalid index \"99999999999999999999999\": "));
}

#[test]
fn read_input_from_in_memory_stdin() {
    let data = "foo\nbar\nbaz\n";
    let got = split_lines(data, 0);
    assert_eq!(got, vec!["foo", "bar", "baz"]);
}

#[test]
fn emit_matches_plain() {
    let lines = to_lines(&["alpha", "beta", "gamma"]);
    let matched = vec![0, 2];
    assert_eq!(emitted_text(&lines, &matched, false), "alpha\ngamma\n");
}

#[test]
fn emit_matches_with_line_numbers() {
    let lines = to_lines(&["alpha", "beta", "gamma"]);
    let matched = vec![0, 2];
    assert_eq!(emitted_text(&lines, &matched, true), "1:alpha\n3:gamma\n");
}

#[test]
fn emit_count_writes_number() {
    assert_eq!(count_text(7), "7\n");
}

#[test]
fn count_mode_returns_expected_count() {
    let lines = to_lines(&["one 1", "two", "three 3", "four 4"]);
    let options = FilterOptions::default();
    let matched = filter_lines(&lines, r"\d", options).unwrap();
    assert_eq!(count_text(matched.len()), "3\n");
}

#[test]
fn split_lines_handles_crlf_and_missing_final_newline() {
    assert_eq!(split_lines("a\r\nb\r\nc", 0), vec!["a", "b", "c"]);
    assert_eq!(split_lines("a\n\nb\n", 0), vec!["a", "", "b"]);
    assert_eq!(split_lines("", 0), Vec::<String>::new());
    assert_eq!(split_lines("tail\r", 0), vec!["tail\r"]);
}

#[test]
fn split_lines_caps_at_max_lines() {
    assert_eq!(split_lines("1\n2\n3\n4\n", 2), vec!["1", "2"]);
    assert_eq!(split_lines("1\n2\n", 5), vec!["1", "2"]);
}

fn record() -> JsonValue {
    // {"msg": "boom", "level": 3, "steps": [{"text": "first"}, {"text": 7}]}
    JsonValue::Object(vec![
        ("msg".to_string(), JsonValue::Str("boom".to_string())),
        ("level".to_string(), JsonValue::Number("3".to_string())),
        (
            "steps".to_string(),
            JsonValue::Array(vec![
                JsonValue::Object(vec![("text".to_string(), JsonValue::Str("first".to_string()))]),
                JsonValue::Object(vec![("text".to_string(), JsonValue::Number("7".to_string()))]),
            ]),
        ),
    ])
}

#[test]
fn extract_follows_keys_and_indices() {
    let v = record();
    let path = parse_path(".steps[0].text").unwrap();
    assert_eq!(extract_str(&v, &path), Some("first".to_string()));
    let path = parse_path(".msg").unwrap();
    assert_eq!(extract_str(&v, &path), Some("boom".to_string()));
}

#[test]
fn extract_misses_give_nothing() {
    let v = record();
    assert!(extract(&v, &parse_path(".nope").unwrap()).is_none());
    assert!(extract(&v, &parse_path(".steps[5]").unwrap()).is_none());
    assert!(extract(&v, &parse_path(".msg[0]").unwrap()).is_none());
    assert!(extract(&v, &parse_path(".steps.text").unwrap()).is_none());
}

#[test]
fn extract_str_skips_non_strings() {
    let v = record();
    assert!(extract(&v, &parse_path(".level").unwrap()).is_some());
    assert_eq!(extract_str(&v, &parse_path(".level").unwrap()), None);
    assert_eq!(extract_str(&v, &parse_path(".steps[1].text").unwrap()), None);
    assert!(matches!(extract(&v, &[]), Some(JsonValue::Object(_))));
}

#[test]
fn invert_twice_restores_matches() {
    let lines = to_lines(&["error 1", "ok", "error 2"]);
    let mut app = FilterApp::new(lines, "error", FilterOptions::default());
    let before = app.matched.clone();
    app.toggle_invert();
    assert_eq!(app.matched, vec![1]);
    app.toggle_invert();
    assert_eq!(app.matched, before);
}

#[test]
fn parse_path_quoted_keys() {
    assert_eq!(parse_path(r#"["user-id"]"#), Ok(vec![Segment::Key("user-id".to_string())]));
    assert_eq!(parse_path(r#".["日本語"]"#), Ok(vec![Segment::Key("日本語".to_string())]));
    assert_eq!(
        parse_path(r#".a["b.c"][2]"#),
        Ok(vec![Segment::Key("a".to_string()), Segment::Key("b.c".to_string()), Segment::Index(2)])
    );
    assert_eq!(parse_path(r#"["say \"hi\" \\ ok"]"#), Ok(vec![Segment::Key(r#"say "hi" \ ok"#.to_string())]));
    assert_eq!(parse_path(r#"[""]"#), Ok(vec![Segment::Key(String::new())]));
    assert_eq!(parse_path(".[0]"), Ok(vec![Segment::Index(0)]));
}

#[test]
fn parse_path_quoted_key_errors() {
    assert_eq!(parse_path(r#"["abc"#), Err("unterminated string at position 1".to_string()));
    assert_eq!(parse_path(r#"["a\nb"]"#), Err("invalid escape at position 3".to_string()));
    assert_eq!(parse_path(r#"["ab"x"#), Err("expected ']' at position 5".to_string()));
}
