use rgx::engine::fancy::FancyRegexEngine;
use rgx::engine::pcre2::{is_pcre2_10_45, is_version_10_45, uses_scs_verb, Pcre2Engine};
use rgx::engine::pcre2_debug::{build_offset_map, find_token_at_offset, offset_map_of, PatternToken};
use rgx::engine::rust_regex::RustRegexEngine;
use rgx::engine::replace::{expand_replacement, lookup_capture, replace_all};
use rgx::engine::{create_engine, detect_minimum_engine, is_engine_upgrade, EngineFlags, EngineKind};
use rgx::explain::parse_error;

#[test]
fn fancy_test_simple_match() {
    let engine = FancyRegexEngine;
    let flags = EngineFlags::default();
    let compiled = engine.compile(r"\d+", &flags).unwrap();
    let matches = compiled.find_matches("abc 123 def 456").unwrap();
    assert_eq!(matches.len(), 2);
    assert_eq!(matches[0].text, "123");
}

#[test]
fn fancy_test_lookahead() {
    let engine = FancyRegexEngine;
    let flags = EngineFlags::default();
    let compiled = engine.compile(r"\w+(?=@)", &flags).unwrap();
    let matches = compiled.find_matches("user@example.com").unwrap();
    assert_eq!(matches.len(), 1);
    assert_eq!(matches[0].text, "user");
}

#[test]
fn fancy_test_named_captures() {
    let engine = FancyRegexEngine;
    let flags = EngineFlags::default();
    let compiled = engine
        .compile(r"(?P<user>\w+)@(?P<domain>\w+)", &flags)
        .unwrap();
    let matches = compiled.find_matches("user@example").unwrap();
    assert_eq!(matches.len(), 1);
    assert_eq!(matches[0].captures.len(), 2);
    assert_eq!(matches[0].captures[0].name, Some("user".to_string()));
    assert_eq!(matches[0].captures[0].text, "user");
    assert_eq!(matches[0].captures[1].name, Some("domain".to_string()));
    assert_eq!(matches[0].captures[1].text, "example");
}

#[test]
fn test_lookbehind() {
    let engine = FancyRegexEngine;
    let flags = EngineFlags::default();
    let compiled = engine.compile(r"(?<=@)\w+", &flags).unwrap();
    let matches = compiled.find_matches("user@example.com").unwrap();
    assert_eq!(matches.len(), 1);
    assert_eq!(matches[0].text, "example");
}

#[test]
fn pcre2_test_simple_match() {
    let engine = Pcre2Engine;
    let flags = EngineFlags::default();
    let compiled = engine.compile(r"\d+", &flags).unwrap();
    let matches = compiled.find_matches("abc 123 def 456").unwrap();
    assert_eq!(matches.len(), 2);
    assert_eq!(matches[0].text, "123");
}

#[test]
fn pcre2_test_named_captures() {
    let engine = Pcre2Engine;
    let flags = EngineFlags::default();
    let compiled = engine
        .compile(r"(?P<user>\w+)@(?P<domain>\w+)", &flags)
        .unwrap();
    let matches = compiled.find_matches("user@example").unwrap();
    assert_eq!(matches.len(), 1);
    assert_eq!(matches[0].captures.len(), 2);
    assert_eq!(matches[0].captures[0].name, Some("user".to_string()));
    assert_eq!(matches[0].captures[0].text, "user");
    assert_eq!(matches[0].captures[1].name, Some("domain".to_string()));
    assert_eq!(matches[0].captures[1].text, "example");
}

#[test]
fn test_backreference() {
    let engine = Pcre2Engine;
    let flags = EngineFlags::default();
    let compiled = engine.compile(r"(\w+) \1", &flags).unwrap();
    let matches = compiled.find_matches("hello hello world").unwrap();
    assert_eq!(matches.len(), 1);
    assert_eq!(matches[0].text, "hello hello");
}

#[test]
fn pcre2_test_lookahead() {
    let engine = Pcre2Engine;
    let flags = EngineFlags::default();
    let compiled = engine.compile(r"\w+(?=@)", &flags).unwrap();
    let matches = compiled.find_matches("user@example.com").unwrap();
    assert_eq!(matches.len(), 1);
    assert_eq!(matches[0].text, "user");
}

#[test]
fn test_uses_scs_verb_detection() {
    assert!(uses_scs_verb(r"(a)(b+)(*scs:(1)a(*ACCEPT))(\2)"));
    assert!(uses_scs_verb(r"(a)(*SCS:b)"));
    assert!(uses_scs_verb(r"(a)(*SCAN_SUBSTRING:b)"));
    assert!(uses_scs_verb(r"(a)(*scan_substring:b)"));
    assert!(!uses_scs_verb(r"(\w+) \1"));
    assert!(!uses_scs_verb(r"(?<=@)\w+"));
    assert!(!uses_scs_verb(r"(*ACCEPT)"));
    assert!(!uses_scs_verb(r"(*FAIL)"));
}

#[test]
fn test_non_scs_patterns_unaffected_by_cve_guard() {
    if !is_pcre2_10_45() {
        let engine = Pcre2Engine;
        let flags = EngineFlags::default();
        assert!(engine.compile(r"\d+", &flags).is_ok());
        assert!(engine.compile(r"(?<=@)\w+", &flags).is_ok());
    }
}

#[test]
fn test_find_token_at_offset_empty() {
    let tokens: Vec<PatternToken> = Vec::new();
    assert_eq!(find_token_at_offset(&tokens, 0), None);
}

#[test]
fn rust_regex_test_simple_match() {
    let engine = RustRegexEngine;
    let flags = EngineFlags::default();
    let compiled = engine.compile(r"\d+", &flags).unwrap();
    let matches = compiled.find_matches("abc 123 def 456").unwrap();
    assert_eq!(matches.len(), 2);
    assert_eq!(matches[0].text, "123");
    assert_eq!(matches[1].text, "456");
}

#[test]
fn test_capture_groups() {
    let engine = RustRegexEngine;
    let flags = EngineFlags::default();
    let compiled = engine.compile(r"(\w+)@(\w+)\.(\w+)", &flags).unwrap();
    let matches = compiled.find_matches("user@example.com").unwrap();
    assert_eq!(matches.len(), 1);
    assert_eq!(matches[0].captures.len(), 3);
    assert_eq!(matches[0].captures[0].text, "user");
    assert_eq!(matches[0].captures[1].text, "example");
    assert_eq!(matches[0].captures[2].text, "com");
}

#[test]
fn rust_regex_test_named_captures() {
    let engine = RustRegexEngine;
    let flags = EngineFlags::default();
    let compiled = engine
        .compile(r"(?P<name>\w+)@(?P<domain>\w+)", &flags)
        .unwrap();
    let matches = compiled.find_matches("user@example").unwrap();
    assert_eq!(matches[0].captures[0].name, Some("name".to_string()));
    assert_eq!(matches[0].captures[1].name, Some("domain".to_string()));
}

#[test]
fn test_case_insensitive() {
    let engine = RustRegexEngine;
    let flags = EngineFlags {
        case_insensitive: true,
        ..Default::default()
    };
    let compiled = engine.compile(r"hello", &flags).unwrap();
    let matches = compiled.find_matches("Hello HELLO hello").unwrap();
    assert_eq!(matches.len(), 3);
}

#[test]
fn rust_regex_test_invalid_pattern() {
    let engine = RustRegexEngine;
    let flags = EngineFlags::default();
    let result = engine.compile(r"(unclosed", &flags);
    assert!(result.is_err());
}

#[test]
fn pcre2_empty_matches_after_the_start_are_skipped() {
    let engine = create_engine(EngineKind::Pcre2);
    let compiled = engine.compile("x*", &EngineFlags::default()).unwrap();
    let matches = compiled.find_matches("ab").unwrap();
    // an empty match at the start is kept; later empty matches at the
    // search position are stepped over
    assert_eq!(matches.len(), 1);
    assert_eq!(matches[0].start, 0);
    assert_eq!(matches[0].end, 0);
}

#[test]
fn wrap_pattern_prefixes_active_flags() {
    let flags = EngineFlags {
        case_insensitive: true,
        extended: true,
        ..Default::default()
    };
    assert_eq!(flags.wrap_pattern("a b"), "(?ix)a b");
    assert_eq!(EngineFlags::default().wrap_pattern("ab"), "ab");
}

#[test]
fn engine_cycle_returns_to_start() {
    let k = EngineKind::RustRegex;
    assert_eq!(k.next(), EngineKind::FancyRegex);
    assert_eq!(k.next().next(), EngineKind::Pcre2);
    assert_eq!(k.next().next().next(), EngineKind::RustRegex);
    assert_eq!(EngineKind::all().len(), 3);
}

#[test]
fn nearest_token_is_chosen_when_none_covers() {
    let tokens = vec![
        PatternToken { start: 0, end: 1, description: "a".to_string() },
        PatternToken { start: 5, end: 6, description: "b".to_string() },
    ];
    assert_eq!(find_token_at_offset(&tokens, 0), Some(0));
    assert_eq!(find_token_at_offset(&tokens, 4), Some(1));
    assert_eq!(find_token_at_offset(&tokens, 2), Some(0));
}

fn first_match(pattern: &str, text: &str) -> rgx::engine::Match {
    let engine = create_engine(EngineKind::RustRegex);
    let compiled = engine.compile(pattern, &EngineFlags::default()).unwrap();
    compiled.find_matches(text).unwrap().remove(0)
}

#[test]
fn expand_replacement_syntax() {
    let m = first_match(r"(?P<user>\w+)@(\w+)", "user@host");
    assert_eq!(expand_replacement("$2=$1", &m), "host=user");
    assert_eq!(expand_replacement("${user}!", &m), "user!");
    assert_eq!(expand_replacement("[$0|$&]", &m), "[user@host|user@host]");
    assert_eq!(expand_replacement("$$1", &m), "$1");
    assert_eq!(expand_replacement("$9x", &m), "x");
    assert_eq!(expand_replacement("cost: $", &m), "cost: $");
    assert_eq!(expand_replacement("${nope", &m), "${nope");
    assert_eq!(expand_replacement("é$1", &m), "éuser");
}

#[test]
fn lookup_capture_by_number_and_name() {
    let m = first_match(r"(?P<user>\w+)@(\w+)", "user@host");
    assert_eq!(lookup_capture(&m, "0").as_deref(), Some("user@host"));
    assert_eq!(lookup_capture(&m, "2").as_deref(), Some("host"));
    assert_eq!(lookup_capture(&m, "user").as_deref(), Some("user"));
    assert_eq!(lookup_capture(&m, "3"), None);
    assert_eq!(lookup_capture(&m, "other"), None);
}

#[test]
fn replace_all_keeps_text_between_matches() {
    let engine = create_engine(EngineKind::RustRegex);
    let compiled = engine.compile(r"\d", &EngineFlags::default()).unwrap();
    let text = "é1ü2";
    let matches = compiled.find_matches(text).unwrap();
    let result = replace_all(text, &matches, "<$0>");
    assert_eq!(result.output, "é<1>ü<2>");
    let spans: Vec<(usize, usize, bool)> =
        result.segments.iter().map(|s| (s.start, s.end, s.is_replacement)).collect();
    assert_eq!(spans, vec![(0, 2, false), (2, 5, true), (5, 7, false), (7, 10, true)]);
    // the segments tile the output
    let mut pos = 0;
    for s in &result.segments {
        assert_eq!(s.start, pos);
        assert!(s.start < s.end);
        pos = s.end;
    }
    assert_eq!(pos, result.output.len());
}

#[test]
fn minimum_engine_follows_pattern_syntax() {
    assert_eq!(detect_minimum_engine(r"\d+"), EngineKind::RustRegex);
    assert_eq!(detect_minimum_engine(r"foo(?=bar)"), EngineKind::FancyRegex);
    assert_eq!(detect_minimum_engine(r"(?<!x)y"), EngineKind::FancyRegex);
    assert_eq!(detect_minimum_engine(r"(\w)\1"), EngineKind::FancyRegex);
    assert_eq!(detect_minimum_engine(r"\((?:[^()]|(?R))*\)"), EngineKind::Pcre2);
    assert_eq!(detect_minimum_engine(r"(a)(?1)"), EngineKind::Pcre2);
    assert!(is_engine_upgrade(EngineKind::RustRegex, EngineKind::Pcre2));
    assert!(!is_engine_upgrade(EngineKind::Pcre2, EngineKind::FancyRegex));
    assert!(!is_engine_upgrade(EngineKind::FancyRegex, EngineKind::FancyRegex));
}

#[test]
fn parse_error_reports_character_position() {
    assert!(parse_error("").is_none());
    assert!(parse_error(r"a\d+").is_none());
    let (msg, offset) = parse_error("é(unclosed").unwrap();
    assert!(msg.starts_with("Parse error: "));
    assert_eq!(offset, 1);
}

#[test]
fn engine_error_messages() {
    let engine = create_engine(EngineKind::RustRegex);
    let err = match engine.compile("(", &EngineFlags::default()) {
        Err(e) => e,
        Ok(_) => panic!("expected a compile error"),
    };
    assert!(err.message().starts_with("Compile error: "));
    assert_eq!(EngineKind::Pcre2.label(), "PCRE2");
}

#[test]
fn test_offset_map_simple_literal() {
    let tokens = build_offset_map("abc");
    assert_eq!(tokens.len(), 3);
    assert_eq!(tokens[0].start, 0);
    assert_eq!(tokens[0].end, 1);
    assert_eq!(tokens[1].start, 1);
    assert_eq!(tokens[1].end, 2);
    assert_eq!(tokens[2].start, 2);
    assert_eq!(tokens[2].end, 3);
}

#[test]
fn test_offset_map_char_class() {
    let tokens = build_offset_map(r"[a-z]+");
    assert!(!tokens.is_empty());
    assert_eq!(tokens[0].start, 0);
}

#[test]
fn test_offset_map_groups() {
    let tokens = build_offset_map(r"(\d{3})-(\d{4})");
    assert!(!tokens.is_empty());
    let hyphen = tokens.iter().find(|t| t.description.contains('-'));
    assert!(hyphen.is_some());
}

#[test]
fn test_offset_map_empty_pattern() {
    let tokens = build_offset_map("");
    assert!(tokens.is_empty());
}

#[test]
fn test_find_token_at_offset_basic() {
    let tokens = build_offset_map("abc");
    assert_eq!(find_token_at_offset(&tokens, 0), Some(0));
    assert_eq!(find_token_at_offset(&tokens, 1), Some(1));
    assert_eq!(find_token_at_offset(&tokens, 2), Some(2));
}

#[test]
fn offset_map_token_texts() {
    let tokens = build_offset_map(r"^\d\S.[x]\b(?i)\pL$");
    let texts: Vec<(usize, usize, &str)> = tokens.iter().map(|t| (t.start, t.end, t.description.as_str())).collect();
    assert_eq!(
        texts,
        vec![
            (0, 1, "StartLine"),
            (1, 3, "Digit (\\d)"),
            (3, 5, "Whitespace (\\s)"),
            (5, 6, "Any character"),
            (6, 9, "Character class"),
            (9, 11, "WordBoundary"),
            (11, 15, "Flags"),
            (15, 18, "Unicode class"),
            (18, 19, "EndLine"),
        ]
    );
    assert!(build_offset_map("(unclosed").is_empty());
}

#[test]
fn offset_map_orders_and_keeps_first_per_start() {
    let tok = |start: usize, end: usize, d: &str| PatternToken { start, end, description: d.to_string() };
    let tokens = vec![tok(4, 5, "a"), tok(0, 1, "b"), tok(4, 6, "c"), tok(2, 3, "d"), tok(0, 2, "e")];
    let map = offset_map_of(&tokens);
    let got: Vec<(usize, &str)> = map.iter().map(|t| (t.start, t.description.as_str())).collect();
    assert_eq!(got, vec![(0, "b"), (2, "d"), (4, "a")]);
    assert!(offset_map_of(&Vec::new()).is_empty());
}

#[test]
fn replace_with_whole_match_gives_text_back() {
    for kind in [EngineKind::RustRegex, EngineKind::FancyRegex, EngineKind::Pcre2] {
        let engine = create_engine(kind);
        let compiled = engine.compile(r"\w+|ü", &EngineFlags::default()).unwrap();
        let text = "héllo, wörld — ü!";
        let matches = compiled.find_matches(text).unwrap();
        assert!(!matches.is_empty());
        assert_eq!(replace_all(text, &matches, "$0").output, text);
        assert_eq!(replace_all(text, &matches, "$&").output, text);
    }
}

#[test]
fn version_10_45_is_the_affected_one() {
    assert!(is_version_10_45(10, 45));
    assert!(!is_version_10_45(10, 46));
    assert!(!is_version_10_45(11, 45));
}

#[test]
fn reported_pcre2_version_is_the_affected_one() {
    assert!(is_pcre2_10_45());
    let engine = Pcre2Engine;
    let flags = EngineFlags::default();
    assert!(engine.compile(r"(*scs:(1)x)", &flags).is_err());
}

#[test]
fn offset_map_of_alternation_and_repetition() {
    let tokens = build_offset_map(r"(?:ab|c)+\w");
    let got: Vec<(usize, usize, String)> = tokens.iter().map(|t| (t.start, t.end, t.description.clone())).collect();
    assert_eq!(
        got,
        vec![
            (3, 4, "Literal 'a'".to_string()),
            (4, 5, "Literal 'b'".to_string()),
            (6, 7, "Literal 'c'".to_string()),
            (9, 11, "Word char (\\w)".to_string()),
        ]
    );
}

#[test]
fn pcre2_release_read_from_version_text() {
    assert_eq!(rgx::engine::pcre2::release_of("10.45 2025-02-21"), Some((10, 45)));
    assert_eq!(rgx::engine::pcre2::release_of("  10.46"), Some((10, 46)));
    assert_eq!(rgx::engine::pcre2::release_of("10.45.1 x"), Some((10, 45)));
    assert_eq!(rgx::engine::pcre2::release_of("10"), None);
    assert_eq!(rgx::engine::pcre2::release_of(""), None);
    assert_eq!(rgx::engine::pcre2::release_of("ten.45"), None);
}
