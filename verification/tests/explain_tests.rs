use rgx::explain::explain;
use rgx::explain::tree::{Anchor, GroupType, PerlClass, RegexAst, Repeat, Span};
use rgx::explain::visitor::ExplainVisitor;

#[test]
fn explain_empty() {
    let nodes = explain("").unwrap();
    assert!(nodes.is_empty());
}

#[test]
fn explain_literal() {
    let nodes = explain("hello").unwrap();
    assert!(!nodes.is_empty());
    assert!(nodes.iter().any(|n| n.description.contains("Literal")));
}

#[test]
fn explain_digit() {
    let nodes = explain(r"\d").unwrap();
    assert!(!nodes.is_empty());
    assert!(nodes
        .iter()
        .any(|n| n.description.to_lowercase().contains("digit")));
}

#[test]
fn explain_word_char() {
    let nodes = explain(r"\w").unwrap();
    assert!(nodes
        .iter()
        .any(|n| n.description.to_lowercase().contains("word")));
}

#[test]
fn explain_whitespace() {
    let nodes = explain(r"\s").unwrap();
    assert!(nodes
        .iter()
        .any(|n| n.description.to_lowercase().contains("whitespace")));
}

#[test]
fn explain_quantifiers() {
    let nodes = explain(r"\d+").unwrap();
    assert!(nodes
        .iter()
        .any(|n| n.description.to_lowercase().contains("one or more")));

    let nodes = explain(r"\d*").unwrap();
    assert!(nodes
        .iter()
        .any(|n| n.description.to_lowercase().contains("zero or more")));

    let nodes = explain(r"\d?").unwrap();
    assert!(nodes
        .iter()
        .any(|n| n.description.to_lowercase().contains("optional")));
}

#[test]
fn explain_range_quantifier() {
    let nodes = explain(r"\d{3}").unwrap();
    assert!(nodes.iter().any(|n| n.description.contains("Exactly 3")));

    let nodes = explain(r"\d{2,5}").unwrap();
    assert!(nodes
        .iter()
        .any(|n| n.description.contains("Between 2 and 5")));
}

#[test]
fn explain_capture_group() {
    let nodes = explain(r"(\w+)").unwrap();
    assert!(nodes
        .iter()
        .any(|n| n.description.to_lowercase().contains("capture group")));
}

#[test]
fn explain_named_capture() {
    let nodes = explain(r"(?P<name>\w+)").unwrap();
    assert!(nodes.iter().any(|n| n.description.contains("name")));
}

#[test]
fn explain_alternation() {
    let nodes = explain(r"cat|dog").unwrap();
    assert!(nodes
        .iter()
        .any(|n| n.description.to_lowercase().contains("either")));
}

#[test]
fn explain_anchors() {
    let nodes = explain(r"^\d+$").unwrap();
    assert!(nodes
        .iter()
        .any(|n| n.description.to_lowercase().contains("start")));
    assert!(nodes
        .iter()
        .any(|n| n.description.to_lowercase().contains("end")));
}

#[test]
fn explain_character_class() {
    let nodes = explain(r"[a-zA-Z]").unwrap();
    assert!(nodes
        .iter()
        .any(|n| n.description.to_lowercase().contains("character class")));
}

#[test]
fn explain_dot() {
    let nodes = explain(r".").unwrap();
    assert!(nodes
        .iter()
        .any(|n| n.description.to_lowercase().contains("any character")));
}

#[test]
fn explain_word_boundary() {
    let nodes = explain(r"\b").unwrap();
    assert!(nodes
        .iter()
        .any(|n| n.description.to_lowercase().contains("word boundary")));
}

#[test]
fn explain_lazy_quantifier() {
    let nodes = explain(r"\d+?").unwrap();
    assert!(nodes
        .iter()
        .any(|n| n.description.to_lowercase().contains("lazy")));
}

#[test]
fn explain_invalid_pattern() {
    assert!(explain(r"(unclosed").is_err());
}

#[test]
fn explain_complex_email() {
    let nodes = explain(r"[\w.+-]+@[\w-]+\.[\w.]+").unwrap();
    assert!(!nodes.is_empty());
    // Should contain multiple explanation nodes for this complex pattern
    assert!(nodes.len() > 3);
}

#[test]
fn test_empty_pattern() {
    let result = explain("").unwrap();
    assert!(result.is_empty());
}

#[test]
fn test_simple_literal() {
    let result = explain("hello").unwrap();
    assert!(!result.is_empty());
}

#[test]
fn test_digit_class() {
    let result = explain(r"\d+").unwrap();
    assert!(!result.is_empty());
    let text: String = result.iter().map(|n| n.description.clone()).collect();
    assert!(text.to_lowercase().contains("digit"));
}

#[test]
fn test_capture_group() {
    let result = explain(r"(\w+)@(\w+)").unwrap();
    assert!(!result.is_empty());
    let text: String = result.iter().map(|n| n.description.clone()).collect();
    assert!(text.to_lowercase().contains("group"));
}

#[test]
fn mod_test_invalid_pattern() {
    let result = explain(r"(unclosed");
    assert!(result.is_err());
    let (msg, offset) = result.unwrap_err();
    assert!(msg.contains("Parse error"));
    assert!(offset.is_some());
}

fn lines(pattern: &str) -> Vec<(usize, String)> {
    explain(pattern).unwrap().into_iter().map(|n| (n.depth, n.description)).collect()
}

#[test]
fn explain_lines_and_depths() {
    assert_eq!(
        lines(r"(\d+)|x"),
        vec![
            (0, "Either:".to_string()),
            (1, "Capture group #1".to_string()),
            (2, "One or more times".to_string()),
            (3, "Any digit character".to_string()),
            (1, "Or:".to_string()),
            (1, "Literal 'x'".to_string()),
        ]
    );
}

#[test]
fn explain_anchor_and_class_texts() {
    assert_eq!(
        lines(r"^[a-z]{2,}?\b$"),
        vec![
            (0, "Start of line".to_string()),
            (0, "At least 2 times (lazy)".to_string()),
            (1, "Character class [a-z]".to_string()),
            (0, "Word boundary".to_string()),
            (0, "End of line".to_string()),
        ]
    );
}

#[test]
fn explain_named_and_non_capturing_groups() {
    assert_eq!(
        lines(r"(?P<year>\d{4})(?:-)"),
        vec![
            (0, "Named capture group 'year' (#1)".to_string()),
            (1, "Exactly 4 times".to_string()),
            (2, "Any digit character".to_string()),
            (0, "Non-capturing group".to_string()),
            (1, "Literal '-'".to_string()),
        ]
    );
}

#[test]
fn explain_error_offset_counts_characters() {
    let (msg, offset) = explain("é(").unwrap_err();
    assert!(msg.starts_with("Parse error: "));
    assert_eq!(offset, Some(1));
}

#[test]
fn visitor_on_a_built_tree() {
    let t = RegexAst::Concat(vec![
        RegexAst::Assertion(Anchor::StartText, Span { start: 0, end: 2 }),
        RegexAst::Repetition(
            Repeat::Bounded(1, 3),
            true,
            Box::new(RegexAst::ClassPerl(PerlClass::Space, true, Span { start: 2, end: 4 })),
        ),
        RegexAst::Group(GroupType::Capture(1), Box::new(RegexAst::Empty)),
        RegexAst::Dot(Span { start: 11, end: 12 }),
    ]);
    let mut v = ExplainVisitor::new();
    v.visit(&t);
    let got: Vec<(usize, String)> = v.into_nodes().into_iter().map(|n| (n.depth, n.description)).collect();
    assert_eq!(
        got,
        vec![
            (0, "Start of text".to_string()),
            (0, "Between 1 and 3 times".to_string()),
            (1, "Any non-whitespace character".to_string()),
            (0, "Capture group #1".to_string()),
            (0, "Any character (except newline by default)".to_string()),
        ]
    );
}
