use rgx::engine::{CaptureGroup, Match};
use rgx::ui::highlight::{highlight_segments, HighlightSegment, SegmentKind};

fn cap(index: usize, start: usize, end: usize, text: &str) -> CaptureGroup {
    CaptureGroup { index, name: None, start, end, text: text.to_string() }
}

fn seg(start: usize, end: usize, kind: SegmentKind) -> HighlightSegment {
    HighlightSegment { start, end, kind }
}

#[test]
fn highlight_without_matches_is_plain() {
    assert_eq!(highlight_segments("abc", &vec![]), vec![seg(0, 3, SegmentKind::Plain)]);
    assert_eq!(highlight_segments("", &vec![]), vec![seg(0, 0, SegmentKind::Plain)]);
}

#[test]
fn highlight_matches_and_gaps() {
    let ms = vec![
        Match { start: 1, end: 3, text: "bc".to_string(), captures: vec![] },
        Match { start: 4, end: 5, text: "e".to_string(), captures: vec![] },
    ];
    assert_eq!(
        highlight_segments("abcdef", &ms),
        vec![
            seg(0, 1, SegmentKind::Plain),
            seg(1, 3, SegmentKind::Match),
            seg(3, 4, SegmentKind::Plain),
            seg(4, 5, SegmentKind::Match),
            seg(5, 6, SegmentKind::Plain),
        ]
    );
}

#[test]
fn highlight_capture_groups() {
    // "2024-01" matched by (\d+)-(\d+) inside "on 2024-01."
    let ms = vec![Match {
        start: 3,
        end: 10,
        text: "2024-01".to_string(),
        captures: vec![cap(1, 3, 7, "2024"), cap(2, 8, 10, "01")],
    }];
    assert_eq!(
        highlight_segments("on 2024-01.", &ms),
        vec![
            seg(0, 3, SegmentKind::Plain),
            seg(3, 7, SegmentKind::Capture(1)),
            seg(7, 8, SegmentKind::Match),
            seg(8, 10, SegmentKind::Capture(2)),
            seg(10, 11, SegmentKind::Plain),
        ]
    );
}

#[test]
fn highlight_nested_groups_show_the_inner_group() {
    // "abc" matched by (a(b)c): the inner group takes over where it starts,
    // and no text is shown twice.
    let ms = vec![Match {
        start: 0,
        end: 3,
        text: "abc".to_string(),
        captures: vec![cap(1, 0, 3, "abc"), cap(2, 1, 2, "b")],
    }];
    assert_eq!(
        highlight_segments("abc", &ms),
        vec![seg(0, 1, SegmentKind::Capture(1)), seg(1, 2, SegmentKind::Capture(2)), seg(2, 3, SegmentKind::Match)]
    );
}
