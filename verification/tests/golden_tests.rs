use ratatui_testlib::golden::{generate_diff, timestamp_from, timestamp_of_utc, GoldenFile, GoldenMetadata};
use ratatui_testlib::{ScreenState, TermTestError};
use similar::{ChangeTag, TextDiff};

fn reference_diff(expected: &str, actual: &str) -> String {
    let diff = TextDiff::from_lines(expected, actual);
    let mut output = String::new();
    output.push_str("--- expected (golden)\n");
    output.push_str("+++ actual\n");
    let mut line_num = 1;
    for (idx, group) in diff.grouped_ops(3).iter().enumerate() {
        if idx > 0 {
            output.push_str("...\n");
        }
        for op in group {
            output.push_str(&format!(
                "@@ -{},{} +{},{} @@\n",
                op.old_range().start + 1,
                op.old_range().len(),
                op.new_range().start + 1,
                op.new_range().len()
            ));
            for change in diff.iter_changes(op) {
                let (sign, style_prefix) = match change.tag() {
                    ChangeTag::Delete => ("-", "\x1b[31m"),
                    ChangeTag::Insert => ("+", "\x1b[32m"),
                    ChangeTag::Equal => (" ", ""),
                };
                if change.tag() != ChangeTag::Equal {
                    output.push_str(&format!("{}{:>4} {} {}", style_prefix, line_num, sign, change.value()));
                    if !change.value().ends_with('\n') {
                        output.push('\n');
                    }
                    output.push_str("\x1b[0m");
                } else {
                    output.push_str(&format!("{:>4} {} {}", line_num, sign, change.value()));
                    if !change.value().ends_with('\n') {
                        output.push('\n');
                    }
                }
                line_num += 1;
            }
        }
    }
    output
}

#[test]
fn test_metadata_header_roundtrip() {
    let meta = GoldenMetadata {
        test_name: "my_test".to_string(),
        width: 80,
        height: 24,
        timestamp: "2024-01-02T03:04:05Z".to_string(),
    };
    let header = meta.to_header();
    assert_eq!(header, "--- GOLDEN FILE ---\ntest: my_test\nsize: 80x24\ntimestamp: 2024-01-02T03:04:05Z\n");
    let back = GoldenMetadata::from_header(&header).unwrap();
    assert_eq!(back.test_name, "my_test");
    assert_eq!((back.width, back.height), (80, 24));
    assert_eq!(back.timestamp, "2024-01-02T03:04:05Z");
}

#[test]
fn test_from_header_rejections() {
    assert!(GoldenMetadata::from_header("").is_none());
    assert!(GoldenMetadata::from_header("not a header\ntest: x").is_none());
    assert!(GoldenMetadata::from_header("--- GOLDEN FILE ---\nsize: 80xabc\n").is_none());
    assert!(GoldenMetadata::from_header("--- GOLDEN FILE ---\nsize: 70000x1\n").is_none());
    let m = GoldenMetadata::from_header("x --- GOLDEN FILE --- y\nsize: 80\nother: 1\ntest: a\ntest: b\r\n").unwrap();
    assert_eq!((m.width, m.height), (0, 0));
    assert_eq!(m.test_name, "b");
    assert_eq!(m.timestamp, "");
}

#[test]
fn test_golden_file_roundtrip() {
    let file = GoldenFile {
        metadata: GoldenMetadata { test_name: "t".to_string(), width: 3, height: 2, timestamp: "now".to_string() },
        content: "ab \n   ".to_string(),
    };
    let text = file.to_string();
    assert_eq!(text, "--- GOLDEN FILE ---\ntest: t\nsize: 3x2\ntimestamp: now\n--- CONTENT ---\nab \n   ");
    let back = GoldenFile::from_string(&text).unwrap();
    assert_eq!(back.content, file.content);
    assert_eq!(back.metadata.test_name, "t");
    assert_eq!((back.metadata.width, back.metadata.height), (3, 2));
}

#[test]
fn test_golden_file_errors() {
    match GoldenFile::from_string("no marker") {
        Err(TermTestError::Parse(m)) => assert_eq!(m, "Golden file missing content marker"),
        other => panic!("unexpected: {:?}", other),
    }
    match GoldenFile::from_string("bad header\n--- CONTENT ---\nx") {
        Err(TermTestError::Parse(m)) => assert_eq!(m, "Failed to parse golden file header"),
        other => panic!("unexpected: {:?}", other),
    }
}

#[test]
fn test_compare_with_screen() {
    let mut screen = ScreenState::new(4, 2);
    screen.feed(b"hi");
    let golden = GoldenFile::from_screen_state("cmp", &screen);
    assert_eq!(golden.content, "hi  \n    ");
    assert_eq!((golden.metadata.width, golden.metadata.height), (4, 2));
    assert!(golden.compare(&screen).is_ok());
    screen.feed(b"!");
    match golden.compare(&screen) {
        Err(TermTestError::Parse(m)) => {
            assert!(m.starts_with("Golden file mismatch: cmp\n--- expected (golden)\n+++ actual\n"));
            assert_eq!(m, format!("Golden file mismatch: cmp\n{}", reference_diff("hi  \n    ", "hi! \n    ")));
        }
        other => panic!("unexpected: {:?}", other),
    }
}

#[test]
fn test_generate_diff_matches_line_diff_format() {
    let cases = [
        ("a\nb\nc\n", "a\nx\nc\n"),
        ("", ""),
        ("same", "same"),
        ("1\n2\n3\n4\n5\n6\n7\n8\n9\n10\n11\n12\n", "1\nX\n3\n4\n5\n6\n7\n8\n9\n10\nY\n12\n"),
        ("no newline", "no newline\nmore"),
        ("only old\n", ""),
    ];
    for (e, a) in cases.iter() {
        assert_eq!(generate_diff(e, a), reference_diff(e, a));
    }
}

#[test]
fn test_timestamp_texts() {
    assert_eq!(timestamp_from(None), "unknown");
    assert_eq!(timestamp_from(Some(0)), "1970-01-01T00:00:00Z");
    assert_eq!(timestamp_from(Some(1_700_000_000)), "2023-11-14T22:13:20Z");
    assert_eq!(timestamp_from(Some(1_000_000_000_000_000)), "1000000000000000s");
    assert_eq!(timestamp_from(Some(u64::MAX)), "1969-12-31T23:59:59Z");
    let meta = GoldenMetadata::new("n", 1, 2);
    assert!(meta.timestamp.ends_with('Z'));
}

#[test]
fn test_timestamp_of_utc() {
    assert_eq!(timestamp_of_utc(Some("2024-01-02T03:04:05Z".to_string()), 7), "2024-01-02T03:04:05Z");
    assert_eq!(timestamp_of_utc(None, 1234), "1234s");
}

#[test]
fn test_golden_roundtrip_keeps_fields() {
    let golden = GoldenFile {
        metadata: GoldenMetadata {
            test_name: "round trip".to_string(),
            width: 132,
            height: 43,
            timestamp: "2024-05-06T07:08:09Z".to_string(),
        },
        content: "line one\nline -- two\n".to_string(),
    };
    let back = GoldenFile::from_string(&golden.to_string()).unwrap();
    assert_eq!(back.metadata.test_name, "round trip");
    assert_eq!(back.metadata.width, 132);
    assert_eq!(back.metadata.height, 43);
    assert_eq!(back.metadata.timestamp, "2024-05-06T07:08:09Z");
    assert_eq!(back.content, "line one\nline -- two\n");
}

#[test]
fn test_golden_roundtrip_loses_leading_newlines() {
    let golden = GoldenFile {
        metadata: GoldenMetadata {
            test_name: "t".to_string(),
            width: 1,
            height: 1,
            timestamp: "x".to_string(),
        },
        content: "\n\nbody".to_string(),
    };
    let back = GoldenFile::from_string(&golden.to_string()).unwrap();
    assert_eq!(back.content, "body");
}
