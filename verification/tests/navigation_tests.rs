use ratatui_testlib::navigation::{
    contains_hint_labels, current_mode_of, detect_mode, focus_from, hint_at_in, hints_from_captures, hints_in, status_mode_of, FocusInfo, HintElementType,
    HintLabel, NavMode, PromptMarker, PromptMarkerType,
};
use ratatui_testlib::Rect;

#[test]
fn test_nav_mode_default() {
    assert_eq!(NavMode::default(), NavMode::Normal);
}

#[test]
fn test_nav_mode_as_str() {
    assert_eq!(NavMode::Normal.as_str(), "Normal");
    assert_eq!(NavMode::Hints.as_str(), "Hints");
    assert_eq!(NavMode::Visual.as_str(), "Visual");
    assert_eq!(NavMode::Insert.as_str(), "Insert");
    assert_eq!(NavMode::Search.as_str(), "Search");
    assert_eq!(NavMode::Command.as_str(), "Command");
}

#[test]
fn test_contains_hint_labels() {
    assert!(contains_hint_labels("Link [a] and [b]"));
    assert!(contains_hint_labels("[aa] [ab] [ac]"));
    assert!(!contains_hint_labels("No hints here"));
    assert!(!contains_hint_labels("[123] [ABC]")); // Not lowercase letters
}

#[test]
fn test_detect_mode_normal() {
    let contents = "Just regular content";
    assert_eq!(detect_mode(contents), NavMode::Normal);
}

#[test]
fn test_detect_mode_hints() {
    let contents = "Links: [a] Google [b] GitHub";
    assert_eq!(detect_mode(contents), NavMode::Hints);
}

#[test]
fn test_detect_mode_visual() {
    let contents = "Some text\n-- VISUAL --";
    assert_eq!(detect_mode(contents), NavMode::Visual);
}

#[test]
fn test_detect_mode_insert() {
    let contents = "-- INSERT --\nTyping...";
    assert_eq!(detect_mode(contents), NavMode::Insert);
}

#[test]
fn test_detect_mode_search() {
    let contents = "Search: query\n-- SEARCH --";
    assert_eq!(detect_mode(contents), NavMode::Search);
}

#[test]
fn test_detect_mode_command() {
    let contents = "Command: :wq\n-- COMMAND --";
    assert_eq!(detect_mode(contents), NavMode::Command);
}

#[test]
fn test_hint_label_creation() {
    let hint = HintLabel {
        label: "a".to_string(),
        position: (10, 5),
        target_url: Some("https://example.com".to_string()),
        element_type: HintElementType::Url,
    };

    assert_eq!(hint.label, "a");
    assert_eq!(hint.position, (10, 5));
    assert!(hint.target_url.is_some());
    assert_eq!(hint.element_type, HintElementType::Url);
}

#[test]
fn test_focus_info_creation() {
    let focus = FocusInfo {
        bounds: Rect::new(10, 5, 20, 3),
        id: Some("button-1".to_string()),
        element_type: "Button".to_string(),
        tab_index: Some(0),
    };

    assert_eq!(focus.bounds.x, 10);
    assert_eq!(focus.bounds.y, 5);
    assert_eq!(focus.bounds.width, 20);
    assert_eq!(focus.bounds.height, 3);
    assert_eq!(focus.id, Some("button-1".to_string()));
    assert_eq!(focus.element_type, "Button");
    assert_eq!(focus.tab_index, Some(0));
}

#[test]
fn test_prompt_marker_creation() {
    let marker = PromptMarker {
        line: 10,
        marker_type: PromptMarkerType::PromptStart,
        command: None,
    };

    assert_eq!(marker.line, 10);
    assert_eq!(marker.marker_type, PromptMarkerType::PromptStart);
    assert!(marker.command.is_none());
}

#[test]
fn test_prompt_marker_with_command() {
    let marker = PromptMarker {
        line: 15,
        marker_type: PromptMarkerType::CommandStart,
        command: Some("ls -la".to_string()),
    };

    assert_eq!(marker.line, 15);
    assert_eq!(marker.marker_type, PromptMarkerType::CommandStart);
    assert_eq!(marker.command, Some("ls -la".to_string()));
}

#[test]
fn test_hint_element_types() {
    // Just verify the types exist and can be compared
    assert_ne!(HintElementType::Url, HintElementType::FilePath);
    assert_ne!(HintElementType::Email, HintElementType::GitHash);
    assert_ne!(HintElementType::IpAddress, HintElementType::Custom);
}

#[test]
fn test_detect_mode_mixed_case_status() {
    assert_eq!(detect_mode("status: Visual Mode on"), NavMode::Visual);
    assert_eq!(detect_mode("COMMAND: quit"), NavMode::Command);
    assert_eq!(status_mode_of("search mode"), NavMode::Search);
    assert_eq!(status_mode_of("nothing"), NavMode::Normal);
}

#[test]
fn test_hint_labels_edge_cases() {
    assert!(contains_hint_labels("x[zz]y"));
    assert!(!contains_hint_labels("[abc]"));
    assert!(!contains_hint_labels("[]"));
    assert!(!contains_hint_labels("[a"));
}

#[test]
fn test_current_mode_from_screen_lines() {
    assert_eq!(current_mode_of("editing\nstatus -- INSERT --"), NavMode::Insert);
    assert_eq!(current_mode_of("Visual selection\nplain"), NavMode::Visual);
    assert_eq!(current_mode_of("a [b] c"), NavMode::Hints);
    assert_eq!(current_mode_of(""), NavMode::Normal);
    assert_eq!(current_mode_of("top\nmiddle\nbottom"), NavMode::Normal);
}

#[test]
fn test_focus_from_border_and_cursor() {
    let f = focus_from("line\n  \u{2503} box", (0, 0)).unwrap();
    assert_eq!(f.bounds, Rect::new(2, 1, 20, 3));
    assert_eq!(f.element_type, "Widget");
    let f = focus_from("\u{e9}\u{2551}", (5, 5)).unwrap();
    assert_eq!(f.bounds, Rect::new(2, 0, 20, 3));
    let f = focus_from("one\ntwo", (1, 7)).unwrap();
    assert_eq!(f.bounds, Rect::new(7, 1, 10, 1));
    assert_eq!(f.element_type, "Input");
    assert!(focus_from("one\ntwo", (2, 0)).is_none());
}

#[test]
fn test_nav_mode_clone_and_label_clone() {
    let hint = HintLabel {
        label: "ab".to_string(),
        position: (1, 2),
        target_url: None,
        element_type: HintElementType::Custom,
    };
    assert_eq!(hint.clone(), hint);
    let focus = FocusInfo { bounds: Rect::new(0, 0, 1, 1), id: None, element_type: "X".to_string(), tab_index: None };
    assert_eq!(focus.clone(), focus);
}

#[test]
fn test_visible_hints_positions_and_kinds() {
    let hints = hints_in("Links: [a] Google [b] https://github.com\n[c]deadbeef\n\u{e9}[zz] /usr/bin.x\n[q] a@b");
    let got: Vec<(String, (u16, u16), HintElementType)> =
        hints.iter().map(|h| (h.label.clone(), h.position, h.element_type)).collect();
    assert_eq!(
        got,
        vec![
            ("a".to_string(), (7, 0), HintElementType::Url),
            ("b".to_string(), (18, 0), HintElementType::Url),
            ("c".to_string(), (0, 1), HintElementType::GitHash),
            ("zz".to_string(), (2, 2), HintElementType::FilePath),
            ("q".to_string(), (0, 3), HintElementType::Email),
        ]
    );
    assert!(hints.iter().all(|h| h.target_url.is_none()));
    assert!(hints_in("[a] foo").iter().all(|h| h.element_type == HintElementType::Custom));
    assert!(hints_in("[abc] [A]").is_empty());
}

#[test]
fn test_hint_at_position() {
    let contents = "x [a] y [b]";
    assert_eq!(hint_at_in(contents, 8, 0).map(|h| h.label), Some("b".to_string()));
    assert!(hint_at_in(contents, 3, 0).is_none());
}

#[test]
fn test_hints_from_captures() {
    let line: Vec<char> = "see [ab] https://x.org".chars().collect();
    let caps = vec![(4usize, 8usize, Some("ab".to_string())), (70000usize, 70004usize, None)];
    let hints = hints_from_captures(&line, 2, &caps);
    assert_eq!(hints.len(), 2);
    assert_eq!(hints[0].label, "ab");
    assert_eq!(hints[0].position, (4, 2));
    assert_eq!(hints[0].element_type, HintElementType::Url);
    assert_eq!(hints[1].label, "");
    assert_eq!(hints[1].position, (4464, 2));
    assert!(hints[1].target_url.is_none());
}
