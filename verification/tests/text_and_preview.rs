use s3browse::data::{PreviewKind, PreviewMsg, PreviewState};
use s3browse::preview::{
    content_type_to_kind, count_lines, extension_to_kind, try_pretty_json,
};
use s3browse::strings::{parent_prefix, str_contains, str_lex_leq, u64_to_string};
use s3browse::sorting::sort_strings;
use s3browse::data::{AliasConfig, Entry, Location, McConfig, ObjectEntry, Pane};
use s3browse::session::App;

#[test]
fn parent_prefix_cases() {
    assert_eq!(parent_prefix("a/b/c.txt"), "a/b/");
    assert_eq!(parent_prefix("a/b/"), "a/");
    assert_eq!(parent_prefix("a/b///"), "a/");
    assert_eq!(parent_prefix("top.txt"), "");
    assert_eq!(parent_prefix(""), "");
}

#[test]
fn substring_search() {
    assert!(str_contains("hello world", "lo w"));
    assert!(str_contains("hello", ""));
    assert!(!str_contains("", "x"));
    assert!(!str_contains("abc", "abcd"));
    assert!(str_contains("abc", "abc"));
}

#[test]
fn lexicographic_string_order() {
    assert!(str_lex_leq("", "a"));
    assert!(str_lex_leq("abc", "abd"));
    assert!(!str_lex_leq("b", "aaaa"));
    assert!(str_lex_leq("same", "same"));
    let sorted = sort_strings(vec!["pear".to_string(), "apple".to_string(), "fig".to_string()]);
    assert_eq!(sorted, vec!["apple", "fig", "pear"]);
}

#[test]
fn decimal_formatting() {
    assert_eq!(u64_to_string(0), "0");
    assert_eq!(u64_to_string(7), "7");
    assert_eq!(u64_to_string(12345), "12345");
    assert_eq!(u64_to_string(u64::MAX), "18446744073709551615");
}

#[test]
fn content_type_detection() {
    assert_eq!(content_type_to_kind("image/png"), Some(PreviewKind::Image));
    assert_eq!(content_type_to_kind("VIDEO/mp4"), Some(PreviewKind::Video));
    assert_eq!(content_type_to_kind("text/plain"), Some(PreviewKind::Text));
    assert_eq!(content_type_to_kind("Application/JSON"), Some(PreviewKind::Text));
    assert_eq!(content_type_to_kind("application/octet-stream"), None);
}

#[test]
fn extension_detection() {
    assert_eq!(extension_to_kind("photo.JPG"), Some(PreviewKind::Image));
    assert_eq!(extension_to_kind("clip.mkv"), Some(PreviewKind::Video));
    assert_eq!(extension_to_kind("notes/readme.md"), Some(PreviewKind::Text));
    assert_eq!(extension_to_kind("archive.zip"), None);
    assert_eq!(extension_to_kind("noextension"), None);
    assert_eq!(extension_to_kind("prefix/data.v2.csv"), Some(PreviewKind::Text));
}

#[test]
fn json_pretty_printing_round() {
    let pretty = try_pretty_json("{\"a\":[1,2]}");
    assert!(pretty.contains('\n'));
    assert!(pretty.contains("\"a\""));
    let back: &str = pretty.as_str();
    assert_eq!(try_pretty_json(back), pretty);
    assert_eq!(try_pretty_json("not json at all"), "not json at all");
}

#[test]
fn line_counting() {
    assert_eq!(count_lines(""), 0);
    assert_eq!(count_lines("one"), 1);
    assert_eq!(count_lines("one\ntwo"), 2);
    assert_eq!(count_lines("one\ntwo\n"), 2);
    assert_eq!(count_lines("\n\n"), 2);
}

#[test]
fn preview_scrolling_stays_in_bounds() {
    let mut p = PreviewState::new();
    p.line_count = 10;
    p.scroll_down(3);
    assert_eq!(p.scroll_offset, 3);
    p.scroll_down(100);
    assert_eq!(p.scroll_offset, 9);
    p.scroll_up(4);
    assert_eq!(p.scroll_offset, 5);
    p.scroll_up(100);
    assert_eq!(p.scroll_offset, 0);
}

#[test]
fn preview_clear_resets_everything() {
    let mut p = PreviewState::new();
    p.current_key = Some("k".to_string());
    p.text_content = Some("body".to_string());
    p.loading = true;
    p.line_count = 4;
    p.live = true;
    p.clear();
    assert!(p.current_key.is_none());
    assert!(p.text_content.is_none());
    assert!(!p.loading);
    assert_eq!(p.line_count, 0);
    assert!(!p.live);
}

#[test]
fn preview_messages_land_in_state() {
    let mut app = App::new(McConfig {
        version: "10".to_string(),
        aliases: vec![(
            "r".to_string(),
            AliasConfig {
                url: "http://x".to_string(),
                access_key: "a".to_string(),
                secret_key: "s".to_string(),
                api: None,
                path: None,
            },
        )],
    });
    app.note_client_connected("r".to_string());
    app.location = Location::ObjectList {
        remote: "r".to_string(),
        bucket: "b".to_string(),
        prefix: String::new(),
    };
    app.pane = Pane::Browser;
    app.entries = vec![Entry::Object(ObjectEntry {
        key: "data.json".to_string(),
        display_name: "data.json".to_string(),
        size: 10,
        last_modified: None,
        is_dir: false,
    })];
    app.browser_selected = Some(0);

    let act = app.request_preview();
    match act {
        Some(s3browse::action::Action::FetchTextPreview { key, length, .. }) => {
            assert_eq!(key, "data.json");
            assert_eq!(length, 10);
        },
        other => panic!("unexpected action: {:?}", other),
    }
    assert!(app.preview.loading);
    assert!(app.preview.live);

    app.drain_preview(vec![PreviewMsg::TextReady("{\"a\":1}".to_string())]);
    assert!(!app.preview.loading);
    let shown = app.preview.text_content.as_deref().unwrap();
    assert!(shown.contains('\n'));
    assert_eq!(app.preview.line_count, count_lines(shown));

    app.drain_preview(vec![PreviewMsg::Error("gone".to_string())]);
    assert_eq!(app.preview.error.as_deref(), Some("gone"));
}

#[test]
fn preview_media_builds_player_arguments() {
    let mut app = App::new(McConfig {
        version: "10".to_string(),
        aliases: vec![(
            "r".to_string(),
            AliasConfig {
                url: "http://x".to_string(),
                access_key: "a".to_string(),
                secret_key: "s".to_string(),
                api: None,
                path: None,
            },
        )],
    });
    app.note_client_connected("r".to_string());
    app.location = Location::ObjectList {
        remote: "r".to_string(),
        bucket: "b".to_string(),
        prefix: String::new(),
    };
    app.pane = Pane::Browser;
    app.entries = vec![Entry::Object(ObjectEntry {
        key: "cat.png".to_string(),
        display_name: "cat.png".to_string(),
        size: 10,
        last_modified: None,
        is_dir: false,
    })];
    app.browser_selected = Some(0);
    let act = app.request_preview();
    match act {
        Some(s3browse::action::Action::PlayMedia { args, .. }) => {
            assert_eq!(
                args,
                vec![
                    "-v",
                    "warning",
                    "-autoexit",
                    "-alwaysontop",
                    "-window_title",
                    "cat.png",
                    "-loop",
                    "0"
                ]
            );
        },
        other => panic!("unexpected action: {:?}", other),
    }
    assert_eq!(app.status_message.as_deref(), Some("Opening image in ffplay..."));
}

#[test]
fn unsupported_preview_leaves_a_note() {
    let mut app = App::new(McConfig { version: "10".to_string(), aliases: vec![(
        "r".to_string(),
        AliasConfig {
            url: "http://x".to_string(),
            access_key: "a".to_string(),
            secret_key: "s".to_string(),
            api: None,
            path: None,
        },
    )] });
    app.note_client_connected("r".to_string());
    app.location = Location::ObjectList {
        remote: "r".to_string(),
        bucket: "b".to_string(),
        prefix: String::new(),
    };
    app.pane = Pane::Browser;
    app.entries = vec![Entry::Object(ObjectEntry {
        key: "blob.bin".to_string(),
        display_name: "blob.bin".to_string(),
        size: 10,
        last_modified: None,
        is_dir: false,
    })];
    app.browser_selected = Some(0);
    let act = app.request_preview();
    assert!(act.is_none());
    assert_eq!(app.status_message.as_deref(), Some("Unsupported file type for preview"));

    app.browser_selected = None;
    let act = app.request_preview();
    assert!(act.is_none());
    assert_eq!(app.status_message.as_deref(), Some("No file selected for preview"));
}
