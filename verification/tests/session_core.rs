use s3browse::action::{Action, IndexDirective, KeyCode, KeyInput};
use s3browse::data::{
    AliasConfig, Entry, IndexMsg, LocalEntry, Location, McConfig, ObjectEntry, Pane,
};
use s3browse::session::App;

fn config_with(aliases: Vec<(&str, &str)>) -> McConfig {
    McConfig {
        version: "10".to_string(),
        aliases: aliases
            .into_iter()
            .map(|(name, url)| {
                (
                    name.to_string(),
                    AliasConfig {
                        url: url.to_string(),
                        access_key: "ak".to_string(),
                        secret_key: "sk".to_string(),
                        api: None,
                        path: None,
                    },
                )
            })
            .collect(),
    }
}

fn obj(key: &str) -> ObjectEntry {
    ObjectEntry {
        key: key.to_string(),
        display_name: key.to_string(),
        size: 1,
        last_modified: None,
        is_dir: false,
    }
}

fn session_in_bucket() -> App {
    let mut app = App::new(config_with(vec![("r", "http://localhost")]));
    app.note_client_connected("r".to_string());
    app.location = Location::ObjectList {
        remote: "r".to_string(),
        bucket: "b".to_string(),
        prefix: String::new(),
    };
    app.pane = Pane::Browser;
    app
}

#[test]
fn new_session_sorts_remotes() {
    let app = App::new(config_with(vec![
        ("zeta", "http://z"),
        ("alpha", "http://a"),
        ("mid", "http://m"),
    ]));
    assert_eq!(app.remotes, vec!["alpha", "mid", "zeta"]);
    assert_eq!(app.remote_selected, Some(0));
    assert!(matches!(app.location, Location::RemoteList));
    assert!(app.entries.is_empty());
}

#[test]
fn new_session_empty_config_has_no_selection() {
    let app = App::new(config_with(vec![]));
    assert!(app.remotes.is_empty());
    assert_eq!(app.remote_selected, None);
}

#[test]
fn indexing_same_key_is_noop() {
    let mut app = session_in_bucket();
    let d = app.start_indexing("r", "b");
    assert_eq!(d, IndexDirective::Restart);
    let gen_before = app.index_generation;
    app.drain_index(vec![IndexMsg::Batch(vec![obj("a/1.txt")])], false);
    assert_eq!(app.index_object_count(), 1);

    let d2 = app.start_indexing("r", "b");
    assert_eq!(d2, IndexDirective::Keep);
    assert_eq!(app.index_generation, gen_before);
    assert_eq!(app.index_object_count(), 1);
    assert!(!app.index_complete);
}

#[test]
fn indexing_new_key_clears_pool_and_restarts() {
    let mut app = session_in_bucket();
    app.start_indexing("r", "b");
    let gen_before = app.index_generation;
    app.drain_index(vec![IndexMsg::Batch(vec![obj("a/1.txt"), obj("a/2.txt")])], false);
    assert_eq!(app.index_object_count(), 2);

    let d = app.start_indexing("r", "other");
    assert_eq!(d, IndexDirective::Restart);
    assert_ne!(app.index_generation, gen_before);
    assert_eq!(app.index_object_count(), 0);
    assert!(!app.index_complete);
    let key = app.index_key.as_ref().unwrap();
    assert_eq!(key.remote, "r");
    assert_eq!(key.bucket, "other");
}

#[test]
fn index_done_marks_complete() {
    let mut app = session_in_bucket();
    app.start_indexing("r", "b");
    app.drain_index(vec![IndexMsg::Batch(vec![obj("x")]), IndexMsg::Done], false);
    assert!(app.index_complete);
    assert_eq!(app.index_object_count(), 1);
}

#[test]
fn index_closed_channel_counts_as_done() {
    let mut app = session_in_bucket();
    app.start_indexing("r", "b");
    app.drain_index(vec![], true);
    assert!(app.index_complete);
}

#[test]
fn index_error_surfaces_only_during_search() {
    let mut app = session_in_bucket();
    app.start_indexing("r", "b");
    app.drain_index(vec![IndexMsg::Error("boom".to_string())], false);
    assert!(app.error.is_none());
    assert!(app.index_complete);

    let mut app2 = session_in_bucket();
    app2.start_indexing("r", "b");
    app2.start_search();
    app2.drain_index(vec![IndexMsg::Error("boom".to_string())], false);
    assert_eq!(app2.error.as_deref(), Some("Index error: boom"));
}

#[test]
fn cancel_search_restores_selection_listing_location() {
    let mut app = session_in_bucket();
    app.start_indexing("r", "b");
    app.entries = vec![Entry::Object(obj("one")), Entry::Object(obj("two")), Entry::Object(obj("three"))];
    app.browser_selected = Some(2);
    app.search_pool = vec![obj("a/1.txt"), obj("b/2.txt")];

    app.start_search();
    assert!(app.search_active);
    assert_eq!(app.entries.len(), 2);
    app.search_input('b');
    assert_eq!(app.entries.len(), 1);

    app.cancel_search();
    assert!(!app.search_active);
    assert_eq!(app.browser_selected, Some(2));
    assert_eq!(app.entries.len(), 3);
    assert_eq!(app.entries[0].key(), "one");
    assert!(matches!(app.location, Location::ObjectList { .. }));
    assert!(app.search_query.is_empty());
}

#[test]
fn empty_query_shows_whole_pool() {
    let mut app = session_in_bucket();
    app.start_indexing("r", "b");
    app.search_pool = vec![obj("a/1.txt"), obj("a/2.txt"), obj("b/1.txt")];
    app.start_search();
    assert_eq!(app.entries.len(), 3);
    app.update_search_filter();
    assert_eq!(app.entries.len(), 3);
    assert_eq!(app.entries[0].key(), "a/1.txt");
    assert_eq!(app.entries[2].key(), "b/1.txt");
}

#[test]
fn filtering_is_idempotent_through_the_session() {
    let mut app = session_in_bucket();
    app.start_indexing("r", "b");
    app.search_pool = vec![obj("a/1.txt"), obj("a/2.txt"), obj("b/1.txt")];
    app.start_search();
    app.search_input('a');
    let first: Vec<String> = app.entries.iter().map(|e| e.key().to_string()).collect();
    app.update_search_filter();
    let second: Vec<String> = app.entries.iter().map(|e| e.key().to_string()).collect();
    assert_eq!(first, second);
}

#[test]
fn query_filters_pool_in_original_order() {
    let mut app = session_in_bucket();
    app.start_indexing("r", "b");
    app.search_pool = vec![obj("a/1.txt"), obj("a/2.txt"), obj("b/1.txt")];
    app.start_search();
    app.search_input('a');
    app.search_input('/');
    let keys: Vec<&str> = app.entries.iter().map(|e| e.key()).collect();
    assert_eq!(keys, vec!["a/1.txt", "a/2.txt"]);
}

#[test]
fn search_is_case_insensitive() {
    let mut app = session_in_bucket();
    app.start_indexing("r", "b");
    app.search_pool = vec![obj("Reports/Q1.TXT"), obj("notes/plain.md")];
    app.start_search();
    app.search_input('q');
    app.search_input('1');
    let keys: Vec<&str> = app.entries.iter().map(|e| e.key()).collect();
    assert_eq!(keys, vec!["Reports/Q1.TXT"]);
}

#[test]
fn search_backspace_refilters() {
    let mut app = session_in_bucket();
    app.start_indexing("r", "b");
    app.search_pool = vec![obj("aa"), obj("ab")];
    app.start_search();
    app.search_input('a');
    app.search_input('a');
    assert_eq!(app.entries.len(), 1);
    app.search_backspace();
    assert_eq!(app.entries.len(), 2);
}

#[test]
fn listing_backed_search_filters_names() {
    let mut app = App::new(config_with(vec![("r", "http://x")]));
    app.note_client_connected("r".to_string());
    app.location = Location::BucketList { remote: "r".to_string() };
    app.pane = Pane::Browser;
    app.entries = vec![
        Entry::Bucket(s3browse::data::BucketInfo { name: "photos".to_string(), creation_date: None }),
        Entry::Bucket(s3browse::data::BucketInfo { name: "backups".to_string(), creation_date: None }),
    ];
    app.browser_selected = Some(1);
    app.start_search();
    app.search_input('p');
    app.search_input('h');
    let names: Vec<&str> = app.entries.iter().map(|e| e.name()).collect();
    assert_eq!(names, vec!["photos"]);
    app.cancel_search();
    assert_eq!(app.entries.len(), 2);
    assert_eq!(app.browser_selected, Some(1));
}

#[test]
fn selection_clamps_to_result_count() {
    let mut app = session_in_bucket();
    app.start_indexing("r", "b");
    app.search_pool = vec![obj("aa"), obj("ab"), obj("b")];
    app.start_search();
    app.browser_selected = Some(2);
    app.search_input('a');
    assert_eq!(app.browser_selected, Some(1));
    app.search_input('z');
    assert_eq!(app.browser_selected, None);
}

#[test]
fn quit_key_sets_flag() {
    let mut app = App::new(config_with(vec![("r", "http://x")]));
    let act = app.on_key(KeyInput { code: KeyCode::Char('q'), ctrl: false, super_mod: false });
    assert!(act.is_none());
    assert!(app.should_quit);
}

#[test]
fn help_overlay_swallows_next_key() {
    let mut app = App::new(config_with(vec![("r", "http://x")]));
    app.on_key(KeyInput { code: KeyCode::Char('?'), ctrl: false, super_mod: false });
    assert!(app.show_help);
    let act = app.on_key(KeyInput { code: KeyCode::Char('q'), ctrl: false, super_mod: false });
    assert!(act.is_none());
    assert!(!app.show_help);
    assert!(!app.should_quit);
}

#[test]
fn escape_clears_transient_state() {
    let mut app = App::new(config_with(vec![("r", "http://x")]));
    app.error = Some("old error".to_string());
    app.status_message = Some("note".to_string());
    app.on_key(KeyInput { code: KeyCode::Esc, ctrl: false, super_mod: false });
    assert!(app.error.is_none());
    assert!(app.status_message.is_none());
    assert!(app.download_progress.is_none());
}

#[test]
fn select_remote_hands_out_enter_action() {
    let mut app = App::new(config_with(vec![("beta", "http://b"), ("alpha", "http://a")]));
    let act = app.select();
    match act {
        Some(Action::EnterRemote { alias }) => assert_eq!(alias, "alpha"),
        other => panic!("unexpected action: {:?}", other),
    }
}

#[test]
fn select_directory_row_asks_for_its_page() {
    let mut app = session_in_bucket();
    let mut dir = obj("docs/");
    dir.is_dir = true;
    app.entries = vec![Entry::Object(dir)];
    app.browser_selected = Some(0);
    let act = app.select();
    match act {
        Some(Action::ListObjects { remote, bucket, prefix }) => {
            assert_eq!(remote, "r");
            assert_eq!(bucket, "b");
            assert_eq!(prefix, "docs/");
        },
        other => panic!("unexpected action: {:?}", other),
    }
}

#[test]
fn select_without_client_reports_not_connected() {
    let mut app = session_in_bucket();
    app.connected.clear();
    let mut dir = obj("docs/");
    dir.is_dir = true;
    app.entries = vec![Entry::Object(dir)];
    app.browser_selected = Some(0);
    let act = app.select();
    assert!(act.is_none());
    assert_eq!(app.error.as_deref(), Some("Not connected to remote"));
}

#[test]
fn go_back_from_bucket_list_returns_to_remotes() {
    let mut app = App::new(config_with(vec![("r", "http://x")]));
    app.location = Location::BucketList { remote: "r".to_string() };
    app.pane = Pane::Browser;
    app.search_pool = vec![obj("stale")];
    app.index_key = Some(s3browse::data::IndexKey { remote: "r".to_string(), bucket: "b".to_string() });
    let act = app.go_back();
    assert!(act.is_none());
    assert!(matches!(app.location, Location::RemoteList));
    assert!(app.index_key.is_none());
    assert_eq!(app.index_object_count(), 0);
    assert_eq!(app.pane, Pane::Remotes);
}

#[test]
fn go_back_out_of_a_bucket_cancels_indexing() {
    let mut app = session_in_bucket();
    app.start_indexing("r", "b");
    app.drain_index(vec![IndexMsg::Batch(vec![obj("a/1.txt")])], false);
    assert_eq!(app.index_object_count(), 1);
    let act = app.go_back();
    match act {
        Some(Action::EnterRemote { alias }) => assert_eq!(alias, "r"),
        other => panic!("unexpected action: {:?}", other),
    }
    assert!(app.index_key.is_none());
    assert_eq!(app.index_object_count(), 0);
    assert!(!app.index_complete);
}

#[test]
fn go_back_inside_prefix_asks_for_parent() {
    let mut app = App::new(config_with(vec![("r", "http://x")]));
    app.note_client_connected("r".to_string());
    app.location = Location::ObjectList {
        remote: "r".to_string(),
        bucket: "b".to_string(),
        prefix: "a/b/".to_string(),
    };
    let act = app.go_back();
    match act {
        Some(Action::ListObjects { prefix, .. }) => assert_eq!(prefix, "a/"),
        other => panic!("unexpected action: {:?}", other),
    }
}

#[test]
fn local_listing_skips_hidden_and_sorts_dirs_first() {
    let mut app = App::new(config_with(vec![("r", "http://x")]));
    let raw = vec![
        LocalEntry { name: "zebra.txt".to_string(), is_dir: false, size: 1 },
        LocalEntry { name: ".hidden".to_string(), is_dir: false, size: 1 },
        LocalEntry { name: "Apple".to_string(), is_dir: false, size: 1 },
        LocalEntry { name: "music".to_string(), is_dir: true, size: 0 },
        LocalEntry { name: "Docs".to_string(), is_dir: true, size: 0 },
    ];
    app.set_local_listing(raw);
    let names: Vec<&str> = app.local_entries.iter().map(|e| e.name.as_str()).collect();
    assert_eq!(names, vec!["Docs", "music", "Apple", "zebra.txt"]);
    assert_eq!(app.local_selected, Some(0));
}

#[test]
fn location_display_breadcrumbs() {
    let mut app = App::new(config_with(vec![("r", "http://x")]));
    assert_eq!(app.location_display(), "Select a remote");
    app.location = Location::BucketList { remote: "minio".to_string() };
    assert_eq!(app.location_display(), "minio /");
    app.location = Location::ObjectList {
        remote: "minio".to_string(),
        bucket: "photos".to_string(),
        prefix: String::new(),
    };
    assert_eq!(app.location_display(), "minio / photos /");
    app.location = Location::ObjectList {
        remote: "minio".to_string(),
        bucket: "photos".to_string(),
        prefix: "2024/".to_string(),
    };
    assert_eq!(app.location_display(), "minio / photos / 2024/");
}

#[test]
fn connect_failed_formats_error() {
    let mut app = App::new(config_with(vec![]));
    app.connect_failed("Unknown alias: nope");
    assert_eq!(app.error.as_deref(), Some("Connection failed: Unknown alias: nope"));
}

#[test]
fn switch_pane_cycles_and_respects_download_mode() {
    let mut app = App::new(config_with(vec![("r", "http://x")]));
    assert_eq!(app.pane, Pane::Remotes);
    app.switch_pane();
    assert_eq!(app.pane, Pane::Browser);
    app.switch_pane();
    assert_eq!(app.pane, Pane::Remotes);
    app.pane = Pane::Browser;
    app.download_mode = true;
    app.switch_pane();
    assert_eq!(app.pane, Pane::LocalFs);
    app.switch_pane();
    assert_eq!(app.pane, Pane::Remotes);
}

#[test]
fn switch_pane_is_locked_during_search() {
    let mut app = App::new(config_with(vec![("r", "http://x")]));
    app.search_active = true;
    app.switch_pane();
    assert_eq!(app.pane, Pane::Remotes);
}

#[test]
fn escape_key_cancels_search_via_routing() {
    let mut app = session_in_bucket();
    app.start_indexing("r", "b");
    app.entries = vec![Entry::Object(obj("one"))];
    app.browser_selected = Some(0);
    app.start_search();
    app.search_input('x');
    let act = app.on_key(KeyInput { code: KeyCode::Esc, ctrl: false, super_mod: false });
    assert!(act.is_none());
    assert!(!app.search_active);
    assert_eq!(app.browser_selected, Some(0));
}

#[test]
fn typing_during_search_goes_to_the_query() {
    let mut app = session_in_bucket();
    app.start_indexing("r", "b");
    app.search_pool = vec![obj("kite"), obj("other")];
    app.start_search();
    // 'k' must type into the query, not move the cursor.
    app.on_key(KeyInput { code: KeyCode::Char('k'), ctrl: false, super_mod: false });
    assert_eq!(app.search_query, "k");
    let keys: Vec<&str> = app.entries.iter().map(|e| e.key()).collect();
    assert_eq!(keys, vec!["kite"]);
}

#[test]
fn local_pane_parent_slot_sits_above_first_row() {
    let mut app = session_in_bucket();
    app.entries = vec![Entry::Object(obj("report.pdf"))];
    app.browser_selected = Some(0);
    app.start_download_mode();
    app.set_local_listing(vec![
        LocalEntry { name: "a".to_string(), is_dir: true, size: 0 },
        LocalEntry { name: "b".to_string(), is_dir: false, size: 1 },
    ]);
    assert_eq!(app.local_selected, Some(0));
    // Up from the first row lands on the parent slot.
    app.on_key(KeyInput { code: KeyCode::Up, ctrl: false, super_mod: false });
    assert_eq!(app.local_selected, None);
    // Enter on the parent slot asks to go up.
    let act = app.on_key(KeyInput { code: KeyCode::Enter, ctrl: false, super_mod: false });
    assert!(matches!(act, Some(Action::LocalUp)));
    // Down returns to the first row.
    app.on_key(KeyInput { code: KeyCode::Down, ctrl: false, super_mod: false });
    assert_eq!(app.local_selected, Some(0));
    // Enter on a directory row descends.
    let act = app.on_key(KeyInput { code: KeyCode::Enter, ctrl: false, super_mod: false });
    match act {
        Some(Action::LocalEnter { name }) => assert_eq!(name, "a"),
        other => panic!("unexpected action: {:?}", other),
    }
}

#[test]
fn super_backspace_requests_delete() {
    let mut app = session_in_bucket();
    app.entries = vec![Entry::Object(obj("a.txt"))];
    app.browser_selected = Some(0);
    let act = app.on_key(KeyInput { code: KeyCode::Backspace, ctrl: false, super_mod: true });
    assert!(act.is_none());
    assert!(app.confirm_delete.is_some());
}

#[test]
fn index_error_message_never_interrupts_plain_browsing_selection() {
    let mut app = session_in_bucket();
    app.start_indexing("r", "b");
    app.entries = vec![Entry::Object(obj("one"))];
    app.browser_selected = Some(0);
    app.drain_index(
        vec![IndexMsg::Batch(vec![obj("a")]), IndexMsg::Error("x".to_string())],
        false,
    );
    assert_eq!(app.browser_selected, Some(0));
    assert_eq!(app.entries.len(), 1);
    assert!(app.error.is_none());
}
