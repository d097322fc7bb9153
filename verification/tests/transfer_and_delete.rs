use s3browse::action::{Action, KeyCode, KeyInput};
use s3browse::bulk::DeletePrefixRun;
use s3browse::data::{
    AliasConfig, DownloadMsg, Entry, Location, McConfig, ObjectEntry, Pane, RawObject, Timestamp,
};
use s3browse::download::{build_download_plan, tally_outcomes, DownloadTally};
use s3browse::download::partial_transfer_message;
use s3browse::session::App;
use s3browse::data::RawBucket;
use s3browse::listing::index_batch_from_page;
use s3browse::listing::make_bucket_entries;
use s3browse::listing::shape_object_listing;

fn config_one() -> McConfig {
    McConfig {
        version: "10".to_string(),
        aliases: vec![(
            "r".to_string(),
            AliasConfig {
                url: "http://localhost".to_string(),
                access_key: "ak".to_string(),
                secret_key: "sk".to_string(),
                api: None,
                path: None,
            },
        )],
    }
}

fn obj(key: &str) -> ObjectEntry {
    ObjectEntry {
        key: key.to_string(),
        display_name: key.to_string(),
        size: 1,
        last_modified: None,
        is_dir: false,
    }
}

fn session_in_bucket() -> App {
    let mut app = App::new(config_one());
    app.note_client_connected("r".to_string());
    app.location = Location::ObjectList {
        remote: "r".to_string(),
        bucket: "b".to_string(),
        prefix: String::new(),
    };
    app.pane = Pane::Browser;
    app
}

fn raw(key: &str, size: i64) -> RawObject {
    RawObject { key: Some(key.to_string()), size: Some(size), last_modified: None }
}

#[test]
fn download_all_ok_counts_every_file_and_byte() {
    let outcomes: Vec<Result<u64, String>> = vec![Ok(100), Ok(250), Ok(50), Ok(600)];
    let t = tally_outcomes(outcomes);
    assert_eq!(t.files_done, 4);
    assert_eq!(t.bytes_done, 1000);
    assert_eq!(t.failures, 0);
    assert!(t.outcome().is_ok());
}

#[test]
fn download_one_failure_is_partial_success() {
    let outcomes: Vec<Result<u64, String>> =
        vec![Ok(100), Err("connection reset".to_string()), Ok(50)];
    let t = tally_outcomes(outcomes);
    assert_eq!(t.files_done, 2);
    assert_eq!(t.bytes_done, 150);
    assert_eq!(t.failures, 1);
    let err = t.outcome().unwrap_err();
    assert_eq!(err.failed, 1);
    assert_eq!(err.first, "connection reset");
    assert_eq!(partial_transfer_message(&err), "1 files failed: connection reset");
}

#[test]
fn download_keeps_first_cause_of_many() {
    let outcomes: Vec<Result<u64, String>> =
        vec![Err("first".to_string()), Ok(10), Err("second".to_string())];
    let t = tally_outcomes(outcomes);
    assert_eq!(t.failures, 2);
    assert_eq!(t.first_error.as_deref(), Some("first"));
}

#[test]
fn tally_records_grow_monotonically() {
    let mut t = DownloadTally::new();
    t.record_success(10);
    t.record_success(5);
    assert_eq!(t.bytes_done, 15);
    assert_eq!(t.files_done, 2);
    t.record_failure("x".to_string());
    assert_eq!(t.bytes_done, 15);
    assert_eq!(t.files_done, 2);
    assert_eq!(t.failures, 1);
}

#[test]
fn download_plan_totals_and_relative_paths() {
    let listed = vec![
        raw("docs/a.txt", 100),
        raw("docs/", 0),
        raw("docs/sub/b.txt", 250),
        RawObject { key: None, size: Some(9), last_modified: None },
    ];
    let plan = build_download_plan("docs/", listed);
    assert_eq!(plan.files_total, 2);
    assert_eq!(plan.total_bytes, 350);
    assert_eq!(plan.items[0].rel_path, "a.txt");
    assert_eq!(plan.items[1].rel_path, "sub/b.txt");
    assert_eq!(plan.items[1].key, "docs/sub/b.txt");
}

#[test]
fn delete_prefix_batches_pages_at_the_bulk_limit() {
    let mut run = DeletePrefixRun::new();
    let mut total_calls = 0usize;
    for page_len in [1000usize, 1000, 500] {
        let keys: Vec<String> = (0..page_len).map(|i| format!("docs/{i}")).collect();
        let batches = run.batches_for_page(keys);
        for b in &batches {
            assert!(b.len() <= 1000);
        }
        total_calls += batches.len();
    }
    assert_eq!(run.deleted, 2500);
    assert_eq!(total_calls, 3);
    assert_eq!(total_calls, (2500 + 999) / 1000);
}

#[test]
fn delete_prefix_single_page_chunking() {
    let mut run = DeletePrefixRun::new();
    let keys: Vec<String> = (0..2001).map(|i| format!("k{i}")).collect();
    let batches = run.batches_for_page(keys.clone());
    assert_eq!(batches.len(), 3);
    assert_eq!(batches[0].len(), 1000);
    assert_eq!(batches[1].len(), 1000);
    assert_eq!(batches[2].len(), 1);
    let rejoined: Vec<String> = batches.into_iter().flatten().collect();
    assert_eq!(rejoined, keys);
    assert_eq!(run.deleted, 2001);
}

#[test]
fn deleting_prefix_spares_sibling_text_prefix() {
    let mut app = session_in_bucket();
    let mut dir = obj("docs/");
    dir.is_dir = true;
    app.entries = vec![
        Entry::Object(dir),
        Entry::Object(obj("docs-old/file")),
    ];
    app.search_pool = vec![
        obj("docs/a.txt"),
        obj("docs/sub/b.txt"),
        obj("docs-old/file"),
        obj("docserve"),
    ];
    app.delete_prefix_result("docs/", "docs", Ok(2));
    let keys: Vec<&str> = app.search_pool.iter().map(|o| o.key.as_str()).collect();
    assert_eq!(keys, vec!["docs-old/file", "docserve"]);
    let listed: Vec<&str> = app.entries.iter().map(|e| e.key()).collect();
    assert_eq!(listed, vec!["docs-old/file"]);
    assert_eq!(app.status_message.as_deref(), Some("Deleted 2 objects from docs"));
}

#[test]
fn delete_failure_leaves_everything_untouched() {
    let mut app = session_in_bucket();
    app.entries = vec![Entry::Object(obj("a.txt"))];
    app.search_pool = vec![obj("a.txt")];
    app.delete_object_result("a.txt", "a.txt", Some("denied".to_string()));
    assert_eq!(app.entries.len(), 1);
    assert_eq!(app.search_pool.len(), 1);
    assert_eq!(app.error.as_deref(), Some("Delete failed: denied"));
}

#[test]
fn delete_object_removes_exact_key_only() {
    let mut app = session_in_bucket();
    app.entries = vec![Entry::Object(obj("a.txt")), Entry::Object(obj("a.txt.bak"))];
    app.search_pool = vec![obj("a.txt"), obj("a.txt.bak")];
    app.delete_object_result("a.txt", "a.txt", None);
    let keys: Vec<&str> = app.search_pool.iter().map(|o| o.key.as_str()).collect();
    assert_eq!(keys, vec!["a.txt.bak"]);
    assert_eq!(app.status_message.as_deref(), Some("Deleted a.txt"));
}

#[test]
fn request_delete_refuses_buckets() {
    let mut app = App::new(config_one());
    app.entries = vec![Entry::Bucket(s3browse::data::BucketInfo {
        name: "photos".to_string(),
        creation_date: None,
    })];
    app.browser_selected = Some(0);
    app.request_delete();
    assert!(app.confirm_delete.is_none());
    assert_eq!(app.error.as_deref(), Some("Bucket deletion is not supported"));
}

#[test]
fn delete_confirmation_defaults_to_no_and_toggles() {
    let mut app = session_in_bucket();
    app.entries = vec![Entry::Object(obj("a.txt"))];
    app.browser_selected = Some(0);
    app.request_delete();
    let confirm = app.confirm_delete.as_ref().unwrap();
    assert!(!confirm.selected_yes);
    app.on_key(KeyInput { code: KeyCode::Tab, ctrl: false, super_mod: false });
    assert!(app.confirm_delete.as_ref().unwrap().selected_yes);
    let act = app.on_key(KeyInput { code: KeyCode::Enter, ctrl: false, super_mod: false });
    match act {
        Some(Action::DeleteObject { key, .. }) => assert_eq!(key, "a.txt"),
        other => panic!("unexpected action: {:?}", other),
    }
    assert!(app.confirm_delete.is_none());
}

#[test]
fn delete_confirmation_escape_declines() {
    let mut app = session_in_bucket();
    app.entries = vec![Entry::Object(obj("a.txt"))];
    app.browser_selected = Some(0);
    app.request_delete();
    let act = app.on_key(KeyInput { code: KeyCode::Esc, ctrl: false, super_mod: false });
    assert!(act.is_none());
    assert!(app.confirm_delete.is_none());
}

#[test]
fn confirm_delete_without_client_reports_not_connected() {
    let mut app = session_in_bucket();
    app.connected.clear();
    app.entries = vec![Entry::Object(obj("a.txt"))];
    app.browser_selected = Some(0);
    app.request_delete();
    app.toggle_delete_confirm();
    let act = app.confirm_delete_yes();
    assert!(act.is_none());
    assert_eq!(app.error.as_deref(), Some("Not connected to remote"));
}

#[test]
fn download_mode_flow_reaches_start_action() {
    let mut app = session_in_bucket();
    app.entries = vec![Entry::Object(obj("report.pdf"))];
    app.browser_selected = Some(0);
    let act = app.start_download_mode();
    assert!(matches!(act, Some(Action::ListLocalDir)));
    assert!(app.download_mode);
    assert_eq!(app.pane, Pane::LocalFs);

    app.start_rename();
    assert!(app.rename_active);
    app.rename_backspace();
    app.rename_backspace();
    app.rename_backspace();
    app.rename_char('t');
    app.rename_char('x');
    app.rename_char('t');
    app.finish_rename();
    assert_eq!(app.download_target_name().as_deref(), Some("report.txt"));

    let act = app.confirm_download();
    match act {
        Some(Action::StartDownload { remote, bucket, key, target_name, is_dir }) => {
            assert_eq!(remote, "r");
            assert_eq!(bucket, "b");
            assert_eq!(key, "report.pdf");
            assert_eq!(target_name, "report.txt");
            assert!(!is_dir);
        },
        other => panic!("unexpected action: {:?}", other),
    }
    assert!(!app.download_mode);
    assert_eq!(app.pane, Pane::Browser);
    let progress = app.download_progress.as_ref().unwrap();
    assert_eq!(progress.filename, "report.txt");
    assert_eq!(progress.files_total, 1);
    assert!(!progress.complete);
    assert!(app.download_live);
}

#[test]
fn download_of_bucket_row_is_refused() {
    let mut app = session_in_bucket();
    app.entries = vec![Entry::Bucket(s3browse::data::BucketInfo {
        name: "photos".to_string(),
        creation_date: None,
    })];
    app.browser_selected = Some(0);
    let act = app.start_download_mode();
    assert!(act.is_none());
    assert_eq!(app.error.as_deref(), Some("Cannot download a bucket"));
}

#[test]
fn download_mode_needs_a_bucket() {
    let mut app = App::new(config_one());
    app.entries = vec![Entry::Object(obj("x"))];
    app.browser_selected = Some(0);
    let act = app.start_download_mode();
    assert!(act.is_none());
    assert_eq!(app.error.as_deref(), Some("Navigate into a bucket first"));
}

#[test]
fn drain_download_applies_counters_then_final_message() {
    let mut app = session_in_bucket();
    app.entries = vec![Entry::Object(obj("big.bin"))];
    app.browser_selected = Some(0);
    app.start_download_mode();
    app.confirm_download();
    app.drain_download(
        vec![
            DownloadMsg {
                bytes_downloaded: 10,
                total_bytes: 100,
                files_done: 0,
                files_total: 1,
                complete: false,
                error: None,
            },
            DownloadMsg {
                bytes_downloaded: 100,
                total_bytes: 100,
                files_done: 1,
                files_total: 1,
                complete: false,
                error: None,
            },
        ],
        false,
    );
    let p = app.download_progress.as_ref().unwrap();
    assert_eq!(p.bytes_downloaded, 100);
    assert_eq!(p.files_done, 1);
    assert!(!p.complete);

    app.drain_download(
        vec![DownloadMsg {
            bytes_downloaded: 0,
            total_bytes: 0,
            files_done: 1,
            files_total: 1,
            complete: true,
            error: None,
        }],
        false,
    );
    let p = app.download_progress.as_ref().unwrap();
    assert!(p.complete);
    assert!(!app.download_live);
    assert_eq!(app.status_message.as_deref(), Some("Downloaded big.bin"));
}

#[test]
fn drain_download_surfaces_failure() {
    let mut app = session_in_bucket();
    app.entries = vec![Entry::Object(obj("big.bin"))];
    app.browser_selected = Some(0);
    app.start_download_mode();
    app.confirm_download();
    app.drain_download(
        vec![DownloadMsg {
            bytes_downloaded: 0,
            total_bytes: 0,
            files_done: 0,
            files_total: 1,
            complete: true,
            error: Some("2 files failed: timeout".to_string()),
        }],
        false,
    );
    assert_eq!(app.error.as_deref(), Some("Download failed: 2 files failed: timeout"));
    assert!(app.download_progress.as_ref().unwrap().complete);
}

#[test]
fn listing_shapes_dirs_then_files() {
    let rows = shape_object_listing(
        "photos/",
        vec!["photos/2024/".to_string(), "photos/".to_string()],
        vec![
            raw("photos/", 0),
            raw("photos/cat.jpg", 12),
            RawObject {
                key: Some("photos/dog.jpg".to_string()),
                size: Some(34),
                last_modified: Some(Timestamp { secs: 1431648000, nanos: 0 }),
            },
        ],
    );
    assert_eq!(rows.len(), 3);
    assert!(rows[0].is_dir);
    assert_eq!(rows[0].key, "photos/2024/");
    assert_eq!(rows[0].display_name, "2024");
    assert_eq!(rows[1].key, "photos/cat.jpg");
    assert_eq!(rows[1].display_name, "cat.jpg");
    assert_eq!(rows[2].last_modified.as_deref(), Some("2015-05-15 00:00"));
}

#[test]
fn index_batch_skips_directory_markers() {
    let batch = index_batch_from_page(vec![
        raw("a/", 0),
        raw("a/1.txt", 5),
        RawObject { key: None, size: None, last_modified: None },
        raw("b/2.txt", 7),
    ]);
    let keys: Vec<&str> = batch.iter().map(|o| o.key.as_str()).collect();
    assert_eq!(keys, vec!["a/1.txt", "b/2.txt"]);
    assert_eq!(batch[0].display_name, "a/1.txt");
}

#[test]
fn bucket_page_formats_creation_dates() {
    let rows = make_bucket_entries(vec![
        RawBucket {
            name: Some("photos".to_string()),
            creation_date: Some(Timestamp { secs: 1431648000, nanos: 0 }),
        },
        RawBucket { name: None, creation_date: None },
        RawBucket { name: Some("logs".to_string()), creation_date: None },
    ]);
    assert_eq!(rows.len(), 2);
    assert_eq!(rows[0].name, "photos");
    assert_eq!(rows[0].creation_date.as_deref(), Some("2015-05-15 00:00"));
    assert_eq!(rows[1].creation_date, None);
}

#[test]
fn objects_listed_applies_page_and_restarts_index() {
    let mut app = session_in_bucket();
    let gen_before = app.index_generation;
    app.on_objects_listed(
        "r",
        "b",
        "",
        Ok((vec!["docs/".to_string()], vec![raw("readme.md", 3)])),
    );
    assert_eq!(app.entries.len(), 2);
    assert_eq!(app.entries[0].key(), "docs/");
    assert_eq!(app.entries[1].key(), "readme.md");
    assert_eq!(app.browser_selected, Some(0));
    assert_ne!(app.index_generation, gen_before);
    assert!(matches!(app.location, Location::ObjectList { .. }));
}

#[test]
fn objects_listed_failure_keeps_listing() {
    let mut app = session_in_bucket();
    app.entries = vec![Entry::Object(obj("keep.me"))];
    app.on_objects_listed("r", "b", "", Err("timeout".to_string()));
    assert_eq!(app.entries.len(), 1);
    assert_eq!(app.error.as_deref(), Some("Failed to list objects: timeout"));
}

#[test]
fn buckets_listed_failure_surfaces_error() {
    let mut app = App::new(config_one());
    app.on_buckets_listed("r", Err("refused".to_string()));
    assert_eq!(app.error.as_deref(), Some("Failed to list buckets: refused"));
}

#[test]
fn search_hit_is_reselected_when_its_page_arrives() {
    let mut app = session_in_bucket();
    app.start_indexing("r", "b");
    app.search_pool = vec![obj("docs/deep/hit.txt"), obj("other.txt")];
    app.start_search();
    app.search_input('h');
    app.search_input('i');
    app.search_input('t');
    assert_eq!(app.entries.len(), 1);
    let act = app.select();
    match act {
        Some(Action::ListObjects { prefix, .. }) => assert_eq!(prefix, "docs/deep/"),
        other => panic!("unexpected action: {:?}", other),
    }
    assert!(!app.search_active);
    app.on_objects_listed(
        "r",
        "b",
        "docs/deep/",
        Ok((vec![], vec![raw("docs/deep/aaa.txt", 1), raw("docs/deep/hit.txt", 1)])),
    );
    assert_eq!(app.browser_selected, Some(1));
    assert_eq!(app.entries[1].key(), "docs/deep/hit.txt");
}

#[test]
fn tally_bytes_saturate_at_the_machine_limit() {
    let mut t = DownloadTally::new();
    t.record_success(u64::MAX);
    t.record_success(10);
    assert_eq!(t.bytes_done, u64::MAX);
    assert_eq!(t.files_done, 2);
    assert!(t.outcome().is_ok());
}
