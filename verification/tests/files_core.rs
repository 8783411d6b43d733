use swal_files::files_core::config::{BehaviorConfig, ViewConfig};
use swal_files::files_core::fuzzy_search::{FuzzySearchEngine, MatchScore};
use swal_files::files_core::miller_columns::MillerColumnsTree;
use swal_files::files_core::scanner::{read_failure_ends_scan, scanned_entry, FileType as ScanFileType};
use swal_files::files_core::tabs::{
    DualPaneCoordinator, DualPaneLayout, PaneId, Tab, TabEvent, TabId, TabKind, TabManager,
};
use swal_files::files_core::types::{
    format_bytes, sort_entries, FileEntry, FileKind, FileMetadata, FilePermissions, FileSortKey,
    FileType, SortCriteria, SortDirection,
};
use swal_files::files_core::watcher::{parse_notify_event, FileWatchEvent, NotifyKind, WatcherConfig};

// ---------------------------------------------------------------- fuzzy search

#[test]
fn test_fuzzy_match_empty_pattern() {
    let res = FuzzySearchEngine::match_path("", "src/main.rs");
    assert!(res.is_some());
    let match_res = res.unwrap();
    assert_eq!(match_res.score, MatchScore(0));
    assert!(match_res.matched_indices.is_empty());
}

#[test]
fn test_fuzzy_match_basic_and_indices() {
    let res = FuzzySearchEngine::match_path("fse", "fuzzy_search_engine.rs");
    assert!(res.is_some());
    let match_res = res.unwrap();
    assert_eq!(match_res.matched_indices, vec![0, 6, 13]);
}

#[test]
fn test_fuzzy_match_non_matching() {
    let res = FuzzySearchEngine::match_path("xyz", "src/main.rs");
    assert!(res.is_none());
}

#[test]
fn test_fuzzy_search_engine_ranking() {
    let mut engine = FuzzySearchEngine::new();
    engine.set_items(vec![
        "src/fuzzy_search.rs".to_string(),
        "docs/fuzzy.md".to_string(),
        "README.md".to_string(),
    ]);

    let results = engine.search("fuzzy");
    assert_eq!(results.len(), 2);
    assert!(results[0].score > results[1].score || results[0].target.contains("fuzzy"));

    engine.clear();
    assert!(engine.search("fuzzy").is_empty());

    engine.add("crates/swal-files-core/src/fuzzy_search.rs".to_string());
    assert_eq!(engine.search("swal").len(), 1);
}

#[test]
fn fuzzy_results_ranked_best_first() {
    let mut engine = FuzzySearchEngine::new();
    engine.set_items(vec!["a/b/xyz.rs".to_string(), "xyz.rs".to_string(), "other".to_string()]);
    let results = engine.search("xyz");
    assert_eq!(results.len(), 2);
    for w in results.windows(2) {
        assert!(w[0].score >= w[1].score);
    }
}

#[test]
fn fuzzy_match_is_case_insensitive() {
    let res = FuzzySearchEngine::match_path("MAIN", "src/main.rs").unwrap();
    assert_eq!(res.matched_indices, vec![4, 5, 6, 7]);
}

// ---------------------------------------------------------------- tabs

#[test]
fn test_tab_creation_and_title() {
    let tab = Tab::new(TabId(1), "/home/user/documents");

    assert_eq!(tab.id, TabId(1));
    assert_eq!(tab.path, "/home/user/documents");
    assert_eq!(tab.title, "documents");
    assert_eq!(tab.history, vec!["/home/user/documents".to_string()]);
    assert_eq!(tab.history_index, 0);
    assert!(!tab.can_go_back());
    assert!(!tab.can_go_forward());
    assert_eq!(tab.kind, TabKind::Standard);
}

#[test]
fn test_tab_navigation_history() {
    let path1 = "/home/user/folder1";
    let path2 = "/home/user/folder2";
    let path3 = "/home/user/folder3";

    let mut tab = Tab::new(TabId(1), path1);

    tab.navigate_to(path2);
    assert_eq!(tab.path, path2);
    assert_eq!(tab.history_index, 1);
    assert!(tab.can_go_back());
    assert!(!tab.can_go_forward());

    tab.navigate_to(path3);
    assert_eq!(tab.path, path3);
    assert_eq!(tab.history_index, 2);

    assert_eq!(tab.go_back(), Some(path2.to_string()));
    assert_eq!(tab.path, path2);
    assert_eq!(tab.history_index, 1);
    assert!(tab.can_go_forward());

    assert_eq!(tab.go_back(), Some(path1.to_string()));
    assert_eq!(tab.path, path1);
    assert_eq!(tab.history_index, 0);
    assert!(!tab.can_go_back());

    assert_eq!(tab.go_back(), None);

    assert_eq!(tab.go_forward(), Some(path2.to_string()));
    assert_eq!(tab.path, path2);
    assert_eq!(tab.history_index, 1);

    let path4 = "/home/user/folder4";
    tab.navigate_to(path4);

    assert_eq!(
        tab.history,
        vec![path1.to_string(), path2.to_string(), path4.to_string()]
    );
    assert_eq!(tab.history_index, 2);
    assert!(!tab.can_go_forward());
}

#[test]
fn tab_navigate_to_same_path_is_ignored() {
    let mut tab = Tab::new(TabId(3), "/a/b");
    tab.navigate_to("/a//b/");
    assert_eq!(tab.history.len(), 1);
    assert_eq!(tab.history_index, 0);
}

#[test]
fn tab_back_then_forward_returns() {
    let mut tab = Tab::new(TabId(1), "/x");
    tab.navigate_to("/y");
    let before = tab.path.clone();
    tab.go_back();
    tab.go_forward();
    assert_eq!(tab.path, before);
}

#[test]
fn tab_title_of_root_is_path() {
    let tab = Tab::new(TabId(1), "/");
    assert_eq!(tab.title, "/");
}

#[test]
fn test_tab_manager_open_and_select() {
    let mut manager = TabManager::new(PaneId::Left, "/home/user");

    assert_eq!(manager.len(), 1);
    assert_eq!(manager.active_index(), 0);

    let t1_id = manager.open_tab("/home/user/p1");

    assert_eq!(manager.len(), 2);
    assert_eq!(manager.active_index(), 1);
    assert_eq!(manager.active_tab().unwrap().id, t1_id);

    let t2_id = manager.open_tab("/home/user/p2");

    assert_eq!(manager.len(), 3);
    assert_eq!(manager.active_index(), 2);
    assert_eq!(manager.active_tab().unwrap().id, t2_id);

    manager.select_previous_tab();
    assert_eq!(manager.active_index(), 1);
    assert_eq!(manager.active_tab().unwrap().id, t1_id);

    manager.select_next_tab();
    assert_eq!(manager.active_index(), 2);

    manager.select_next_tab();
    assert_eq!(manager.active_index(), 0);

    assert!(manager.select_tab(t1_id));
    assert_eq!(manager.active_index(), 1);
}

#[test]
fn test_tab_manager_close_and_reorder() {
    let mut manager = TabManager::new(PaneId::Left, "/home/user/p0");
    let id0 = manager.active_tab().unwrap().id;
    let id1 = manager.open_tab("/home/user/p1");
    let id2 = manager.open_tab("/home/user/p2");

    assert_eq!(manager.len(), 3);
    assert_eq!(manager.active_index(), 2);

    assert!(manager.move_tab(2, 0));
    assert_eq!(manager.tabs()[0].id, id2);
    assert_eq!(manager.tabs()[1].id, id0);
    assert_eq!(manager.tabs()[2].id, id1);
    assert_eq!(manager.active_index(), 0);

    let closed = manager.close_tab(id2);
    assert!(closed.is_some());
    assert_eq!(manager.len(), 2);
    assert_eq!(manager.active_index(), 0);

    manager.close_other_tabs(id1);
    assert_eq!(manager.len(), 1);
    assert_eq!(manager.active_tab().unwrap().id, id1);
}

#[test]
fn test_pin_and_duplicate_tab() {
    let mut manager = TabManager::new(PaneId::Left, "/home/user/p0");
    let id0 = manager.active_tab().unwrap().id;

    assert!(manager.pin_tab(id0));
    assert!(manager.tabs()[0].is_pinned);

    assert!(manager.unpin_tab(id0));
    assert!(!manager.tabs()[0].is_pinned);

    let dup_id = manager.duplicate_tab(id0);
    assert!(dup_id.is_some());
    assert_eq!(manager.len(), 2);
    assert_eq!(manager.active_index(), 1);
    assert!(manager.active_tab().unwrap().title.contains("(copy)"));
}

#[test]
fn test_dual_pane_coordinator() {
    let mut coord = DualPaneCoordinator::new("/home/user/root");

    assert_eq!(coord.layout(), DualPaneLayout::Single);
    assert!(!coord.is_dual_pane_active());
    assert_eq!(coord.active_pane_id(), PaneId::Left);

    coord.toggle_dual_pane();
    assert_eq!(coord.layout(), DualPaneLayout::SplitHorizontal);
    assert!(coord.is_dual_pane_active());

    coord.switch_active_pane();
    assert_eq!(coord.active_pane_id(), PaneId::Right);

    let new_tab_id = coord.open_in_other_pane("/home/user/other");
    assert_eq!(coord.left_pane.active_tab().unwrap().id, new_tab_id);

    coord.swap_panes();
    assert_eq!(coord.left_pane.pane_id, PaneId::Left);
    assert_eq!(coord.right_pane.pane_id, PaneId::Right);

    let synced_tab = coord.sync_other_pane_to_active_path();
    assert!(synced_tab.is_some());
}

#[test]
fn tab_manager_records_events_when_enabled() {
    let mut manager = TabManager::new(PaneId::Right, "/r");
    manager.open_tab("/quiet");
    assert!(manager.take_events().is_empty());
    manager.enable_events();
    let id = manager.open_tab("/r/a");
    let events = manager.take_events();
    assert_eq!(
        events,
        vec![
            TabEvent::Opened { pane_id: PaneId::Right, tab_id: id, path: "/r/a".to_string() },
            TabEvent::Switched { pane_id: PaneId::Right, active_tab_id: id },
        ]
    );
    assert!(manager.take_events().is_empty());
    manager.close_tab(id);
    let events = manager.take_events();
    assert_eq!(events[0], TabEvent::Closed { pane_id: PaneId::Right, tab_id: id });
    assert_eq!(events.len(), 2);
}

#[test]
fn tab_manager_close_last_tab_empties() {
    let mut manager = TabManager::new(PaneId::Left, "/a");
    let id = manager.active_tab().unwrap().id;
    assert!(manager.close_tab(id).is_some());
    assert!(manager.is_empty());
    assert_eq!(manager.active_index(), 0);
    assert!(manager.active_tab().is_none());
    assert!(!manager.navigate_active("/b"));
    assert!(manager.close_tab_at(0).is_none());
}

#[test]
fn tab_manager_close_tabs_to_right() {
    let mut manager = TabManager::new(PaneId::Left, "/0");
    let id0 = manager.active_tab().unwrap().id;
    manager.open_tab("/1");
    manager.open_tab("/2");
    manager.open_tab("/3");
    assert_eq!(manager.active_index(), 3);
    manager.close_tabs_to_right(id0);
    assert_eq!(manager.len(), 1);
    assert_eq!(manager.active_index(), 0);
    assert_eq!(manager.tabs()[0].id, id0);
}

#[test]
fn tab_manager_ids_unique_and_increasing() {
    let mut manager = TabManager::new(PaneId::Left, "/0");
    let a = manager.open_tab("/a");
    let b = manager.open_tab_at("/b", 99);
    assert_eq!(a, TabId(2));
    assert_eq!(b, TabId(3));
    assert_eq!(manager.tabs()[2].id, b);
    assert!(manager.close_tab(TabId(42)).is_none());
    assert!(!manager.move_tab(0, 0));
    assert!(!manager.select_tab_at(5));
}

#[test]
fn tab_manager_navigate_active() {
    let mut manager = TabManager::new(PaneId::Left, "/home");
    assert!(manager.navigate_active("/home/docs"));
    let t = manager.active_tab().unwrap();
    assert_eq!(t.path, "/home/docs");
    assert_eq!(t.history.len(), 2);
}

#[test]
fn dual_pane_toggle_twice_returns_to_single() {
    let mut coord = DualPaneCoordinator::new("/x");
    coord.toggle_dual_pane();
    coord.set_active_pane(PaneId::Right);
    assert_eq!(coord.toggle_dual_pane(), DualPaneLayout::Single);
    assert_eq!(coord.active_pane_id(), PaneId::Left);
}

#[test]
fn dual_pane_events_in_order() {
    let mut coord = DualPaneCoordinator::new("/x");
    coord.enable_events();
    let id = coord.open_in_other_pane("/y");
    let events = coord.take_events();
    assert_eq!(events[0], TabEvent::PaneLayoutChanged { layout: DualPaneLayout::SplitHorizontal });
    assert_eq!(events[1], TabEvent::Opened { pane_id: PaneId::Right, tab_id: id, path: "/y".to_string() });
    assert_eq!(events[2], TabEvent::Switched { pane_id: PaneId::Right, active_tab_id: id });
}

// ---------------------------------------------------------------- column view

#[test]
fn test_navigation_bounds_and_range() {
    let mut tree = MillerColumnsTree::new("/root");
    tree.set_max_visible_columns(2);
    assert_eq!(tree.visible_column_range(), (0, 1));
    assert!(!tree.navigate_up());
    assert!(!tree.navigate_down());
    assert!(!tree.navigate_left());
    assert!(!tree.navigate_right());
}

fn entry(path: &str, file_type: FileType) -> FileEntry {
    FileEntry::from_parts(
        path,
        file_type,
        FileMetadata {
            size: 1,
            created: None,
            modified: None,
            accessed: None,
            permissions: FilePermissions::new(false, Some(0o644)),
            is_hidden: false,
        },
    )
}

#[test]
fn miller_select_directory_opens_column() {
    let mut tree = MillerColumnsTree::new("/t");
    tree.set_root_entries(vec![entry("/t/sub", FileType::Directory), entry("/t/file.txt", FileType::File)]);
    assert!(tree.select_item(0, 0).is_some());
    assert_eq!(tree.depth(), 2);
    assert_eq!(tree.active_path(), "/t/sub");
    assert!(tree.set_child_entries(1, vec![entry("/t/sub/inner.rs", FileType::File)]));
    assert!(tree.navigate_right());
    assert_eq!(tree.active_column_index(), 1);
    assert!(tree.navigate_down());
    assert_eq!(tree.active_path(), "/t/sub/inner.rs");
    assert!(tree.navigate_left());
    assert_eq!(tree.active_column_index(), 0);
    // Selecting a file closes the columns to the right.
    assert!(tree.select_item(0, 1).is_some());
    assert_eq!(tree.depth(), 1);
    assert!(tree.select_item(3, 0).is_none());
}

#[test]
fn miller_active_column_changes_in_place() {
    let mut tree = MillerColumnsTree::new("/m");
    tree.set_root_entries(vec![entry("/m/a.txt", FileType::File), entry("/m/b.txt", FileType::File)]);
    {
        let col = tree.active_column_mut().unwrap();
        assert_eq!(col.len(), 2);
        assert!(col.select_index(1).is_some());
    }
    assert_eq!(tree.active_path(), "/m/b.txt");
    assert_eq!(tree.depth(), 1);
}

#[test]
fn miller_visible_range_follows_active_column() {
    let mut tree = MillerColumnsTree::new("/");
    tree.set_max_visible_columns(1);
    tree.set_root_entries(vec![entry("/d", FileType::Directory)]);
    tree.select_item(0, 0);
    assert!(tree.navigate_right());
    assert_eq!(tree.visible_column_range(), (1, 2));
    tree.set_max_visible_columns(0);
    assert_eq!(tree.visible_column_range(), (1, 2));
}

// ---------------------------------------------------------------- types

#[test]
fn types_test_file_type_helpers() {
    let file = FileType::File;
    let dir = FileType::Directory;
    let symlink = FileType::Symlink { target: None };
    let special = FileType::Special;

    assert!(file.is_file());
    assert!(!file.is_dir());

    assert!(dir.is_dir());
    assert!(!dir.is_file());

    assert!(symlink.is_symlink());
    assert!(!symlink.is_file());

    assert!(special.is_special());
    assert!(!special.is_dir());
}

#[test]
fn test_file_kind_classification() {
    let file_type = FileType::File;
    assert_eq!(FileKind::from_path_and_type("photo.PNG", &file_type), FileKind::Image);
    assert_eq!(FileKind::from_path_and_type("main.rs", &file_type), FileKind::Code);
    assert_eq!(FileKind::from_path_and_type("notes.md", &file_type), FileKind::Document);
    assert_eq!(FileKind::from_path_and_type("archive.tar.gz", &file_type), FileKind::Archive);
    assert_eq!(FileKind::from_path_and_type("song.flac", &file_type), FileKind::Audio);
    assert_eq!(FileKind::from_path_and_type("movie.mp4", &file_type), FileKind::Video);
    assert_eq!(FileKind::from_path_and_type("data.bin", &file_type), FileKind::Unknown);

    let dir_type = FileType::Directory;
    assert_eq!(FileKind::from_path_and_type("photo.PNG", &dir_type), FileKind::Directory);
}

#[test]
fn file_kind_of_symlink_and_no_extension() {
    let link = FileType::Symlink { target: Some("/x".to_string()) };
    assert_eq!(FileKind::from_path_and_type("a.rs", &link), FileKind::Symlink);
    assert_eq!(FileKind::from_path_and_type("Makefile", &FileType::File), FileKind::Unknown);
    assert_eq!(FileKind::from_path_and_type(".bashrc", &FileType::File), FileKind::Unknown);
}

#[test]
fn test_format_bytes() {
    assert_eq!(format_bytes(0), "0 B");
    assert_eq!(format_bytes(512), "512 B");
    assert_eq!(format_bytes(1024), "1.0 KB");
    assert_eq!(format_bytes(1536), "1.5 KB");
    assert_eq!(format_bytes(1048576), "1.0 MB");
    assert_eq!(format_bytes(1073741824), "1.0 GB");
}

#[test]
fn format_bytes_rounding_and_terabytes() {
    assert_eq!(format_bytes(1023), "1023 B");
    assert_eq!(format_bytes(1126), "1.1 KB");
    assert_eq!(format_bytes(1099511627776), "1.0 TB");
    assert_eq!(format_bytes(u64::MAX), "16777216.0 TB");
}

#[test]
fn test_file_permissions_mode_string() {
    let perm_rw = FilePermissions::new(false, Some(0o644));
    assert_eq!(perm_rw.to_mode_string(), "rw-r--r--");

    let perm_rwx = FilePermissions::new(false, Some(0o755));
    assert_eq!(perm_rwx.to_mode_string(), "rwxr-xr-x");

    let perm_readonly_no_mode = FilePermissions::new(true, None);
    assert_eq!(perm_readonly_no_mode.to_mode_string(), "r--r--r--");
}

#[test]
fn permissions_writable_without_mode() {
    assert_eq!(FilePermissions::new(false, None).to_mode_string(), "rw-r--r--");
    assert_eq!(FilePermissions::new(false, Some(0o7777)).to_mode_string(), "rwxrwxrwx");
}

#[test]
fn file_entry_from_parts() {
    let e = entry("/tmp/.hidden_config.json", FileType::File);
    assert_eq!(e.name, ".hidden_config.json");
    assert_eq!(e.file_kind, FileKind::Code);
    assert_eq!(e.extension(), Some("json".to_string()));
    assert!(e.is_file());
    assert!(!e.is_dir());
    assert_eq!(e.metadata.formatted_size(), "1 B");
}

#[test]
fn test_sort_entries() {
    let mut entries = vec![
        entry("/d/b_file.txt", FileType::File),
        entry("/d/a_file.rs", FileType::File),
        entry("/d/z_dir", FileType::Directory),
    ];

    sort_entries(
        &mut entries,
        SortCriteria { key: FileSortKey::Name, direction: SortDirection::Ascending },
        true,
    );
    assert_eq!(entries[0].name, "z_dir");
    assert_eq!(entries[1].name, "a_file.rs");
    assert_eq!(entries[2].name, "b_file.txt");

    sort_entries(
        &mut entries,
        SortCriteria { key: FileSortKey::Name, direction: SortDirection::Ascending },
        false,
    );
    assert_eq!(entries[0].name, "a_file.rs");
    assert_eq!(entries[1].name, "b_file.txt");
    assert_eq!(entries[2].name, "z_dir");
}

#[test]
fn sort_entries_descending_and_stable() {
    let mut entries = vec![
        entry("/d/one.rs", FileType::File),
        entry("/d/two.md", FileType::File),
        entry("/d/three.rs", FileType::File),
    ];
    sort_entries(
        &mut entries,
        SortCriteria { key: FileSortKey::Kind, direction: SortDirection::Descending },
        false,
    );
    // Document sorts after Code by name; ties keep their order.
    assert_eq!(entries[0].name, "two.md");
    assert_eq!(entries[1].name, "one.rs");
    assert_eq!(entries[2].name, "three.rs");
}

#[test]
fn sort_criteria_default_is_name_ascending() {
    let c = SortCriteria::default();
    assert_eq!(c.key, FileSortKey::Name);
    assert_eq!(c.direction, SortDirection::Ascending);
}

// ---------------------------------------------------------------- watcher and config

#[test]
fn test_watcher_config_default() {
    let cfg = WatcherConfig::default();
    assert!(cfg.recursive);
    assert_eq!(cfg.poll_interval_ms, None);
}

#[test]
fn test_parse_notify_event_create() {
    let parsed = parse_notify_event(NotifyKind::Create, vec!["/tmp/test.txt".to_string()]);
    assert_eq!(parsed.len(), 1);
    assert_eq!(parsed[0], FileWatchEvent::Created("/tmp/test.txt".to_string()));
    assert_eq!(parsed[0].path(), "/tmp/test.txt");
}

#[test]
fn test_parse_notify_event_remove() {
    let parsed = parse_notify_event(NotifyKind::Remove, vec!["/tmp/test.txt".to_string()]);
    assert_eq!(parsed.len(), 1);
    assert_eq!(parsed[0], FileWatchEvent::Deleted("/tmp/test.txt".to_string()));
}

#[test]
fn test_parse_notify_event_rename() {
    let parsed = parse_notify_event(
        NotifyKind::ModifyName,
        vec!["/tmp/old.txt".to_string(), "/tmp/new.txt".to_string()],
    );
    assert_eq!(parsed.len(), 1);
    assert_eq!(
        parsed[0],
        FileWatchEvent::Renamed { from: "/tmp/old.txt".to_string(), to: "/tmp/new.txt".to_string() }
    );
    assert_eq!(parsed[0].path(), "/tmp/new.txt");
}

#[test]
fn config_defaults() {
    let v = ViewConfig::default();
    assert!(!v.show_hidden_files);
    assert_eq!(v.default_view_mode, "columns");
    assert_eq!(v.sort_by, "name");
    assert!(v.sort_ascending);
    assert!(!v.dual_pane_enabled);
    let b = BehaviorConfig::default();
    assert!(b.confirm_delete);
    assert_eq!(b.open_in_terminal_cmd, "alacritty --working-directory %p");
    assert!(!b.single_click_to_open);
    assert_eq!(b.max_scan_depth, 20);
}

#[test]
fn scanned_entries_classify_and_name() {
    let e = scanned_entry("/w/.Hidden.TXT", ".Hidden.TXT", Some((false, true, false)), (false, true, false), 7, None, None, true);
    assert_eq!(e.file_type, ScanFileType::File);
    assert!(e.is_hidden);
    assert_eq!(e.extension, Some("txt".to_string()));
    assert_eq!(e.size, 7);
    assert!(e.readonly);
    let d = scanned_entry("/w/sub", "sub", None, (true, false, false), 0, None, None, false);
    assert_eq!(d.file_type, ScanFileType::Directory);
    assert!(!d.is_hidden);
    assert_eq!(d.extension, None);
    let o = scanned_entry("/w/sock", "sock", Some((false, false, false)), (false, false, false), 0, None, None, false);
    assert_eq!(o.file_type, ScanFileType::Other);
    let dot = scanned_entry("/w/.bashrc", ".bashrc", Some((false, true, false)), (false, true, false), 0, None, None, false);
    assert_eq!(dot.extension, None);
}

#[test]
fn only_the_root_read_failure_ends_a_scan() {
    assert!(read_failure_ends_scan(true, true, 0));
    assert!(!read_failure_ends_scan(true, true, 1));
    assert!(!read_failure_ends_scan(false, true, 0));
    assert!(!read_failure_ends_scan(true, false, 0));
}
