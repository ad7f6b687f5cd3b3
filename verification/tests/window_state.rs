use pantau::analysis::{is_large_file, note_file, sort_entries, total_size, DirEntrySummary};
use pantau::heap::LargeFileHeap;
use pantau::tui::{list_cursor_step, ListKey};
use pantau::clean::{
    get_app_specific_caches, get_dev_cache_targets, get_system_clean_targets, get_user_clean_targets,
    dev_cache_candidates, retain_flagged, tally_sizes, user_cache_dir_item, AppCacheItem, CleanReport,
};
use pantau::safety::PathValidator;
use pantau::window::{
    canonical_sections, clean_button_title, dry_run_title, filter_category_for_tab, log_line_kind,
    section_names, select_all_category, shown_log_line, step_sections, tab_for_tag, toggle_all_whitelist,
    toggle_whitelist_pattern, tree_symbol, whitelist_status_line, CleanerWindowController, Finding,
    LogLineKind, PointerButtonIvars, ScanFollowUp, ScanSection, ShowFollowUp, TabFollowUp, TabIndex,
};

fn finding(label: &str, path: &str, size: u64, selected: bool) -> Finding {
    Finding {
        title: label.to_string(),
        label: label.to_string(),
        detail: String::new(),
        path: path.to_string(),
        size_bytes: size,
        selected,
    }
}

fn scanned() -> CleanerWindowController {
    let mut w = CleanerWindowController::new();
    assert!(w.start_live_deep_scan());
    assert!(!w.start_live_deep_scan());
    w.prepare_scan(vec!["Clean Your Mac with Pantau Cleaner".to_string()]);
    w.record_section(
        ScanSection::UserEssentials,
        vec![finding("Logs", "/Users/me/Library/Logs/app", 2048, true)],
    );
    w.finish_step();
    w.record_section(ScanSection::AppCaches, vec![]);
    w.record_section(
        ScanSection::ProjectArtifacts,
        vec![finding("web (node)", "/Users/me/code/web/node_modules", 4096, false)],
    );
    w.finish_scan();
    w
}

#[test]
fn tabs_and_categories() {
    assert_eq!(tab_for_tag(0), TabIndex::Overview);
    assert_eq!(tab_for_tag(9), TabIndex::LiveStatus);
    assert_eq!(tab_for_tag(42), TabIndex::Overview);
    assert_eq!(filter_category_for_tab(TabIndex::ProjectPurge), Some("Project artifacts"));
    assert_eq!(select_all_category(TabIndex::ProjectPurge), Some("Project Build Artifacts"));
    assert_eq!(filter_category_for_tab(TabIndex::DeepClean), None);
    assert_eq!(step_sections(6), vec![ScanSection::Virtualization, ScanSection::ApplicationSupport]);
    assert!(step_sections(8).is_empty());
    assert_eq!(section_names(ScanSection::Browsers), ("➤ Browsers", "Browsers"));
    assert_eq!(canonical_sections(Some("Raw Installers")), vec!["Raw Installers"]);
    assert_eq!(canonical_sections(None).len(), 16);
    assert_eq!(canonical_sections(None)[8], "App leftovers");
}

#[test]
fn sidebar_clicks() {
    let mut w = CleanerWindowController::new();
    w.whitelist_tapped();
    assert!(w.is_whitelist_mode);
    assert_eq!(w.tab_button_clicked(9), TabFollowUp::RenderThenHealth);
    assert!(!w.is_whitelist_mode);
    assert_eq!(w.tab_button_clicked(2), TabFollowUp::RenderThenScan);
    assert_eq!(w.current_tab, TabIndex::ProjectPurge);
    assert_eq!(w.tab_button_clicked(4), TabFollowUp::Render);
    assert_eq!(w.show_project_purge(), ShowFollowUp::ShowThenScan);
    assert_eq!(w.show_deep_scan(), ShowFollowUp::ShowThenScan);
    let mut b = PointerButtonIvars::new();
    assert_eq!(b.hover_alpha(true), None);
    assert_eq!(b.set_sidebar_style(false), 60);
    assert_eq!(b.hover_alpha(true), Some(100));
    assert_eq!(b.hover_alpha(false), Some(60));
}

#[test]
fn scan_fills_the_tree_and_the_log() {
    let w = scanned();
    assert!(!w.is_scanning);
    assert_eq!(w.scan_progress_permille, 1000);
    assert_eq!(w.scan_status_text, "Scan complete (100%)");
    assert_eq!(w.items.len(), 2);
    assert_eq!(w.items[0].id, 0);
    assert_eq!(w.items[0].category, "User essentials");
    assert_eq!(w.items[1].id, 1);
    assert_eq!(w.items[1].category, "Project artifacts");
    let logs = &w.scan_logs;
    assert_eq!(logs[1], "➤ User essentials");
    assert_eq!(logs[2], "  → Logs · 2.0 KB");
    assert_eq!(logs[3], "➤ App caches");
    assert_eq!(logs[4], "  ✓ Nothing to clean");
    assert_eq!(logs[logs.len() - 2], "Potential space: 6.0 KB | Items: 2");
    assert_eq!(logs[logs.len() - 3], "Scan complete - Ready for cleanup");
}

#[test]
fn selection_and_select_all() {
    let mut w = scanned();
    assert_eq!(w.selection_summary(), Some((1, 2048)));
    w.toggle_item_checkbox(1, true);
    assert_eq!(w.selection_summary(), Some((2, 6144)));
    w.select_all();
    assert!(w.items.iter().all(|i| !i.is_selected));
    w.select_all();
    assert!(w.items.iter().all(|i| i.is_selected));
    w.show_project_purge();
    assert_eq!(w.selection_summary(), Some((1, 4096)));
    assert_eq!(w.tree_summary(Some("Project artifacts")), Some("Potential space: 4.0 KB | Items: 1 | Categories: 1".to_string()));
    assert_eq!(w.section_rows(None, "Project artifacts"), vec![1]);
    w.select_all();
    assert!(w.items.iter().all(|i| i.is_selected));
    assert_eq!(w.selection_summary(), Some((1, 4096)));
}

#[test]
fn cleaning_then_removing_deleted_items() {
    let mut w = scanned();
    w.toggle_item_checkbox(1, true);
    let v = PathValidator::with_home("/Users/me".to_string(), vec!["~/code/web/*".to_string()]);
    let ids = w.cleaning_candidates(&v);
    assert_eq!(ids, vec![0]);
    w.remove_deleted(&vec![w.items[0].id]);
    assert_eq!(w.items.len(), 1);
    assert_eq!(w.items[0].category, "Project artifacts");
}

#[test]
fn whitelist_toggles() {
    let cur = vec!["a".to_string(), "b".to_string()];
    let added = toggle_whitelist_pattern(cur.clone(), "c", true);
    assert_eq!(added, vec!["a".to_string(), "b".to_string(), "c".to_string()]);
    assert_eq!(toggle_whitelist_pattern(added.clone(), "c", true), added);
    assert_eq!(toggle_whitelist_pattern(added, "c", false), cur);
    let all = vec!["a".to_string(), "b".to_string()];
    assert!(toggle_all_whitelist(&all, &cur).is_empty());
    assert_eq!(toggle_all_whitelist(&all, &vec!["a".to_string()]), all);
}

#[test]
fn window_texts() {
    assert_eq!(tree_symbol(Some("Raw Installers")), "frisbee_disk");
    assert_eq!(tree_symbol(None), "broom");
    assert_eq!(dry_run_title(true), "Dry Run: ON");
    assert_eq!(log_line_kind("Clean Your Mac with Pantau Cleaner"), LogLineKind::Title);
    assert_eq!(log_line_kind("➤ System"), LogLineKind::Section);
    assert_eq!(log_line_kind("  → x"), LogLineKind::Plain);
    assert_eq!(shown_log_line("abc", true), "abc ▋");
    assert_eq!(clean_button_title(true, 1536), "Simulate Dry Run (1.5 KB)");
    assert_eq!(clean_button_title(false, 10), "Clean Selected (10 B)");
    assert_eq!(
        whitelist_status_line(3, 70),
        "🛡️ 3 of 70 cache items protected in ~/.config/pantau/whitelist"
    );
}

#[test]
fn clean_targets_and_caches() {
    let sys = get_system_clean_targets("/Users/me", &vec![vec![false, true, true], vec![true]]);
    assert_eq!(sys.len(), 2);
    assert_eq!(sys[0].name, "Diagnostic & Crash Reports");
    assert_eq!(
        sys[0].paths,
        vec!["/Users/me/Library/Logs/DiagnosticReports".to_string(), "/Users/me/Library/Logs/CrashReporter".to_string()]
    );
    assert_eq!(sys[1].name, "System & User Logs");
    assert_eq!(sys[1].paths, vec!["/Users/me/Library/Logs".to_string()]);
    let user = get_user_clean_targets("/Users/me", &vec![vec![true, false], vec![true]]);
    let names: Vec<&str> = user.iter().map(|t| t.name).collect();
    assert_eq!(names, vec!["User App Caches", "macOS Trash", "Mail Downloads", "QuickLook & Thumbnail Caches"]);
    assert_eq!(user[0].paths, vec!["/Users/me/Library/Caches".to_string()]);
    assert_eq!(user[1].paths, vec!["/Users/me/.Trash".to_string()]);
    assert!(user[2].paths.is_empty());
    assert!(user[3].paths.is_empty());
    let cands = dev_cache_candidates("/Users/me");
    let mut flags = vec![false; cands.len()];
    flags[0] = true;
    let kept = get_dev_cache_targets("/Users/me", &flags);
    assert_eq!(kept.len(), 1);
    assert_eq!(kept[0].path, cands[0].path);
    assert_eq!(retain_flagged(vec![1, 2, 3], &vec![true, false, true]), vec![1, 3]);
    assert!(user_cache_dir_item("/Users/me", "com.apple.Safari").is_none());
    assert!(user_cache_dir_item("/Users/me", "Zoom").is_some());
}

#[test]
fn app_caches_have_distinct_paths() {
    let item = |n: &str, p: &str| AppCacheItem { app_name: n.to_string(), path: p.to_string() };
    let cands = vec![
        (item("A", "/c/a"), true),
        (item("A again", "/c/a/"), true),
        (item("B", "/c/b"), false),
        (item("C", "/c/c"), true),
    ];
    let got = get_app_specific_caches(&cands);
    let names: Vec<&str> = got.iter().map(|i| i.app_name.as_str()).collect();
    assert_eq!(names, vec!["A", "C"]);
}

#[test]
fn clean_report_totals() {
    let mut r = CleanReport::new();
    r.record("Caches", 100, 2);
    r.record("Logs", 50, 1);
    r.record("Empty", 0, 0);
    assert_eq!(r.total_bytes_freed, 150);
    assert_eq!(r.categories_cleaned.len(), 2);
    assert_eq!(r.categories_cleaned[1].name, "Logs");
    assert_eq!(tally_sizes(&vec![1, 0, 3]), (4, 2));
}

#[test]
fn analyzer_bookkeeping() {
    assert!(!is_large_file(50 * 1024 * 1024));
    assert!(is_large_file(50 * 1024 * 1024 + 1));
    let mut heap = LargeFileHeap::new(20);
    note_file(&mut heap, "/v/small.bin", 10);
    note_file(&mut heap, "/v/big.mov", 60 * 1024 * 1024);
    let kept = heap.into_sorted_vec();
    assert_eq!(kept.len(), 1);
    assert_eq!(kept[0].name, "big.mov");
    let e = |n: &str, s: u64| DirEntrySummary { name: n.to_string(), path: format!("/v/{}", n), size_bytes: s, is_dir: true };
    let sorted = sort_entries(vec![e("a", 5), e("b", 9), e("c", 5)]);
    let names: Vec<&str> = sorted.iter().map(|x| x.name.as_str()).collect();
    assert_eq!(names, vec!["b", "a", "c"]);
    assert_eq!(total_size(&sorted), Some(19));
    assert_eq!(total_size(&vec![e("x", u64::MAX), e("y", 1)]), None);
    assert_eq!(list_cursor_step(0, 3, ListKey::Down), 1);
    assert_eq!(list_cursor_step(2, 3, ListKey::Down), 2);
    assert_eq!(list_cursor_step(0, 0, ListKey::Up), 0);
}

#[test]
fn history_and_touch_id_tab_texts() {
    let mut op = pantau::history::HistoryLogger::operation_record("purge", "project_artifacts", 2048, "success");
    op.timestamp = "T".to_string();
    let (a, b) = pantau::window::history_row(&op);
    assert_eq!(a, "T • purge (project_artifacts)");
    assert_eq!(b, "Size: 2.0 KB");
    assert_eq!(pantau::window::touchid_tab_texts(true).2, "Disable Touch ID for Sudo");
    assert_eq!(pantau::window::touchid_tab_texts(false).0, "⚪ Touch ID for Sudo is INACTIVE");
}

#[test]
fn scan_runs_step_by_step_then_finishes() {
    let mut w = CleanerWindowController::new();
    assert!(w.start_live_deep_scan());
    w.prepare_scan(vec![]);
    assert_eq!(w.scan_step, 0);
    let f = w.scan_step(vec![vec![finding("Logs", "/Users/me/Library/Logs/app", 2048, true)]]);
    assert_eq!(f, ScanFollowUp::NextStep);
    assert_eq!(w.scan_step, 1);
    assert_eq!(w.discovered_buffer.len(), 1);
    assert_eq!(w.discovered_buffer[0].id, 0);
    assert!(w.is_scanning);
    for step in 1..6 {
        assert_eq!(w.scan_step(vec![vec![]]), ScanFollowUp::NextStep);
        assert_eq!(w.scan_step, step + 1);
    }
    assert_eq!(w.scan_step(vec![vec![], vec![]]), ScanFollowUp::NextStep);
    let f = w.scan_step(vec![vec![], vec![finding("Setup.dmg", "/Users/me/Downloads/Setup.dmg", 4096, false)], vec![]]);
    assert_eq!(f, ScanFollowUp::NextStep);
    assert_eq!(w.scan_step, 8);
    assert_eq!(w.discovered_buffer[1].id, 1);
    assert!(w.items.is_empty());
    assert_eq!(w.scan_step(vec![]), ScanFollowUp::Finished);
    assert!(!w.is_scanning);
    assert_eq!(w.items.len(), 2);
    assert_eq!(w.scan_progress_permille, 1000);
    let logs = &w.scan_logs;
    assert_eq!(logs[logs.len() - 2], "Potential space: 6.0 KB | Items: 2");
}

#[test]
fn heap_law_over_many_pushes() {
    let mut h = LargeFileHeap::new(2);
    let sizes = [60u64 << 20, 70 << 20, 55 << 20, 90 << 20, 51 << 20];
    for (i, s) in sizes.iter().enumerate() {
        note_file(&mut h, &format!("/v/f{}", i), *s);
    }
    note_file(&mut h, "/v/small", 1024);
    let v = h.into_sorted_vec();
    let kept: Vec<u64> = v.iter().map(|e| e.size_bytes).collect();
    assert_eq!(kept, vec![90 << 20, 70 << 20]);
}
