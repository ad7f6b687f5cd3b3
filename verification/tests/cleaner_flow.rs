use pantau::cli::{confirms_disable, confirms_enable, history_line, yes_no};
use pantau::history::{most_recent, HistoryLogger};
use pantau::installer::{classify_installer, installer_dry_run_message, installer_log, sort_installers};
use pantau::optimize::{
    disk_image_report, last_word_exec, snapshot_names, task_outcome, MaintenanceTask, OptimizeSummary, TaskResult,
};
use pantau::purge::{
    artifact_title, artifact_type_for, is_vcs_dir_exec, make_artifact, project_name_of, purge_dry_run_message, purge_log,
};
use pantau::removal::{plan_removals, run_status};
use pantau::safety::PathValidator;
use pantau::touchid::{
    admin_prompt_script, disable_touchid, enable_touchid, terminal_script, touchid_configured_from,
    touchid_supported_from, TouchIdFollowUp,
};
use pantau::tui::{
    list_key_for_char, main_menu_step, menu_actions, pattern_covers, scroll_offset, selected_ids, selector_header,
    Checklist, ListKey, ListOutcome, MainMenuAction, SelectableItem,
};
use pantau::uninstall::{
    bundle_id_from_plist, installed_app, is_leftover, plan_uninstall, sort_apps, uninstall_log, AppRemnant,
};

#[test]
fn main_menu_keys() {
    assert_eq!(menu_actions().len(), 10);
    assert_eq!(main_menu_step(0, ListKey::Up), (0, None));
    assert_eq!(main_menu_step(0, ListKey::Down), (1, None));
    assert_eq!(main_menu_step(9, ListKey::Down), (9, None));
    assert_eq!(main_menu_step(3, ListKey::Confirm), (3, Some(MainMenuAction::Analyze)));
    assert_eq!(main_menu_step(5, ListKey::Cancel), (5, Some(MainMenuAction::Quit)));
    assert_eq!(list_key_for_char('j'), ListKey::Down);
    assert_eq!(list_key_for_char('A'), ListKey::ToggleAll);
    assert_eq!(list_key_for_char('x'), ListKey::Other);
}

#[test]
fn checklist_toggle_twice_restores() {
    let mut c = Checklist::new(vec![false, true, false], vec![false, false, true]);
    c.handle_key(ListKey::Toggle);
    assert_eq!(c.selected, vec![true, true, false]);
    c.handle_key(ListKey::Toggle);
    assert_eq!(c.selected, vec![false, true, false]);
}

#[test]
fn checklist_disabled_rows_do_not_change() {
    let mut c = Checklist::new(vec![false, true, false], vec![false, false, true]);
    c.handle_key(ListKey::Down);
    c.handle_key(ListKey::Down);
    assert_eq!(c.cursor, 2);
    c.handle_key(ListKey::Toggle);
    assert_eq!(c.selected, vec![false, true, false]);
    c.handle_key(ListKey::Down);
    assert_eq!(c.cursor, 2);
}

#[test]
fn checklist_toggle_all_then_back() {
    let mut c = Checklist::new(vec![false, true, false], vec![false, false, true]);
    assert_eq!(c.handle_key(ListKey::ToggleAll), ListOutcome::Continue);
    assert_eq!(c.selected, vec![true, true, false]);
    assert_eq!(c.selected_count(), 2);
    c.handle_key(ListKey::ToggleAll);
    assert_eq!(c.selected, vec![false, false, false]);
    assert_eq!(c.handle_key(ListKey::Confirm), ListOutcome::Confirmed);
    assert_eq!(c.handle_key(ListKey::Cancel), ListOutcome::Cancelled);
}

#[test]
fn selector_helpers() {
    assert_eq!(scroll_offset(3, 10), 0);
    assert_eq!(scroll_offset(12, 10), 3);
    assert_eq!(selector_header("Apps", 2, 7), "Apps (2 of 7 selected)");
    let items: Vec<SelectableItem> = (0..4)
        .map(|i| SelectableItem {
            id: i * 10,
            title: String::new(),
            detail: String::new(),
            size_formatted: String::new(),
            is_selected: i % 2 == 1,
            is_disabled: false,
        })
        .collect();
    assert_eq!(selected_ids(&items), vec![10, 30]);
}

#[test]
fn whitelist_pattern_coverage() {
    assert!(pattern_covers("~/Library/Caches/JetBrains*", "~/Library/Caches/JetBrains/*"));
    assert!(pattern_covers("~/.m2/repository/*", "~/.m2/repository/*"));
    assert!(!pattern_covers("~/.npm/*", "~/.cargo/*"));
}

#[test]
fn installers_are_classified_by_extension_and_size() {
    let big = 6 * 1024 * 1024;
    let f = classify_installer("Downloads", "/Users/me/Downloads/Tool.DMG", big).unwrap();
    assert_eq!(f.file_name, "Tool.DMG");
    assert_eq!(f.source_category, "Downloads");
    assert!(classify_installer("Downloads", "/Users/me/Downloads/Tool.dmg", 1024).is_none());
    assert!(classify_installer("Downloads", "/Users/me/Downloads/notes.txt", big).is_none());
    assert!(classify_installer("Downloads", "/Users/me/Downloads/README", big).is_none());
    assert_eq!(installer_dry_run_message(&f), "[DRY RUN] Would remove installer file: /Users/me/Downloads/Tool.DMG");
    let a = classify_installer("Desktop", "/d/a.pkg", big).unwrap();
    let b = classify_installer("Desktop", "/d/b.iso", big * 2).unwrap();
    let sorted = sort_installers(vec![a, b]);
    assert_eq!(sorted[0].file_name, "b.iso");
}

#[test]
fn purge_artifacts() {
    assert_eq!(artifact_type_for("node_modules"), Some("Node.js Dependencies"));
    assert_eq!(artifact_type_for("target"), Some("Rust / Cargo Build"));
    assert_eq!(artifact_type_for("src"), None);
    assert!(is_vcs_dir_exec(".git"));
    assert!(!is_vcs_dir_exec("git"));
    assert_eq!(project_name_of("/Users/me/code/app/node_modules"), "app");
    assert!(make_artifact("/p/x/target", "Rust / Cargo Build", 1024, false).is_none());
    let a = make_artifact("/p/x/target", "Rust / Cargo Build", 2 * 1024 * 1024, true).unwrap();
    assert_eq!(a.project_name, "x");
    assert_eq!(artifact_title(&a), "x (Rust / Cargo Build)");
    assert_eq!(purge_dry_run_message(&a), "[DRY RUN] Would purge x (Rust / Cargo Build): /p/x/target");
}

#[test]
fn apps_and_leftovers() {
    let plist = "<dict>\n<key>CFBundleIdentifier</key>\n  <string> com.acme.Widget </string>\n</dict>";
    assert_eq!(bundle_id_from_plist(plist), Some("com.acme.Widget".to_string()));
    assert_eq!(bundle_id_from_plist("<key>CFBundleName</key><string>x</string>"), None);
    assert_eq!(bundle_id_from_plist("<key>CFBundleIdentifier</key><string>  </string>"), None);
    let app = installed_app("/Applications/Widget.app", Some("com.acme.Widget".to_string()), 100);
    assert_eq!(app.name, "Widget");
    assert!(!app.is_protected);
    assert!(installed_app("/Applications/Safari.app", None, 1).is_protected);
    assert!(is_leftover("com.acme.widget.plist", &app));
    assert!(is_leftover("WIDGET Helper", &app));
    assert!(!is_leftover("com.other.app", &app));
    let sorted = sort_apps(vec![
        installed_app("/Applications/zeta.app", None, 1),
        installed_app("/Applications/Alpha.app", None, 1),
        installed_app("/Applications/beta.app", None, 1),
    ]);
    let names: Vec<&str> = sorted.iter().map(|a| a.name.as_str()).collect();
    assert_eq!(names, vec!["Alpha", "beta", "zeta"]);
}

#[test]
fn uninstall_plan_skips_protected_paths() {
    let v = PathValidator::with_home("/Users/me".to_string(), vec![]);
    let app = installed_app("/Applications/Widget.app", None, 100);
    let rem = vec![
        AppRemnant { location_type: "Caches", path: "/Users/me/Library/Caches/Widget".to_string(), size_bytes: 7 },
        AppRemnant { location_type: "Caches", path: "/Users/me/Library".to_string(), size_bytes: 1000 },
    ];
    let (total, ok, flags) = plan_uninstall(&v, &app, &rem).unwrap();
    assert!(ok);
    assert_eq!(flags, vec![true, false]);
    assert_eq!(total, 107);
    let (t2, f2) = plan_removals(&v, &rem).unwrap();
    assert_eq!((t2, f2), (7, vec![true, false]));
    assert_eq!(run_status(true), "dry_run");
    assert_eq!(run_status(false), "success");
}

#[test]
fn touch_id_decisions() {
    assert!(touchid_configured_from(Some("auth       sufficient     pam_tid.so"), None));
    assert!(touchid_configured_from(None, Some("pam_tid.so")));
    assert!(!touchid_configured_from(Some("pam_smartcard.so"), None));
    assert!(touchid_supported_from(None, "aarch64"));
    assert!(touchid_supported_from(Some("Touch ID for unlock: 1"), "x86_64"));
    assert!(!touchid_supported_from(None, "x86_64"));
    let (ok, msg, next) = enable_touchid(false, true);
    assert!(ok);
    assert_eq!(msg, "Touch ID is already enabled for sudo");
    assert_eq!(next, TouchIdFollowUp::Nothing);
    assert_eq!(enable_touchid(false, false).2, TouchIdFollowUp::OpenTerminal);
    assert_eq!(disable_touchid(false, false).1, "Touch ID is not currently configured");
    assert_eq!(
        disable_touchid(true, true).1,
        "[DRY RUN] Would remove pam_tid.so configuration from /etc/pam.d/sudo_local"
    );
}

#[test]
fn applescript_texts() {
    assert_eq!(
        admin_prompt_script("say \"hi\"", true),
        "do shell script \"sudo -v\" with prompt \"say \\\"hi\\\"\" with administrator privileges"
    );
    assert_eq!(
        terminal_script("  clean "),
        "tell application \"Terminal\"\nactivate\ndo script \"export PATH=\\\"$HOME/.local/bin:$PATH\\\"; sudo pnt clean\"\nend tell"
    );
    assert!(terminal_script("").ends_with("; pnt\"\nend tell"));
    assert!(terminal_script("status").ends_with("; pnt status\"\nend tell"));
}

#[test]
fn optimizer_reports() {
    assert_eq!(task_outcome(MaintenanceTask::FlushDns, TaskResult::Succeeded).1, "Flushed DNS cache & refreshed mDNSResponder");
    assert!(!task_outcome(MaintenanceTask::PurgeMemory, TaskResult::Failed).0);
    let mut s = OptimizeSummary::new();
    s.record_task(MaintenanceTask::FlushDns, true, "a".to_string());
    s.record_task(MaintenanceTask::PurgeMemory, false, "b".to_string());
    s.record_task(MaintenanceTask::RebuildLaunchServices, false, "c".to_string());
    s.record_databases(2, vec!["d1".to_string(), "d2".to_string()]);
    assert_eq!(s.summary_line(), "Optimization Complete: 3 applied | 1 unchanged | 1 skipped");
    assert_eq!(s.logs, vec!["a".to_string(), "d1".to_string(), "d2".to_string()]);
}

#[test]
fn hdiutil_and_tmutil_output() {
    assert_eq!(last_word_exec("  a  b c  "), Some("c".to_string()));
    assert_eq!(last_word_exec("   "), None);
    let out = "image-path : /x.dmg\n/dev/disk4s1\tApple_HFS\t/Volumes/Tool\n/dev/disk1\t/Volumes/Macintosh HD\n";
    let (n, logs) = disk_image_report(out, true);
    assert_eq!(n, 1);
    assert_eq!(logs, vec!["[DRY RUN] Would inspect disk image mount: /Volumes/Tool".to_string()]);
    let snaps = snapshot_names("Snapshots for disk /:\ncom.apple.TimeMachine.2024-01-02-030405.local\n");
    assert_eq!(snaps, vec!["Snapshots for disk /:".to_string(), "local".to_string()]);
}

#[test]
fn history_records_and_lines() {
    let l = HistoryLogger::for_log_dir("/logs");
    assert_eq!(l.operations_log(), "/logs/operations.log");
    assert_eq!(l.deletions_log(), "/logs/deletions.log");
    let mut op = HistoryLogger::operation_record("clean", "System", 1536, "success");
    assert_eq!(op.command, "clean");
    op.timestamp = "2024-01-01T00:00:00Z".to_string();
    let line = history_line(&op);
    assert_eq!(
        line,
        format!("  [2024-01-01T00:00:00Z] {:<12} {:<30} {:<10} (success)", "clean", "System", "1.5 KB")
    );
    assert_eq!(most_recent(vec![1, 2, 3, 4, 5], 2), vec![5, 4]);
    assert_eq!(yes_no(true), "Yes");
    assert!(confirms_disable(" Y "));
    assert!(!confirms_disable("yes"));
    assert!(confirms_enable(""));
    assert!(!confirms_enable("N"));
}

#[test]
fn zip_archives_count_as_installers() {
    let f = classify_installer("Downloads", "/Users/me/Downloads/setup.zip", 10 * 1024 * 1024).unwrap();
    assert_eq!(f.file_name, "setup.zip");
    assert_eq!(f.size_bytes, 10 * 1024 * 1024);
    assert!(classify_installer("Downloads", "/Users/me/Downloads/Setup.ZIP", 6 * 1024 * 1024).is_some());
    assert!(classify_installer("Downloads", "/Users/me/Downloads/setup.zip", 1024).is_none());
}

#[test]
fn removal_logs_report_what_happened() {
    let big = 6 * 1024 * 1024;
    let a = classify_installer("Downloads", "/d/a.pkg", big).unwrap();
    let b = classify_installer("Downloads", "/d/b.dmg", big).unwrap();
    let c = classify_installer("Downloads", "/d/c.zip", big).unwrap();
    let items = vec![a, b, c];
    let flags = vec![true, false, true];
    assert_eq!(
        installer_log(&items, &flags, &vec![false, false, false], true),
        vec![
            "[DRY RUN] Would remove installer file: /d/a.pkg".to_string(),
            "[DRY RUN] Would remove installer file: /d/c.zip".to_string()
        ]
    );
    assert_eq!(
        installer_log(&items, &flags, &vec![true, true, false], false),
        vec!["✓ Removed installer: a.pkg (6.0 MB)".to_string()]
    );

    let art = make_artifact("/p/x/target", "Rust / Cargo Build", 2 * 1024 * 1024, true).unwrap();
    let arts = vec![art];
    assert_eq!(purge_log(&arts, &vec![true], &vec![true], false), vec!["✓ Purged x (Rust / Cargo Build) -> 2.0 MB".to_string()]);
    assert!(purge_log(&arts, &vec![false], &vec![true], false).is_empty());
    assert_eq!(
        purge_log(&arts, &vec![true], &vec![false], true),
        vec!["[DRY RUN] Would purge x (Rust / Cargo Build): /p/x/target".to_string()]
    );

    let app = installed_app("/Applications/Widget.app", None, 100);
    let rem = vec![
        AppRemnant { location_type: "Caches", path: "/Users/me/Library/Caches/Widget".to_string(), size_bytes: 7 },
        AppRemnant { location_type: "Caches", path: "/Users/me/Library".to_string(), size_bytes: 1000 },
    ];
    assert_eq!(
        uninstall_log(&app, true, true, &rem, &vec![true, false], &vec![true, false], false),
        vec![
            "✓ Removed application: /Applications/Widget.app".to_string(),
            "✓ Cleaned Caches remnant: /Users/me/Library/Caches/Widget".to_string()
        ]
    );
    assert_eq!(
        uninstall_log(&app, true, false, &rem, &vec![true, false], &vec![false, false], false),
        vec!["✗ Failed to remove application: /Applications/Widget.app".to_string()]
    );
    assert_eq!(
        uninstall_log(&app, true, false, &rem, &vec![true, false], &vec![false, false], true),
        vec![
            "[DRY RUN] Would remove application: /Applications/Widget.app".to_string(),
            "[DRY RUN] Would remove Caches remnant: /Users/me/Library/Caches/Widget".to_string()
        ]
    );
}
