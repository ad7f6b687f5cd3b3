use pantau::config::{all_cache_items, app_cache_folder, get_discoverable_cache_items, CleanerConfig, FoundApp};
use pantau::format::format_bytes;
use pantau::heap::LargeFileHeap;
use pantau::path::{extension_exec, file_name_exec, join_exec, path_eq_exec, path_starts_with_exec};
use pantau::safety::{expand_pattern_exec, is_protected_app, protected_system_app_names, PathValidator};
use pantau::text::{decimal_string, lines, trim, trim_end_matches, trim_start_matches};

fn float_reference(bytes: u64) -> String {
    let kb = 1024u64;
    let mb = kb * 1024;
    let gb = mb * 1024;
    let tb = gb * 1024;
    if bytes >= tb {
        format!("{:.2} TB", bytes as f64 / tb as f64)
    } else if bytes >= gb {
        format!("{:.2} GB", bytes as f64 / gb as f64)
    } else if bytes >= mb {
        format!("{:.1} MB", bytes as f64 / mb as f64)
    } else if bytes >= kb {
        format!("{:.1} KB", bytes as f64 / kb as f64)
    } else {
        format!("{} B", bytes)
    }
}

#[test]
fn format_bytes_exact_values() {
    assert_eq!(format_bytes(0), "0 B");
    assert_eq!(format_bytes(512), "512 B");
    assert_eq!(format_bytes(1023), "1023 B");
    assert_eq!(format_bytes(1024), "1.0 KB");
    assert_eq!(format_bytes(1536), "1.5 KB");
    assert_eq!(format_bytes(1024 * 1024), "1.0 MB");
    assert_eq!(format_bytes(5 * 1024 * 1024 * 1024), "5.00 GB");
    assert_eq!(format_bytes(1024u64.pow(4) * 3 / 2), "1.50 TB");
}

#[test]
fn format_bytes_agrees_with_float_formatting() {
    let mut samples: Vec<u64> = vec![
        1, 999, 1000, 1025, 1075, 1076, 10_000, 52_428, 104_857, 1_048_575, 1_048_576,
        1_153_433, 1_205_862, 99_999_999, 1_073_741_823, 1_073_741_824, 1_078_110_000,
        123_456_789_012, 1_099_511_627_775, 1_099_511_627_776, 5_000_000_000_000,
        u64::MAX / 3, u64::MAX - 1, u64::MAX,
    ];
    let mut x: u64 = 7;
    for _ in 0..2000 {
        x = x.wrapping_mul(6364136223846793005).wrapping_add(1442695040888963407);
        samples.push(x >> (x % 60));
    }
    for b in samples {
        assert_eq!(format_bytes(b), float_reference(b), "bytes = {}", b);
    }
}

#[test]
fn decimal_and_text_helpers() {
    assert_eq!(decimal_string(0), "0");
    assert_eq!(decimal_string(18446744073709551615), "18446744073709551615");
    assert_eq!(trim("  a b \t\n"), "a b");
    assert_eq!(trim_end_matches("foo/*/*", "/*"), "foo");
    assert_eq!(trim_start_matches("~/~/x", "~/"), "x");
    let ls = lines("a\r\nb\n\nc");
    assert_eq!(ls, vec!["a".to_string(), "b".to_string(), "".to_string(), "c".to_string()]);
    assert_eq!(lines("x\n"), vec!["x".to_string()]);
}

#[test]
fn path_helpers() {
    assert_eq!(join_exec("/Users/me", "Library"), "/Users/me/Library");
    assert_eq!(join_exec("/Users/me/", "Library"), "/Users/me/Library");
    assert_eq!(join_exec("/Users/me", "/etc"), "/etc");
    assert!(path_eq_exec("/a//b/", "/a/b"));
    assert!(path_starts_with_exec("/a/b/c", "/a/b"));
    assert!(!path_starts_with_exec("/a/bc", "/a/b"));
    assert_eq!(file_name_exec("/x/y/report.pdf"), Some("report.pdf".to_string()));
    assert_eq!(file_name_exec("/"), None);
    assert_eq!(extension_exec("/x/archive.tar.gz"), Some("gz".to_string()));
    assert_eq!(extension_exec("/x/.profile"), None);
}

#[test]
fn protected_apps() {
    assert_eq!(protected_system_app_names().len(), 16);
    assert!(is_protected_app("Finder"));
    assert!(is_protected_app("finder"));
    assert!(is_protected_app("Safari.app"));
    assert!(!is_protected_app("Slack"));
}

fn validator() -> PathValidator {
    PathValidator::with_home(
        "/Users/me".to_string(),
        vec!["~/Library/Caches/JetBrains*".to_string(), "~/.m2/repository/*".to_string()],
    )
}

#[test]
fn safety_errors_each_kind() {
    let v = validator();
    assert_eq!(
        v.is_safe_to_delete("/System"),
        Err("Protected system/home directory: /System".to_string())
    );
    assert_eq!(
        v.is_safe_to_delete("/Users/me"),
        Err("Protected system/home directory: /Users/me".to_string())
    );
    assert_eq!(
        v.is_safe_to_delete("/Users/me/../other"),
        Err("Path traversal (..) not allowed".to_string())
    );
    assert_eq!(
        v.is_safe_to_delete("/Users/me/Library/Caches/JetBrains/IntelliJ"),
        Err("Path is protected by whitelist: /Users/me/Library/Caches/JetBrains/IntelliJ".to_string())
    );
    assert_eq!(
        v.is_safe_to_delete("/Users/me/.m2"),
        Err("Path is protected by whitelist: /Users/me/.m2".to_string())
    );
    assert_eq!(
        v.is_safe_to_delete("/Users/me/Documents"),
        Err("Direct user folder deletion prohibited: /Users/me/Documents".to_string())
    );
    assert_eq!(v.is_safe_to_delete("/Users/me/Library/Caches/com.example"), Ok(()));
}

#[test]
fn protected_roots_ignore_trailing_slash() {
    let v = PathValidator::with_home("/Users/me".to_string(), vec![]);
    assert_eq!(
        v.is_safe_to_delete("/Library/"),
        Err("Protected system/home directory: /Library/".to_string())
    );
    assert_eq!(v.is_safe_to_delete("/usr/"), Err("Protected system/home directory: /usr/".to_string()));
    assert_eq!(
        v.is_safe_to_delete("/Users/me/"),
        Err("Protected system/home directory: /Users/me/".to_string())
    );
    assert!(v.is_safe_to_delete("/System/Library/").is_err());
    assert_eq!(v.is_safe_to_delete("/usr/local/share/junk"), Ok(()));
}

#[test]
fn whitelist_growth_keeps_refusals() {
    let small = PathValidator::with_home("/Users/me".to_string(), vec![]);
    let big = validator();
    for p in ["/System/Library", "/Users/me/Desktop", "/x/../y", "/Users/me/.m2/repository/a"] {
        if small.is_safe_to_delete(p).is_err() {
            assert!(big.is_safe_to_delete(p).is_err(), "{}", p);
        }
    }
    assert!(small.is_safe_to_delete("/Users/me/.m2/repository/a").is_ok());
}

#[test]
fn symlink_targets() {
    let v = validator();
    assert!(v.is_symlink_safe(None));
    assert!(v.is_symlink_safe(Some("/tmp/thing")));
    assert!(!v.is_symlink_safe(Some("/usr/bin")));
}

#[test]
fn expand_whitelist_patterns() {
    assert_eq!(expand_pattern_exec("/Users/me", "~/.gradle/caches/*"), "/Users/me/.gradle/caches");
    assert_eq!(expand_pattern_exec("/Users/me", "~/Library/Caches/JetBrains*"), "/Users/me/Library/Caches/JetBrains");
    assert_eq!(expand_pattern_exec("/Users/me", "/opt/x/*"), "/opt/x");
}

#[test]
fn heap_keeps_largest_files() {
    let mut h = LargeFileHeap::new(3);
    for (i, size) in [5u64, 1, 9, 7, 3, 9, 2].iter().enumerate() {
        h.push(&format!("/d/f{}.bin", i), *size);
    }
    let v = h.into_sorted_vec();
    let sizes: Vec<u64> = v.iter().map(|e| e.size_bytes).collect();
    assert_eq!(sizes, vec![9, 9, 7]);
    assert_eq!(v[2].name, "f3.bin");
    assert_eq!(v[2].path, "/d/f3.bin");
}

#[test]
fn heap_under_capacity_keeps_everything() {
    let mut h = LargeFileHeap::new(10);
    h.push("/a", 1);
    h.push("/b", 3);
    let v = h.into_sorted_vec();
    assert_eq!(v.len(), 2);
    assert_eq!(v[0].path, "/b");
}

#[test]
fn config_locations() {
    let c = CleanerConfig::for_home("/Users/me");
    assert_eq!(c.config_dir, "/Users/me/.config/pantau");
    assert_eq!(c.log_dir, "/Users/me/Library/Logs/pantau");
    assert_eq!(c.whitelist_file, "/Users/me/.config/pantau/whitelist");
    assert_eq!(c.purge_paths_file, "/Users/me/.config/pantau/purge_paths");
}

#[test]
fn whitelist_parse_and_default() {
    let d = CleanerConfig::default_whitelist();
    assert_eq!(d.len(), 20);
    assert_eq!(d[19], "FINDER_METADATA");
    assert_eq!(CleanerConfig::parse_whitelist(None), d);
    assert_eq!(CleanerConfig::parse_whitelist(Some("# only comments\n\n   \n")), d);
    assert_eq!(
        CleanerConfig::parse_whitelist(Some("# c\n  ~/a/*  \n\n/b\n#x\n")),
        vec!["~/a/*".to_string(), "/b".to_string()]
    );
}

#[test]
fn whitelist_save_then_load_gives_back_patterns() {
    let pats = vec!["~/x/*".to_string(), "/opt/y".to_string(), "FINDER_METADATA".to_string()];
    let text = CleanerConfig::whitelist_content(&pats);
    assert!(text.starts_with("# Pantau Whitelist - Protected paths won't be deleted\n"));
    assert!(text.ends_with("\n~/x/*\n/opt/y\nFINDER_METADATA\n"));
    assert_eq!(CleanerConfig::parse_whitelist(Some(&text)), pats);
}

#[test]
fn purge_paths() {
    let got = CleanerConfig::purge_path_candidates("/Users/me", "# dirs\n~/code\n/srv/src\n\n");
    assert_eq!(got, vec!["/Users/me/code".to_string(), "/srv/src".to_string()]);
    let d = CleanerConfig::default_purge_dirs("/Users/me");
    assert_eq!(d.len(), 8);
    assert_eq!(d[0], "/Users/me/Projects");
    assert_eq!(d[6], "/Users/me/Personal Projects");
}

#[test]
fn cache_catalogue() {
    let items = all_cache_items();
    assert!(items.len() > 50);
    assert_eq!(app_cache_folder("Slack.app", Some("com.tinyspeck.slackmacgap")), "com.tinyspeck.slackmacgap");
    assert_eq!(app_cache_folder("Slack.app", None), "Slack");
}

#[test]
fn discoverable_items_skip_known_and_hidden() {
    let apps = vec![
        FoundApp { file_name: "Foo.app".to_string(), bundle_id: Some("com.foo".to_string()), cache_exists: true },
        FoundApp { file_name: "Bar.app".to_string(), bundle_id: None, cache_exists: false },
    ];
    let user = vec!["com.foo".to_string(), ".hidden".to_string(), "Zed".to_string()];
    let tool = vec!["mytool".to_string(), "pip".to_string()];
    let out = get_discoverable_cache_items(&apps, &user, &tool);
    let base = all_cache_items().len();
    let extra: Vec<(String, String, String)> = out[base..]
        .iter()
        .map(|i| (i.display_name.clone(), i.pattern.clone(), i.category.clone()))
        .collect();
    assert_eq!(extra.len(), 3, "{:?}", extra);
    assert_eq!(extra[0].1, "~/Library/Caches/com.foo/*");
    assert_eq!(extra[1], ("Zed cache".to_string(), "~/Library/Caches/Zed/*".to_string(), "user_cache".to_string()));
    assert_eq!(extra[2].1, "~/.cache/mytool/*");
    assert_eq!(extra[2].2, "dev_cache");
}

#[test]
fn home_fallback() {
    assert_eq!(pantau::home::home_or_root_from(Some("/Users/me".to_string())), "/Users/me");
    assert_eq!(pantau::home::home_or_root_from(None), "/");
}
