use faugus_launcher::launcher::GameLauncher;
use faugus_launcher::shortcuts::ShortcutLocation;
use faugus_launcher::tray::TrayIcon;
use faugus_launcher::process::{kill_order, pid_in_table, wine_process_names};
use faugus_launcher::runner::{
    format_size, get_default_runner, proton_configs, resolve_runner, runner_path, select_asset,
    filter_runner_names, str_has_prefix, str_has_suffix, str_lex_le, validate_runner,
    ProtonAsset,
};

#[test]
fn test_kill_order_two_children_one_grandchild() {
    // Root 1 has children 2 and 3; 2 has child 4. The grandchild is
    // signalled first and the root last, and each of the three descendants
    // is signalled exactly once before the root.
    let table = vec![(2u32, Some(1u32)), (3, Some(1)), (4, Some(2))];
    let order = kill_order(&table, 1);
    assert_eq!(order, vec![4, 3, 2, 1]);
}

#[test]
fn test_kill_order_ignores_unrelated() {
    let table = vec![
        (100u32, Some(1u32)),
        (20, Some(10)),
        (21, Some(20)),
        (30, Some(99)),
    ];
    let order = kill_order(&table, 10);
    assert_eq!(order, vec![21, 20, 10]);
}

#[test]
fn test_kill_order_no_children() {
    let table = vec![(2u32, Some(1u32)), (3, Some(2))];
    let order = kill_order(&table, 7);
    assert_eq!(order, vec![7]);
}

#[test]
fn test_kill_order_no_revisit_on_deep_chain() {
    let table = vec![(2u32, Some(1u32)), (3, Some(2)), (4, Some(3)), (5, Some(4))];
    let order = kill_order(&table, 1);
    assert_eq!(order, vec![5, 4, 3, 2, 1]);
}

#[test]
fn test_pid_in_table() {
    let table = vec![(2u32, Some(1u32)), (3, None)];
    assert!(pid_in_table(&table, 3));
    assert!(!pid_in_table(&table, 4));
}

#[test]
fn test_is_process_running_against_host() {
    // Process id 1 exists on any Linux host; the largest pid value cannot.
    assert!(GameLauncher::is_process_running(1));
    assert!(!GameLauncher::is_process_running(u32::MAX));
}

#[test]
fn test_terminate_nonexistent_pid_is_best_effort() {
    // Signalling a pid that does not exist fails per-pid without aborting.
    let r = GameLauncher::terminate(4_000_000_000);
    assert!(r.is_ok());
}

#[test]
fn test_wine_process_names_fixed_list() {
    let names = wine_process_names();
    assert_eq!(
        names,
        vec![
            "wineserver".to_string(),
            "wine64-preloader".to_string(),
            "winedevice.exe".to_string(),
            "plugplay.exe".to_string(),
            "services.exe".to_string(),
            "explorer.exe".to_string(),
        ]
    );
}

#[test]
fn test_validate_runner() {
    assert!(validate_runner("GE-Proton9-5").is_ok());
    assert!(validate_runner("").is_err());
    assert!(validate_runner("a/b").is_err());
    assert!(validate_runner("a\\b").is_err());
    assert!(validate_runner("..").is_err());
    assert!(validate_runner("up..down").is_err());
    assert!(validate_runner("v1.2.3").is_ok());
}

#[test]
fn test_resolve_runner_exact_match() {
    let installed = vec!["GE-Proton9-4".to_string(), "GE-Proton9-5".to_string()];
    let r = resolve_runner("GE-Proton9-4", &installed);
    assert_eq!(r.expect("exact name installed"), "GE-Proton9-4");
}

#[test]
fn test_resolve_runner_family_prefix_picks_latest() {
    let installed = vec![
        "GE-Proton9-4".to_string(),
        "Proton-EM-10.0".to_string(),
        "GE-Proton9-5".to_string(),
    ];
    let r = resolve_runner("GE-Proton", &installed);
    assert_eq!(r.expect("family installed"), "GE-Proton9-5");
}

#[test]
fn test_resolve_runner_empty_means_host_default() {
    let installed = vec!["GE-Proton9-4".to_string()];
    let r = resolve_runner("", &installed);
    assert_eq!(r.expect("empty identifier resolves"), "");
}

#[test]
fn test_resolve_runner_not_found() {
    let installed = vec!["GE-Proton9-4".to_string()];
    let r = resolve_runner("Proton-EM", &installed);
    let e = r.expect_err("family not installed");
    assert!(e.message().contains("Runner not found"));
}

#[test]
fn test_resolve_runner_idempotent() {
    let installed = vec!["GE-Proton9-4".to_string(), "GE-Proton9-5".to_string()];
    let first = resolve_runner("GE-Proton", &installed);
    let second = resolve_runner("GE-Proton", &installed);
    assert_eq!(first.expect("resolves"), second.expect("resolves"));
}

#[test]
fn test_runner_path_join() {
    assert_eq!(
        runner_path("/compat", "GE-Proton9-5"),
        "/compat/GE-Proton9-5"
    );
    assert_eq!(runner_path("/compat", ""), "");
}

#[test]
fn test_str_helpers() {
    assert!(str_has_prefix("GE-Proton9-5", "GE-Proton"));
    assert!(!str_has_prefix("Proton-EM", "GE-Proton"));
    assert!(str_has_suffix("pkg.tar.gz", ".tar.gz"));
    assert!(!str_has_suffix("pkg.tar.xz", ".tar.gz"));
    assert!(str_lex_le("GE-Proton9-4", "GE-Proton9-5"));
    assert!(!str_lex_le("GE-Proton9-5", "GE-Proton9-4"));
    assert!(str_lex_le("abc", "abc"));
}

#[test]
fn test_proton_configs_table() {
    let configs = proton_configs();
    assert_eq!(configs.len(), 2);
    assert_eq!(configs[0].label, "GE-Proton");
    assert_eq!(configs[0].archive_ext, ".tar.gz");
    assert_eq!(configs[1].label, "Proton-EM");
    assert_eq!(configs[1].archive_ext, ".tar.xz");
    assert_eq!(get_default_runner(), "GE-Proton");
}

#[test]
fn test_select_asset_by_extension() {
    let assets = vec![
        ProtonAsset {
            name: "sums.sha512".to_string(),
            browser_download_url: "https://example.invalid/sums".to_string(),
            size: 100,
        },
        ProtonAsset {
            name: "GE-Proton9-5.tar.gz".to_string(),
            browser_download_url: "https://example.invalid/tarball".to_string(),
            size: 400_000_000,
        },
    ];
    assert_eq!(select_asset(&assets, ".tar.gz"), Some(1));
    assert_eq!(select_asset(&assets, ".tar.xz"), None);
}

#[test]
fn test_filter_runner_names() {
    let names = vec![
        "GE-Proton9-5".to_string(),
        "notes.txt".to_string(),
        "Proton-EM-10.0".to_string(),
        "SteamLinuxRuntime".to_string(),
    ];
    let kept = filter_runner_names(&names);
    assert_eq!(
        kept,
        vec!["GE-Proton9-5".to_string(), "Proton-EM-10.0".to_string()]
    );
}

#[test]
fn test_format_size_exact_values() {
    assert_eq!(format_size(500), "500 B");
    assert_eq!(format_size(1024), "1.00 KB");
    assert_eq!(format_size(1536), "1.50 KB");
    assert_eq!(format_size(1048576), "1.00 MB");
    assert_eq!(format_size(1572864), "1.50 MB");
    assert_eq!(format_size(1073741824), "1.00 GB");
    assert_eq!(format_size(1610612736), "1.50 GB");
    assert_eq!(format_size(1023), "1023 B");
}

#[test]
fn test_tray_icon_selection() {
    let candidates = vec![
        ("/nowhere/icon.png".to_string(), false),
        ("/usr/share/pixmaps/faugus-launcher.png".to_string(), true),
    ];
    let icon = TrayIcon::new(None, false, &candidates).expect("a candidate exists");
    assert_eq!(icon.path().as_str(), "/usr/share/pixmaps/faugus-launcher.png");

    let custom = TrayIcon::new(Some("/custom/icon.png".to_string()), true, &candidates)
        .expect("custom icon exists");
    assert_eq!(custom.path().as_str(), "/custom/icon.png");

    let none = TrayIcon::new(None, false, &vec![("/a".to_string(), false)]);
    assert!(none.is_err());
}

#[test]
fn test_shortcut_location_values() {
    let loc = ShortcutLocation::Both;
    assert_ne!(loc, ShortcutLocation::Desktop);
    assert_ne!(loc, ShortcutLocation::Applications);
    assert_eq!(loc, ShortcutLocation::Both);
}
