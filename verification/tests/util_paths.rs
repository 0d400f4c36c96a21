use eruption::startup::{
    check_script_accessible, fps_due, jitter_exceeded, profile_file_path, resolve_script_files,
    resolve_script_paths, sleep_duration, StartupError,
};
use eruption::util::{get_manifest_for, get_script_dirs, join_path, with_extension};
use eruption::MAIN_LOOP_DELAY_MILLIS;

#[test]
fn manifest_path_appends_to_lua_scripts() {
    assert_eq!(get_manifest_for("script.lua"), "script.lua.manifest");
    assert_eq!(
        get_manifest_for("/usr/share/eruption/scripts/rainbow.lua"),
        "/usr/share/eruption/scripts/rainbow.lua.manifest"
    );
}

#[test]
fn with_extension_replaces_the_last_extension() {
    assert_eq!(with_extension("archive.tar.gz", "bak"), "archive.tar.bak");
    assert_eq!(with_extension("profile1", "profile"), "profile1.profile");
    assert_eq!(with_extension("dir.d/script", "lua"), "dir.d/script.lua");
    // A leading dot begins a hidden file name, not an extension.
    assert_eq!(with_extension(".hidden", "lua"), ".hidden.lua");
    assert_eq!(with_extension("a/.hidden", "lua"), "a/.hidden.lua");
}

#[test]
fn join_path_inserts_one_separator() {
    assert_eq!(join_path("/scripts", "a.lua"), "/scripts/a.lua");
}

#[test]
fn profile_file_path_is_name_with_profile_extension_under_dir() {
    assert_eq!(
        profile_file_path("/var/lib/eruption/profiles", "default"),
        "/var/lib/eruption/profiles/default.profile"
    );
}

#[test]
fn script_dirs_fall_back_when_unconfigured() {
    let configured: Vec<String> = Vec::new();
    assert_eq!(get_script_dirs(&configured), vec![
        "/usr/share/eruption/scripts".to_string(),
    ]);
    let configured = vec!["/opt/scripts".to_string(), "/home/u/scripts".to_string()];
    assert_eq!(get_script_dirs(&configured), configured);
}

#[test]
fn profile_scripts_win_over_cli_scripts() {
    let profile = vec!["p.lua".to_string()];
    let cli = vec!["c.lua".to_string()];
    assert_eq!(resolve_script_files(&profile, &cli), profile);
    let empty: Vec<String> = Vec::new();
    assert_eq!(resolve_script_files(&empty, &cli), cli);
}

#[test]
fn script_paths_resolve_against_script_dir() {
    let files = vec!["a.lua".to_string(), "b.lua".to_string()];
    assert_eq!(resolve_script_paths("/s", &files), vec![
        "/s/a.lua".to_string(),
        "/s/b.lua".to_string(),
    ]);
}

#[test]
fn inaccessible_script_carries_exit_code_three() {
    assert_eq!(check_script_accessible(true, true), Ok(()));
    let err = check_script_accessible(true, false).unwrap_err();
    assert_eq!(err, StartupError::ScriptInaccessible);
    assert_eq!(err.exit_code(), 3);
    assert_eq!(StartupError::HidApiUnavailable.exit_code(), 1);
    assert_eq!(StartupError::NoDevicesFound.exit_code(), 2);
    assert_eq!(StartupError::DeviceOpenFailed.exit_code(), 4);
}

#[test]
fn sleep_duration_holds_the_cadence() {
    assert_eq!(sleep_duration(0), MAIN_LOOP_DELAY_MILLIS);
    assert_eq!(sleep_duration(10), MAIN_LOOP_DELAY_MILLIS - 10);
    assert_eq!(sleep_duration(MAIN_LOOP_DELAY_MILLIS), 0);
    assert_eq!(sleep_duration(10_000), 0);
}

#[test]
fn jitter_and_fps_thresholds() {
    assert!(!jitter_exceeded(MAIN_LOOP_DELAY_MILLIS + 15));
    assert!(jitter_exceeded(MAIN_LOOP_DELAY_MILLIS + 16));
    assert!(!fps_due(999));
    assert!(fps_due(1000));
}
