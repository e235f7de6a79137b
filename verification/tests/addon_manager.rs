use laat::config::LaatConfig;
use laat::config::PackConfig;
use laat::config::ReleaseConfig;
use laat::context::AddonManager;
use laat::LaatError;

fn build_context() -> LaatConfig {
    LaatConfig {
        prefix: "LAAT".to_string(),
        name: "LAAT Test Mod".to_string(),
        build_path: "build".to_string(),
        assets_path: "assets".to_string(),
        addons_path: "addons".to_string(),
        release_path: "release".to_string(),
        keys_path: "keys".to_string(),
        plugins: vec![],
        pack: PackConfig {
            include_folders: vec![],
            excludes: vec![],
            header_extensions: vec![],
        },
        release: ReleaseConfig { app_id: 0, workshop_id: 0 },
    }
}

#[test]
fn test_asset_pathing() {
    let mut manager = AddonManager::from_context("Test".to_string(), build_context());

    let addon_path = manager.add_asset("./asset/test.txt".into(), None).unwrap();

    let expected_path: String = "LAAT/Test/test.txt".into();

    assert_eq!(addon_path, expected_path);
}

#[test]
fn test_asset_pathing_with_folder() {
    let mut manager = AddonManager::from_context("Test".to_string(), build_context());

    let addon_path = manager
        .add_asset("./asset/test.txt".into(), Some("data/text".into()))
        .unwrap();

    let expected_path: String = "LAAT/Test/data/text/test.txt".into();

    assert_eq!(addon_path, expected_path);
}

#[test]
fn add_asset_without_file_name_fails() {
    let mut manager = AddonManager::from_context("Test".to_string(), build_context());
    let err = manager.add_asset("/".to_string(), None).unwrap_err();
    assert!(matches!(err, LaatError::MissingFileName));
    let err = manager.add_asset("..".to_string(), None).unwrap_err();
    assert!(matches!(err, LaatError::MissingFileName));
}

#[test]
fn add_file_registers_under_addon_path() {
    let mut manager = AddonManager::from_context("Missions".to_string(), build_context());
    manager.add_file("content".to_string(), "config.cpp".to_string());
    let writes = manager.file_writes();
    assert_eq!(writes.len(), 1);
    assert_eq!(writes[0].0, "build/LAAT/Missions/config.cpp");
    assert_eq!(writes[0].1, "content");
}

#[test]
fn add_file_same_destination_keeps_later_content() {
    let mut manager = AddonManager::from_context("Test".to_string(), build_context());
    manager.add_file("first".to_string(), "data.sqf".to_string());
    manager.add_file("second".to_string(), "data.sqf".to_string());
    let writes = manager.file_writes();
    assert_eq!(writes.len(), 1);
    assert_eq!(writes[0].1, "second");
}

#[test]
fn add_asset_same_destination_keeps_later_source() {
    // two sources with one file name collide on the destination; the later
    // registration wins and destinations stay disjoint
    let mut manager = AddonManager::from_context("Test".to_string(), build_context());
    manager.add_asset("music/a.ogg".to_string(), None).unwrap();
    manager.add_asset("other/a.ogg".to_string(), None).unwrap();
    let copies = manager.asset_copies();
    assert_eq!(copies.len(), 1);
    assert_eq!(copies[0].0, "other/a.ogg");
    assert_eq!(copies[0].1, "build/LAAT/Test/a.ogg");
}

#[test]
fn add_asset_distinct_destinations_both_stay() {
    let mut manager = AddonManager::from_context("Test".to_string(), build_context());
    manager.add_asset("music/a.ogg".to_string(), None).unwrap();
    manager
        .add_asset("music/a.ogg".to_string(), Some("data".to_string()))
        .unwrap();
    let copies = manager.asset_copies();
    assert_eq!(copies.len(), 2);
    assert_eq!(copies[0].0, "music/a.ogg");
    assert_eq!(copies[0].1, "build/LAAT/Test/a.ogg");
    assert_eq!(copies[1].0, "music/a.ogg");
    assert_eq!(copies[1].1, "build/LAAT/Test/data/a.ogg");
}

#[test]
fn empty_addon_still_has_a_root_directory_plan() {
    let manager = AddonManager::from_context("Empty".to_string(), build_context());
    assert_eq!(manager.addon_dir(), "build/LAAT/Empty");
    assert!(manager.file_writes().is_empty());
    assert!(manager.asset_copies().is_empty());
}

#[test]
fn addon_path_and_name() {
    let manager = AddonManager::from_context("Music".to_string(), build_context());
    assert_eq!(manager.addon_name(), "Music");
    assert_eq!(manager.addon_path(), "LAAT/Music");
    assert_eq!(manager.build_path(), "build");
}

#[test]
fn released_addon_path_is_prefixed() {
    let ctx = build_context();
    assert_eq!(ctx.released_addon_path(), "release/@LAAT");
}
