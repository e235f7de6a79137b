use laat::config::LaatConfig;
use laat::config::PackConfig;
use laat::config::ReleaseConfig;
use laat::context::AddonManager;
use laat::plugins::missions::MapConfig;
use laat::plugins::missions::Mission;
use laat::plugins::missions::add_cba_settings;
use laat::plugins::missions::keep_inventory_on_respawn;
use laat::tree::Config;
use laat::tree::ConfigClass;
use laat::LaatError;

fn test_context() -> LaatConfig {
    LaatConfig {
        prefix: "LAAT".to_string(),
        name: "LAAT Test Mod".to_string(),
        build_path: "build".to_string(),
        assets_path: "assets".to_string(),
        addons_path: "addons".to_string(),
        release_path: "release".to_string(),
        keys_path: "keys".to_string(),
        plugins: vec![],
        pack: PackConfig {
            include_folders: vec![],
            excludes: vec![],
            header_extensions: vec![],
        },
        release: ReleaseConfig { app_id: 0, workshop_id: 0 },
    }
}

fn mission() -> Mission {
    Mission::new(
        "LAAT".to_string(),
        "ZeusMission".to_string(),
        MapConfig::Plain("Stratis".to_string()),
        Config {
            root: ConfigClass {
                parent: String::new(),
                is_external: false,
                is_deletion: false,
                entries: Some(vec![]),
            },
        },
    )
}

#[test]
fn cba_settings_are_registered_beside_the_mission() {
    let mut manager = AddonManager::from_context("Missions".to_string(), test_context());
    add_cba_settings("force x = 1;".to_string(), &mut manager, &mission());
    let writes = manager.file_writes();
    let paths: Vec<&str> = writes.iter().map(|w| w.0.as_str()).collect();
    assert!(paths.contains(&"build/LAAT/Missions/description.ext"));
    assert!(paths.contains(
        &"build/LAAT/Missions/missions/LAAT_StratisZeusMission.Stratis/cba_settings.sqf"
    ));
    assert!(paths.contains(
        &"build/LAAT/Missions/missions/LAAT_StratisZeusMission.Stratis/description.ext"
    ));
    for (path, content) in &writes {
        if path.ends_with("cba_settings.sqf") {
            assert_eq!(content, "force x = 1;");
        } else {
            assert_eq!(content, "cba_settings_hasSettingsFile = 1;");
        }
    }
}

#[test]
fn respawn_scripts_are_registered_per_mission() {
    let mut manager = AddonManager::from_context("Missions".to_string(), test_context());
    keep_inventory_on_respawn(&mut manager, &mission());
    let writes = manager.file_writes();
    assert_eq!(writes.len(), 2);
    assert!(writes.iter().any(|w| w.0.ends_with("onPlayerRespawn.sqf")
        && w.1.contains("BIS_fnc_loadInventory")));
    assert!(writes.iter().any(|w| w.0.ends_with("onPlayerKilled.sqf")
        && w.1.contains("BIS_fnc_saveInventory")));
}

#[test]
fn error_messages_name_their_cause() {
    assert_eq!(
        LaatError::MissingFileName.message(),
        "failed to get file name for asset path"
    );
    assert_eq!(LaatError::FieldNotFound.message(), "failed to get field from config tree");
    assert_eq!(LaatError::KeysNotFound.message(), "keys not found");
    assert_eq!(LaatError::UnknownPlugin.message(), "unknown plugin");
}

#[test]
fn register_mission_stages_scene_and_aux_files() {
    let mut manager = AddonManager::from_context("Missions".to_string(), test_context());
    let m = mission();
    let path = laat::plugins::missions::register_mission(
        &mut manager,
        &m,
        &Some("force x = 1;".to_string()),
        true,
    );
    assert_eq!(path, "missions/LAAT_StratisZeusMission.Stratis/mission.sqm");
    let writes = manager.file_writes();
    // the scene, the root marker, the two settings files and the two handlers
    assert_eq!(writes.len(), 6);
    assert!(writes.iter().any(|w| w.0
        == "build/LAAT/Missions/missions/LAAT_StratisZeusMission.Stratis/mission.sqm"));
}
