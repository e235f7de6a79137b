use laat::compiler::KeyDirEntry;
use laat::compiler::LaatCompiler;
use laat::compiler::WorkshopItem;
use laat::compiler::find_keys;
use laat::compiler::is_pbo_name;
use laat::compiler::key_copy_destination;
use laat::compiler::mod_cpp_path;
use laat::compiler::pbo_plan;
use laat::compiler::project_folders;
use laat::compiler::release_dirs;
use laat::compiler::strip_quotes;
use laat::config::LaatConfig;
use laat::config::PackConfig;
use laat::config::ReleaseConfig;
use laat::config::arma_app_id;
use laat::config::default_addons_path;
use laat::config::default_assets_path;
use laat::config::default_build_path;
use laat::config::default_keys_path;
use laat::config::default_release_path;
use laat::plugins::Plugin;
use laat::plugins::get_plugin;
use laat::plugins::plugins;
use laat::LaatError;

fn config_with_plugins(names: Vec<&str>) -> LaatConfig {
    LaatConfig {
        prefix: "LAAT".to_string(),
        name: "LAAT Test Mod".to_string(),
        build_path: default_build_path(),
        assets_path: default_assets_path(),
        addons_path: default_addons_path(),
        release_path: default_release_path(),
        keys_path: default_keys_path(),
        plugins: names.into_iter().map(|s| s.to_string()).collect(),
        pack: PackConfig {
            include_folders: vec![],
            excludes: vec!["*.psd".to_string()],
            header_extensions: vec!["version=1".to_string()],
        },
        release: ReleaseConfig { app_id: arma_app_id(), workshop_id: 7 },
    }
}

#[test]
fn known_plugins_are_selectable() {
    for name in ["music", "addons", "customs", "kits", "missions"] {
        let p = get_plugin(&name.to_string()).unwrap();
        assert_eq!(p.name(), name);
    }
    let err = get_plugin(&"nonesuch".to_string()).unwrap_err();
    assert!(matches!(err, LaatError::UnknownPlugin));
}

#[test]
fn plugin_list_names_every_generator() {
    let all = plugins();
    let names: Vec<String> = all.iter().map(|p| p.name()).collect();
    assert_eq!(names, vec!["music", "addons", "customs", "kits", "missions"]);
}

#[test]
fn compiler_selects_configured_plugins_in_order() {
    let compiler = LaatCompiler::from_config(config_with_plugins(vec!["missions", "music"]))
        .unwrap();
    let names: Vec<String> = compiler.plugins.iter().map(|p| p.name()).collect();
    assert_eq!(names, vec!["missions", "music"]);
    assert_eq!(compiler.get_context().prefix, "LAAT");
}

#[test]
fn compiler_selects_a_repeated_name_once() {
    let compiler =
        LaatCompiler::from_config(config_with_plugins(vec!["music", "music", "addons", "music"]))
            .unwrap();
    let names: Vec<String> = compiler.plugins.iter().map(|p| p.name()).collect();
    assert_eq!(names, vec!["music", "addons"]);
}

#[test]
fn compiler_rejects_unknown_plugin_names() {
    let err = LaatCompiler::from_config(config_with_plugins(vec!["music", "nonesuch"]))
        .unwrap_err();
    assert!(matches!(err, LaatError::UnknownPlugin));
}

#[test]
fn pbo_plan_names_artifact_and_prefix_header() {
    let config = config_with_plugins(vec![]);
    let release_path = "release/@LAAT".to_string();
    let job = pbo_plan(&config, &release_path, &"Music".to_string());
    assert_eq!(job.pbo_name, "Music.pbo");
    assert_eq!(job.output_path, "release/@LAAT/addons/Music.pbo");
    assert_eq!(
        job.header_extensions,
        vec!["version=1".to_string(), "prefix=LAAT\\Music".to_string()]
    );
    assert_eq!(job.excludes, vec!["*.psd".to_string()]);
    assert!(job.include_folders.is_empty());
}

#[test]
fn pbo_names_are_recognized_case_insensitively() {
    assert!(is_pbo_name("Music.pbo"));
    assert!(is_pbo_name("MUSIC.PBO"));
    assert!(!is_pbo_name("Music.pbo.sig"));
    assert!(!is_pbo_name("pbo"));
    assert!(!is_pbo_name("readme.txt"));
}

#[test]
fn key_pair_is_found_by_basename() {
    let entries = vec![
        KeyDirEntry { file_name: "readme.md".to_string(), parent: "keys".to_string() },
        KeyDirEntry { file_name: "a.bikey".to_string(), parent: "keys".to_string() },
        KeyDirEntry { file_name: "a.biprivatekey".to_string(), parent: "keys".to_string() },
    ];
    let (privkey, pubkey) = find_keys(&entries).unwrap();
    assert_eq!(privkey, "keys/a.biprivatekey");
    assert_eq!(pubkey, "keys/a.bikey");
}

#[test]
fn empty_keys_directory_fails() {
    let err = find_keys(&vec![]).unwrap_err();
    assert!(matches!(err, LaatError::KeysNotFound));
    let entries = vec![KeyDirEntry {
        file_name: "notes.txt".to_string(),
        parent: "keys".to_string(),
    }];
    let err = find_keys(&entries).unwrap_err();
    assert!(matches!(err, LaatError::KeysNotFound));
}

#[test]
fn release_paths_are_planned() {
    let release_path = "release/@LAAT".to_string();
    let dirs = release_dirs(&release_path);
    assert_eq!(
        dirs,
        vec![
            "release/@LAAT".to_string(),
            "release/@LAAT/addons".to_string(),
            "release/@LAAT/keys".to_string(),
        ]
    );
    assert_eq!(mod_cpp_path(&release_path), "release/@LAAT/mod.cpp");
    assert_eq!(
        key_copy_destination(&release_path, &"a.bikey".to_string()),
        "release/@LAAT/keys/a.bikey"
    );
}

#[test]
fn workshop_item_strips_quotes_from_notes() {
    let config = config_with_plugins(vec![]);
    let item = WorkshopItem::from_parts(
        &config,
        &"/home/user/mod".to_string(),
        &"Fixed \"the\" bug".to_string(),
    );
    assert_eq!(item.app_id, 107410);
    assert_eq!(item.file_id, 7);
    assert_eq!(item.content_folder, "/home/user/mod/release/@LAAT");
    assert_eq!(item.changenotes, "Fixed the bug");
    assert_eq!(strip_quotes("\"\"\""), "");
}

#[test]
fn fresh_projects_get_their_folders() {
    let folders = project_folders();
    assert_eq!(
        folders,
        vec![
            "addons".to_string(),
            "assets".to_string(),
            "build".to_string(),
            "release".to_string(),
        ]
    );
}

#[test]
fn addon_names_and_scaffolding_are_fixed() {
    assert_eq!(laat::plugins::customs::customs_addon_name(), "Customs");
    assert_eq!(laat::plugins::kits::kits_addon_name(), "Kits");
    assert_eq!(laat::plugins::kits::default_kit_file(), "kits.toml");
    assert_eq!(laat::compiler::gitignore_content(), "\nbuild\nrelease\n");
    let ctx = config_with_plugins(vec![]);
    assert_eq!(
        laat::plugins::addons::copy_addons_destination(&ctx),
        "build/LAAT"
    );
}
