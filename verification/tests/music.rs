use laat::plugins::music::MusicAddon;
use laat::plugins::music::Track;
use laat::plugins::music::music_addon_name;
use laat::plugins::music::music_path;
use laat::plugins::music::track_list;

#[test]
fn track_names_are_derived_from_the_file_name() {
    let track = Track::from_parts(
        "epic-battle theme.ogg".to_string(),
        &"Orchestral".to_string(),
        185,
        "assets/music/Orchestral/epic-battle theme.ogg".to_string(),
        &"LAAT".to_string(),
        &"Music".to_string(),
    );
    assert_eq!(track.class_name, "epic_battle_theme");
    assert_eq!(track.pretty_name, "epic-battle theme");
    assert_eq!(track.duration, 185);
    assert_eq!(track.music_class, "LAATOrchestral");
    assert_eq!(
        track.sound_path,
        "LAAT\\Music\\data\\Music\\epic-battle theme.ogg"
    );
    assert_eq!(track.file_name, "epic-battle theme.ogg");
}

#[test]
fn track_without_extension_keeps_its_name() {
    let track = Track::from_parts(
        "ambient_2".to_string(),
        &"Calm".to_string(),
        60,
        "assets/music/Calm/ambient_2".to_string(),
        &"LAAT".to_string(),
        &"Music".to_string(),
    );
    assert_eq!(track.class_name, "ambient_2");
    assert_eq!(track.pretty_name, "ambient 2");
}

#[test]
fn track_list_is_quoted_and_comma_separated() {
    let mk = |name: &str| {
        Track::from_parts(
            format!("{}.ogg", name),
            &"C".to_string(),
            10,
            format!("assets/music/C/{}.ogg", name),
            &"LAAT".to_string(),
            &"Music".to_string(),
        )
    };
    let tracks = vec![mk("alpha"), mk("bravo")];
    assert_eq!(track_list(&tracks), "\"alpha\", \"bravo\"");
    assert_eq!(track_list(&vec![]), "");
    assert_eq!(track_list(&vec![mk("solo")]), "\"solo\"");
}

#[test]
fn music_addon_model_is_assembled() {
    let track = Track::from_parts(
        "alpha.ogg".to_string(),
        &"Calm".to_string(),
        10,
        "assets/music/Calm/alpha.ogg".to_string(),
        &"LAAT".to_string(),
        &"Music".to_string(),
    );
    let addon = MusicAddon::from_parts(
        "LAAT".to_string(),
        music_addon_name(),
        vec![track],
        &vec!["Calm".to_string()],
    );
    assert_eq!(addon.addon_name, "Music");
    assert_eq!(addon.track_list, "\"alpha\"");
    assert_eq!(addon.classes.len(), 1);
    assert_eq!(addon.classes[0].class_name, "LAATCalm");
    assert_eq!(addon.classes[0].display_name, "[LAAT] Calm");
    assert_eq!(music_path(), "data\\Music");
}

#[test]
fn track_assets_are_registered_into_the_music_folder() {
    let ctx = laat::config::LaatConfig {
        prefix: "LAAT".to_string(),
        name: "LAAT Test Mod".to_string(),
        build_path: "build".to_string(),
        assets_path: "assets".to_string(),
        addons_path: "addons".to_string(),
        release_path: "release".to_string(),
        keys_path: "keys".to_string(),
        plugins: vec![],
        pack: laat::config::PackConfig {
            include_folders: vec![],
            excludes: vec![],
            header_extensions: vec![],
        },
        release: laat::config::ReleaseConfig { app_id: 0, workshop_id: 0 },
    };
    let mut manager = laat::context::AddonManager::from_context("Music".to_string(), ctx);
    let track = Track::from_parts(
        "alpha.ogg".to_string(),
        &"Calm".to_string(),
        10,
        "assets/music/Calm/alpha.ogg".to_string(),
        &"LAAT".to_string(),
        &"Music".to_string(),
    );
    laat::plugins::music::register_track_assets(&mut manager, &vec![track]).unwrap();
    let copies = manager.asset_copies();
    assert_eq!(copies.len(), 1);
    assert_eq!(copies[0].0, "assets/music/Calm/alpha.ogg");
    assert_eq!(copies[0].1, "build/LAAT/Music/data/Music/alpha.ogg");
}
