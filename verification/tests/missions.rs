use laat::plugins::missions::Addon;
use laat::plugins::missions::Composition;
use laat::plugins::missions::MapConfig;
use laat::plugins::missions::Mission;
use laat::plugins::missions::MissionSettings;
use laat::plugins::missions::create_missions;
use laat::plugins::missions::default_addon_name;
use laat::plugins::missions::default_mission_name;
use laat::plugins::missions::default_respawn_delay;
use laat::plugins::missions::mission_sqm_path;
use laat::tree::ArrayElement;
use laat::tree::Config;
use laat::tree::ConfigClass;
use laat::tree::ConfigEntry;
use laat::tree::Vec3;
use laat::LaatError;

fn empty_config() -> Config {
    Config {
        root: ConfigClass {
            parent: String::new(),
            is_external: false,
            is_deletion: false,
            entries: Some(vec![]),
        },
    }
}

fn composition_body(center: Option<(i64, i64, i64)>, items: Vec<(String, ConfigEntry)>) -> Config {
    let mut entries: Vec<(String, ConfigEntry)> = Vec::new();
    if let Some((x, y, z)) = center {
        entries.push((
            "center".to_string(),
            ConfigEntry::Array(vec![
                ArrayElement::Float(x),
                ArrayElement::Float(y),
                ArrayElement::Float(z),
            ]),
        ));
    }
    entries.push((
        "items".to_string(),
        ConfigEntry::Class(ConfigClass {
            parent: String::new(),
            is_external: false,
            is_deletion: false,
            entries: Some(items),
        }),
    ));
    Config {
        root: ConfigClass {
            parent: String::new(),
            is_external: false,
            is_deletion: false,
            entries: Some(entries),
        },
    }
}

fn item_at(x: i64, y: i64, z: i64) -> ConfigEntry {
    ConfigEntry::Class(ConfigClass {
        parent: String::new(),
        is_external: false,
        is_deletion: false,
        entries: Some(vec![(
            "position".to_string(),
            ConfigEntry::Array(vec![
                ArrayElement::Float(x),
                ArrayElement::Float(y),
                ArrayElement::Float(z),
            ]),
        )]),
    })
}

fn item_position(entry: &ConfigEntry) -> (i64, i64, i64) {
    if let ConfigEntry::Class(c) = entry {
        if let ConfigEntry::Array(elems) = &c.entries.as_ref().unwrap()[0].1 {
            let v: Vec<i64> = elems
                .iter()
                .map(|el| match el {
                    ArrayElement::Float(v) => *v,
                    ArrayElement::Int(v) => *v,
                    _ => 0,
                })
                .collect();
            return (v[0], v[1], v[2]);
        }
    }
    panic!("no position");
}

#[test]
fn get_offset_ignores_center_when_asked() {
    // the body has no center at all, yet the target offset comes back
    let comp = Composition::new(
        empty_config(),
        empty_config(),
        Vec3 { x: 4, y: 5, z: 6 },
        true,
    );
    let off = comp.get_offset().unwrap();
    assert_eq!((off.x, off.y, off.z), (4, 5, 6));
}

#[test]
fn get_offset_subtracts_declared_center() {
    let comp = Composition::new(
        empty_config(),
        composition_body(Some((10000, 0, 5000)), vec![]),
        Vec3 { x: 0, y: 0, z: 0 },
        false,
    );
    let off = comp.get_offset().unwrap();
    assert_eq!((off.x, off.y, off.z), (-10000, 0, -5000));
}

#[test]
fn integer_written_center_behaves_like_a_decimal_one() {
    // a center authored as {10, 0, 5} (integer literals) and one authored
    // as {10.0, 0.0, 5.0} give the same effective offset
    let comp = Composition::new(
        empty_config(),
        Config {
            root: ConfigClass {
                parent: String::new(),
                is_external: false,
                is_deletion: false,
                entries: Some(vec![(
                    "center".to_string(),
                    ConfigEntry::Array(vec![
                        ArrayElement::Int(10000),
                        ArrayElement::Int(0),
                        ArrayElement::Int(5000),
                    ]),
                )]),
            },
        },
        Vec3 { x: 0, y: 0, z: 0 },
        false,
    );
    let off = comp.get_offset().unwrap();
    assert_eq!((off.x, off.y, off.z), (-10000, 0, -5000));
}

#[test]
fn get_offset_without_center_fails() {
    let comp = Composition::new(
        empty_config(),
        composition_body(None, vec![]),
        Vec3 { x: 0, y: 0, z: 0 },
        false,
    );
    let err = comp.get_offset().unwrap_err();
    assert!(matches!(err, LaatError::FieldNotFound));
}

#[test]
fn composed_missions_share_one_effective_offset() {
    // two maps, declared center (10, 0, 5) in thousandths, centering on,
    // no per-map override, target offset zero: both missions' items move
    // by (-10, 0, -5).
    let settings = MissionSettings {
        addon_name: default_addon_name(),
        maps: vec![
            MapConfig::Plain("Stratis".to_string()),
            MapConfig::Plain("Altis".to_string()),
        ],
        mission_name: default_mission_name(),
        respawn_delay: default_respawn_delay(),
        respawn_keep_inventory: false,
        composition: "compositions/base".to_string(),
        composition_offset: Vec3 { x: 0, y: 0, z: 0 },
        ignore_center: false,
        missions_folder: "missions".to_string(),
        cba_settings_file: None,
    };
    let comp = Composition::new(
        empty_config(),
        composition_body(
            Some((10000, 0, 5000)),
            vec![("item0".to_string(), item_at(10000, 0, 5000))],
        ),
        settings.composition_offset,
        settings.ignore_center,
    );
    let skeleton = Config {
        root: ConfigClass {
            parent: String::new(),
            is_external: false,
            is_deletion: false,
            entries: Some(vec![(
                "Mission".to_string(),
                ConfigEntry::Class(ConfigClass {
                    parent: String::new(),
                    is_external: false,
                    is_deletion: false,
                    entries: Some(vec![]),
                }),
            )]),
        },
    };
    let prefix = "LAAT".to_string();
    let mut missions = create_missions(&settings, &prefix, &skeleton);
    assert_eq!(missions.len(), 2);
    let off = comp.get_offset().unwrap();
    assert_eq!((off.x, off.y, off.z), (-10000, 0, -5000));
    let mut texts = Vec::new();
    for mission in missions.iter_mut() {
        mission.merge_composition(&comp).unwrap();
        // the item landed at the origin on every map
        let items = comp.get_offseted_items(None).unwrap();
        assert_eq!(item_position(&items[0].1), (0, 0, 0));
        texts.push(mission.to_sqm());
    }
    // both missions got the identical merged entity tree
    assert_eq!(texts[0], texts[1]);
    assert_eq!(missions[0].mission_name(), "LAAT_StratisZeusMission.Stratis");
    assert_eq!(missions[1].mission_name(), "LAAT_AltisZeusMission.Altis");
}

#[test]
fn per_map_override_wins_over_effective_offset() {
    let comp = Composition::new(
        empty_config(),
        composition_body(
            Some((10000, 0, 5000)),
            vec![("item0".to_string(), item_at(0, 0, 0))],
        ),
        Vec3 { x: 0, y: 0, z: 0 },
        false,
    );
    let items = comp
        .get_offseted_items(Some(Vec3 { x: 7, y: 7, z: 7 }))
        .unwrap();
    assert_eq!(item_position(&items[0].1), (7, 7, 7));
}

#[test]
fn missing_items_class_fails() {
    let comp = Composition::new(
        empty_config(),
        composition_body(Some((0, 0, 0)), vec![]),
        Vec3 { x: 0, y: 0, z: 0 },
        false,
    );
    // a body whose "items" class is present but empty succeeds ...
    assert!(comp.get_offseted_items(None).unwrap().is_empty());
    // ... one without any "items" class fails
    let comp2 = Composition::new(
        empty_config(),
        Config {
            root: ConfigClass {
                parent: String::new(),
                is_external: false,
                is_deletion: false,
                entries: Some(vec![]),
            },
        },
        Vec3 { x: 0, y: 0, z: 0 },
        true,
    );
    let err = comp2.get_offseted_items(None).unwrap_err();
    assert!(matches!(err, LaatError::FieldNotFound));
}

#[test]
fn mission_names_follow_the_naming_scheme() {
    let m = Mission::new(
        "LAAT".to_string(),
        "ZeusMission".to_string(),
        MapConfig::Plain("Stratis".to_string()),
        empty_config(),
    );
    assert_eq!(m.class_name(), "LAAT_StratisZeusMission");
    assert_eq!(m.mission_name(), "LAAT_StratisZeusMission.Stratis");
    assert_eq!(
        mission_sqm_path(&m),
        "missions/LAAT_StratisZeusMission.Stratis/mission.sqm"
    );
}

#[test]
fn addon_model_extracts_mission_folders() {
    let m = Mission::new(
        "LAAT".to_string(),
        "ZeusMission".to_string(),
        MapConfig::Plain("Altis".to_string()),
        empty_config(),
    );
    let path = mission_sqm_path(&m);
    let addon = Addon::from_parts("LAAT".to_string(), "Missions".to_string(), &vec![(path, m)]);
    assert_eq!(addon.missions.len(), 1);
    assert_eq!(addon.missions[0].class_name, "LAAT_AltisZeusMission");
    assert_eq!(addon.missions[0].briefing_name, "[LAAT] LAAT_AltisZeusMission");
    assert_eq!(
        addon.missions[0].directory,
        "LAAT\\Missions\\missions\\LAAT_AltisZeusMission.Altis"
    );
}
