use laat::tree::ArrayElement;
use laat::tree::Config;
use laat::tree::ConfigClass;
use laat::tree::ConfigEntry;
use laat::tree::Vec3;
use laat::tree::extract_vector;
use laat::tree::offset_classes;
use laat::LaatError;

fn position_array(x: i64, y: i64, z: i64) -> ConfigEntry {
    ConfigEntry::Array(vec![
        ArrayElement::Float(x),
        ArrayElement::Float(y),
        ArrayElement::Float(z),
    ])
}

fn item_class(pos: ConfigEntry) -> ConfigEntry {
    ConfigEntry::Class(ConfigClass {
        parent: String::new(),
        is_external: false,
        is_deletion: false,
        entries: Some(vec![("position".to_string(), pos)]),
    })
}

fn position_of(entry: &ConfigEntry) -> (i64, i64, i64) {
    if let ConfigEntry::Class(c) = entry {
        for (name, e) in c.entries.as_ref().unwrap() {
            if name == "position" {
                if let ConfigEntry::Array(elems) = e {
                    let v: Vec<i64> = elems
                        .iter()
                        .map(|el| match el {
                            ArrayElement::Float(v) => *v,
                            ArrayElement::Int(v) => *v,
                            _ => 0,
                        })
                        .collect();
                    return (v[0], v[1], v[2]);
                }
            }
        }
    }
    panic!("no position");
}

#[test]
fn offset_moves_positions_componentwise() {
    let entries = vec![("item0".to_string(), item_class(position_array(1000, 2000, 3000)))];
    let out = offset_classes(entries, Vec3 { x: 500, y: -500, z: 0 });
    assert_eq!(position_of(&out[0].1), (1500, 1500, 3000));
}

#[test]
fn offset_zero_is_identity() {
    let entries = vec![
        ("item0".to_string(), item_class(position_array(1000, 2000, 3000))),
        ("note".to_string(), ConfigEntry::Str("hello".to_string())),
    ];
    let out = offset_classes(entries, Vec3 { x: 0, y: 0, z: 0 });
    assert_eq!(position_of(&out[0].1), (1000, 2000, 3000));
    if let ConfigEntry::Str(s) = &out[1].1 {
        assert_eq!(s, "hello");
    } else {
        panic!("kind changed");
    }
}

#[test]
fn offset_twice_equals_offset_by_sum() {
    let entries = vec![("item0".to_string(), item_class(position_array(100, 200, 300)))];
    let once = offset_classes(
        offset_classes(entries.clone(), Vec3 { x: 10, y: 20, z: 30 }),
        Vec3 { x: 1, y: 2, z: 3 },
    );
    let summed = offset_classes(entries, Vec3 { x: 11, y: 22, z: 33 });
    assert_eq!(position_of(&once[0].1), position_of(&summed[0].1));
}

#[test]
fn offset_descends_into_nested_classes() {
    let inner = item_class(position_array(0, 0, 0));
    let outer = ConfigEntry::Class(ConfigClass {
        parent: String::new(),
        is_external: false,
        is_deletion: false,
        entries: Some(vec![("child".to_string(), inner)]),
    });
    let out = offset_classes(vec![("group".to_string(), outer)], Vec3 { x: 7, y: 8, z: 9 });
    if let ConfigEntry::Class(c) = &out[0].1 {
        let entries = c.entries.as_ref().unwrap();
        assert_eq!(position_of(&entries[0].1), (7, 8, 9));
    } else {
        panic!("kind changed");
    }
}

#[test]
fn offset_leaves_malformed_position_untouched() {
    let cls = ConfigEntry::Class(ConfigClass {
        parent: String::new(),
        is_external: false,
        is_deletion: false,
        entries: Some(vec![(
            "position".to_string(),
            ConfigEntry::Str("not an array".to_string()),
        )]),
    });
    let out = offset_classes(vec![("item0".to_string(), cls)], Vec3 { x: 1, y: 1, z: 1 });
    if let ConfigEntry::Class(c) = &out[0].1 {
        if let ConfigEntry::Str(s) = &c.entries.as_ref().unwrap()[0].1 {
            assert_eq!(s, "not an array");
            return;
        }
    }
    panic!("malformed node was rewritten");
}

#[test]
fn extract_vector_coerces_and_defaults() {
    // an integer-written 5 and a decimal-written 7.0 coerce on one scale,
    // and the missing third element defaults to zero
    let entries = vec![(
        "center".to_string(),
        ConfigEntry::Array(vec![ArrayElement::Int(5000), ArrayElement::Float(7000)]),
    )];
    let name = "center".to_string();
    let v = extract_vector(&entries, &name).unwrap();
    assert_eq!((v.x, v.y, v.z), (5000, 7000, 0));
}

#[test]
fn integer_and_decimal_elements_offset_on_one_scale() {
    // a position written {2, 2.0, 0} moved by 3.0 lands at {5, 5.0, 3.0}
    let pos = ConfigEntry::Array(vec![
        ArrayElement::Int(2000),
        ArrayElement::Float(2000),
        ArrayElement::Int(0),
    ]);
    let entries = vec![("item0".to_string(), item_class(pos))];
    let out = offset_classes(entries, Vec3 { x: 3000, y: 3000, z: 3000 });
    assert_eq!(position_of(&out[0].1), (5000, 5000, 3000));
}

#[test]
fn extract_vector_missing_field_fails() {
    let entries = vec![("other".to_string(), ConfigEntry::Int(1))];
    let name = "center".to_string();
    let err = extract_vector(&entries, &name).unwrap_err();
    assert!(matches!(err, LaatError::FieldNotFound));
}

#[test]
fn serializer_is_stable_and_exact() {
    let root = ConfigClass {
        parent: String::new(),
        is_external: false,
        is_deletion: false,
        entries: Some(vec![
            ("version".to_string(), ConfigEntry::Int(53000)),
            ("title".to_string(), ConfigEntry::Str("Op \"Dawn\"".to_string())),
            ("center".to_string(), position_array(10500, 0, -2000)),
            (
                "Mission".to_string(),
                ConfigEntry::Class(ConfigClass {
                    parent: "Base".to_string(),
                    is_external: false,
                    is_deletion: false,
                    entries: Some(vec![("id".to_string(), ConfigEntry::Int(1000))]),
                }),
            ),
        ]),
    };
    let config = Config { root };
    let text = config.to_text();
    let expected = "version = 53;\ntitle = \"Op \"\"Dawn\"\"\";\ncenter[] = {10.500, 0.000, -2.000};\nclass Mission: Base {\n    id = 1;\n};\n";
    assert_eq!(text, expected);
    let again = config.to_text();
    assert_eq!(text, again);
}

#[test]
fn merge_subtree_replaces_entities_preserving_parent() {
    let root = ConfigClass {
        parent: String::new(),
        is_external: false,
        is_deletion: false,
        entries: Some(vec![(
            "Mission".to_string(),
            ConfigEntry::Class(ConfigClass {
                parent: "MissionBase".to_string(),
                is_external: false,
                is_deletion: false,
                entries: Some(vec![(
                    "Entities".to_string(),
                    ConfigEntry::Class(ConfigClass {
                        parent: String::new(),
                        is_external: false,
                        is_deletion: false,
                        entries: Some(vec![("old".to_string(), ConfigEntry::Int(0))]),
                    }),
                )]),
            }),
        )]),
    };
    let config = Config { root };
    let path = vec!["Mission".to_string(), "Entities".to_string()];
    let new_entries = vec![("item0".to_string(), ConfigEntry::Int(42000))];
    let merged = config.merge_subtree(&path, new_entries);
    let text = merged.to_text();
    let expected = "class Mission: MissionBase {\n    class Entities: MissionBase {\n        item0 = 42;\n    };\n};\n";
    assert_eq!(text, expected);
}

#[test]
fn serializer_covers_every_entry_kind() {
    let root = ConfigClass {
        parent: String::new(),
        is_external: false,
        is_deletion: false,
        entries: Some(vec![
            (
                "Ext".to_string(),
                ConfigEntry::Class(ConfigClass {
                    parent: String::new(),
                    is_external: true,
                    is_deletion: false,
                    entries: None,
                }),
            ),
            (
                "Old".to_string(),
                ConfigEntry::Class(ConfigClass {
                    parent: String::new(),
                    is_external: false,
                    is_deletion: true,
                    entries: None,
                }),
            ),
            (
                "Empty".to_string(),
                ConfigEntry::Class(ConfigClass {
                    parent: "Base".to_string(),
                    is_external: false,
                    is_deletion: false,
                    entries: None,
                }),
            ),
            ("count".to_string(), ConfigEntry::Int(-7000)),
            ("ratio".to_string(), ConfigEntry::Int(8500)),
            ("scale".to_string(), ConfigEntry::Float(-1500)),
            (
                "note".to_string(),
                ConfigEntry::Str("line1\nline2\rtail".to_string()),
            ),
            (
                "grid".to_string(),
                ConfigEntry::Array(vec![
                    ArrayElement::Array(vec![ArrayElement::Int(1000), ArrayElement::Int(2000)]),
                    ArrayElement::Str("x".to_string()),
                ]),
            ),
        ]),
    };
    let text = Config { root }.to_text();
    let expected = "class Ext;\ndelete Old;\nclass Empty: Base {};\ncount = -7;\nratio = 8.500;\nscale = -1.500;\nnote = \"line1\\nline2\\rtail\";\ngrid[] = {{1, 2}, \"x\"};\n";
    assert_eq!(text, expected);
}
