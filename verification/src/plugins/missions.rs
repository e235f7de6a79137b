//! The mission composer: stamps a reusable composition into per-map mission
//! skeletons, offsetting its positioned entities, and registers the
//! serialized missions and their auxiliary files into an addon.
//!
//! The shell renders the mission skeleton, parses it and the composition
//! files into config trees, and hands the trees in; every decision and
//! transform below is verified.

use crate::context::AddonManager;
use crate::plugins::Plugin;
use crate::tree::clone_entries;
use crate::tree::entries_view;
use crate::tree::entry_view;
use crate::tree::class_view;
use crate::tree::path_view;
use crate::tree::s_config_text;
use crate::tree::s_find_array;
use crate::tree::s_merge_class;
use crate::tree::s_offset_entries;
use crate::tree::s_vector_of;
use crate::tree::extract_vector;
use crate::tree::offset_classes;
use crate::tree::Config;
use crate::tree::ConfigEntry;
use crate::tree::EntryV;
use crate::tree::Vec3;
use crate::LaatError;
use vstd::prelude::*;

verus! {

/// The mission generator.
#[derive(Debug)]
pub struct MissionPlugin;

impl Plugin for MissionPlugin {
    open spec fn spec_name(&self) -> Seq<char> {
        "missions"@
    }

    fn name(&self) -> (r: String)
        ensures
            r@ == self.spec_name(),
    {
        String::from_str("missions")
    }
}

/// One map to create a mission for, with an optional per-map offset that
/// overrides the computed effective offset.
pub enum MapConfig {
    Plain(String),
    WithOffset(String, Vec3),
}

impl MapConfig {
    /// The map's name.
    pub open spec fn spec_map_name(&self) -> Seq<char> {
        match self {
            MapConfig::Plain(n) => n@,
            MapConfig::WithOffset(n, _) => n@,
        }
    }

    /// The per-map offset override, if declared.
    pub open spec fn spec_override(&self) -> Option<Vec3> {
        match self {
            MapConfig::Plain(_) => None,
            MapConfig::WithOffset(_, o) => Some(*o),
        }
    }
}

/// The mission generator's own settings, decoded by the shell from its
/// named section of the build settings.
pub struct MissionSettings {
    /// Name of the generated addon.
    pub addon_name: String,
    /// The maps to create missions for.
    pub maps: Vec<MapConfig>,
    /// The mission name.
    pub mission_name: String,
    /// Seconds between death and allowed respawn.
    pub respawn_delay: usize,
    /// Whether a respawn keeps the player's inventory.
    pub respawn_keep_inventory: bool,
    /// Path of the composition to stamp into every mission.
    pub composition: String,
    /// Target offset for the composition.
    pub composition_offset: Vec3,
    /// Whether the composition's own declared center is ignored rather
    /// than subtracted.
    pub ignore_center: bool,
    /// Folder holding per-mission auxiliary files.
    pub missions_folder: String,
    /// Optional settings file registered beside every mission.
    pub cba_settings_file: Option<String>,
}

/// The addon name used when the settings name none.
pub fn default_addon_name() -> (r: String)
    ensures
        r@ == "Missions"@,
{
    String::from_str("Missions")
}

/// The mission name used when the settings name none.
pub fn default_mission_name() -> (r: String)
    ensures
        r@ == "ZeusMission"@,
{
    String::from_str("ZeusMission")
}

/// The respawn delay used when the settings name none.
pub fn default_respawn_delay() -> (r: usize)
    ensures
        r == 2,
{
    2
}

/// A reusable prefab group of positioned entities: header and body trees,
/// a target offset, and the centering policy.
pub struct Composition {
    /// The composition's header tree.
    pub header: Config,
    /// The composition's body tree, holding "center" and "items".
    pub composition: Config,
    /// The target offset the composition is stamped at.
    pub offset: Vec3,
    /// When set, the body's own declared center is ignored rather than
    /// subtracted from the target offset.
    pub ignore_center: bool,
}

impl Composition {
    /// The entry list of the body tree, or empty when the body's root is
    /// an external declaration.
    pub open spec fn spec_body_entries(&self) -> Seq<(Seq<char>, EntryV)> {
        match class_view(self.composition.root).entries {
            Some(es) => es,
            None => Seq::empty(),
        }
    }

    /// The body's declared center, if a "center" array field exists.
    pub open spec fn spec_center(&self) -> Option<Vec3> {
        match s_find_array(self.spec_body_entries(), "center"@) {
            Some(elems) => Some(s_vector_of(elems)),
            None => None,
        }
    }

    /// The effective offset: the target offset unchanged when centering is
    /// ignored, else the target offset minus the declared center, so the
    /// composition's centroid lands at the target wherever it was authored.
    pub open spec fn spec_effective_offset(&self) -> Option<Vec3> {
        if self.ignore_center {
            Some(self.offset)
        } else {
            match self.spec_center() {
                Some(c) => Some(self.offset.spec_sub(c)),
                None => None,
            }
        }
    }

    /// Assemble a composition from its parsed trees, the target offset and
    /// the centering policy.
    pub fn new(header: Config, composition: Config, offset: Vec3, ignore_center: bool) -> (r:
        Composition)
        ensures
            r.header == header,
            r.composition == composition,
            r.offset == offset,
            r.ignore_center == ignore_center,
    {
        Composition { header, composition, offset, ignore_center }
    }

    /// Replace the target offset.
    pub fn set_offset(&mut self, offset: Vec3)
        ensures
            final(self).offset == offset,
            final(self).header == old(self).header,
            final(self).composition == old(self).composition,
            final(self).ignore_center == old(self).ignore_center,
    {
        self.offset = offset;
    }

    /// The body's declared center, read from its "center" array field.
    /// Fails exactly when no such field exists.
    pub fn get_center(&self) -> (r: Result<Vec3, LaatError>)
        ensures
            r is Ok <==> self.spec_center() is Some,
            r matches Ok(c) ==> Some(c) == self.spec_center(),
            r matches Err(e) ==> e is FieldNotFound,
    {
        let name = String::from_str("center");
        match &self.composition.root.entries {
            Some(es) => extract_vector(es, &name),
            None => {
                proof {
                    assert(self.spec_body_entries() =~= Seq::<(Seq<char>, EntryV)>::empty());
                }
                Err(LaatError::FieldNotFound)
            },
        }
    }

    /// The effective offset.  With the centering policy ignored, the target
    /// offset is returned unchanged whatever the composition holds; with it
    /// enabled, the declared center is subtracted from the target offset,
    /// and a composition without a center is rejected.
    pub fn get_offset(&self) -> (r: Result<Vec3, LaatError>)
        ensures
            r is Ok <==> self.spec_effective_offset() is Some,
            r matches Ok(o) ==> Some(o) == self.spec_effective_offset(),
            r matches Err(e) ==> e is FieldNotFound,
            self.ignore_center ==> r == Result::<Vec3, LaatError>::Ok(self.offset),
    {
        if self.ignore_center {
            Ok(self.offset)
        } else {
            match self.get_center() {
                Ok(center) => Ok(self.offset.sub(center)),
                Err(e) => Err(e),
            }
        }
    }

    /// The first class entry named "items" with a body, if any.
    pub open spec fn spec_items(&self) -> Option<Seq<(Seq<char>, EntryV)>> {
        s_find_class_entries(self.spec_body_entries(), "items"@)
    }

    /// The composition's items, offset by the override when one is given,
    /// else by the effective offset.  Fails exactly when the body has no
    /// "items" class, or when no override is given and the effective offset
    /// is undefined.
    pub fn get_offseted_items(&self, offset_override: Option<Vec3>) -> (r: Result<
        Vec<(String, ConfigEntry)>,
        LaatError,
    >)
        ensures
            r is Ok <==> self.spec_items() is Some && (offset_override is Some
                || self.spec_effective_offset() is Some),
            r matches Ok(items) ==> entries_view(items@) == s_offset_entries(
                self.spec_items()->0,
                match offset_override {
                    Some(o) => o,
                    None => self.spec_effective_offset()->0,
                },
            ),
            r matches Err(e) ==> e is FieldNotFound,
    {
        let off = match offset_override {
            Some(o) => o,
            None => {
                match self.get_offset() {
                    Ok(o) => o,
                    Err(e) => {
                        return Err(e);
                    },
                }
            },
        };
        let name = String::from_str("items");
        match &self.composition.root.entries {
            Some(es) => {
                match find_class_entries(es, &name) {
                    Some(items) => Ok(offset_classes(items, off)),
                    None => Err(LaatError::FieldNotFound),
                }
            },
            None => {
                proof {
                    assert(self.spec_body_entries() =~= Seq::<(Seq<char>, EntryV)>::empty());
                }
                Err(LaatError::FieldNotFound)
            },
        }
    }
}

/// The body of the first class entry of the given name that has one.
pub open spec fn s_find_class_entries(v: Seq<(Seq<char>, EntryV)>, name: Seq<char>) -> Option<
    Seq<(Seq<char>, EntryV)>,
>
    decreases v,
{
    if v.len() == 0 {
        None
    } else if v[0].0 == name && v[0].1 is Class && v[0].1->Class_0.entries is Some {
        Some(v[0].1->Class_0.entries->0)
    } else {
        s_find_class_entries(v.drop_first(), name)
    }
}

/// Find the first class entry of the given name that has a body, and copy
/// that body.
#[verifier::loop_isolation(false)]
fn find_class_entries(entries: &Vec<(String, ConfigEntry)>, name: &String) -> (r: Option<
    Vec<(String, ConfigEntry)>,
>)
    ensures
        r matches Some(items) ==> s_find_class_entries(entries_view(entries@), name@) == Some(
            entries_view(items@),
        ),
        r is None <==> s_find_class_entries(entries_view(entries@), name@) is None,
{
    broadcast use crate::tree::lemma_entries_view_index;

    let ghost ev = entries_view(entries@);
    proof {
        assert(ev.skip(0) =~= ev);
    }
    let n = entries.len();
    let mut i: usize = 0;
    while i < n
        invariant
            i <= n,
            n == entries@.len(),
            s_find_class_entries(ev, name@) == s_find_class_entries(ev.skip(i as int), name@),
        decreases n - i,
    {
        proof {
            assert(ev.skip(i as int)[0] == ev[i as int]);
            assert(ev.skip(i as int).drop_first() =~= ev.skip(i + 1));
            assert(ev[i as int].1 == entry_view(entries@[i as int].1));
        }
        if entries[i].0 == *name {
            match &entries[i].1 {
                ConfigEntry::Class(c) => {
                    match &c.entries {
                        Some(es) => {
                            proof {
                                assert(ev[i as int].1->Class_0.entries->0 == entries_view(es@));
                            }
                            return Some(clone_entries(es));
                        },
                        None => {},
                    }
                },
                _ => {},
            }
        }
        proof {
            assert(s_find_class_entries(ev.skip(i as int), name@) == s_find_class_entries(
                ev.skip(i + 1),
                name@,
            ));
        }
        i = i + 1;
    }
    proof {
        assert(ev.skip(n as int) =~= Seq::<(Seq<char>, EntryV)>::empty());
    }
    None
}

} // verus!

verus! {

/// One generated scene instance: a mission skeleton tree to stamp the
/// composition into, with its naming parts.
pub struct Mission {
    /// The map the mission is for.
    pub map_name: String,
    /// The mission's base name.
    pub mission_name: String,
    /// The mod prefix.
    pub prefix: String,
    /// The per-map offset override, if the map declared one.
    pub offset_override: Option<Vec3>,
    /// The mission's scene tree.
    pub sqm: Config,
}

impl Mission {
    /// The mission's class name: `{prefix}_{map_name}{mission_name}`.
    pub open spec fn spec_class_name(&self) -> Seq<char> {
        self.prefix@ + "_"@ + self.map_name@ + self.mission_name@
    }

    /// The mission's directory name: `{class_name}.{map_name}`.
    pub open spec fn spec_mission_name(&self) -> Seq<char> {
        self.spec_class_name() + "."@ + self.map_name@
    }

    /// Build a mission from the skeleton tree the shell rendered and
    /// parsed, taking the map's optional offset override.
    pub fn new(prefix: String, mission_name: String, map: MapConfig, sqm: Config) -> (r: Mission)
        ensures
            r.prefix@ == prefix@,
            r.mission_name@ == mission_name@,
            r.map_name@ == map.spec_map_name(),
            r.offset_override == map.spec_override(),
            r.sqm == sqm,
    {
        let (map_name, offset_override) = match map {
            MapConfig::Plain(n) => (n, None),
            MapConfig::WithOffset(n, o) => (n, Some(o)),
        };
        Mission { map_name, mission_name, prefix, offset_override, sqm }
    }

    /// Stamp the composition into this mission: its items, offset by the
    /// mission's override or the composition's effective offset, replace
    /// the Entities class inside the Mission class.  On failure the
    /// mission is left unchanged.
    pub fn merge_composition(&mut self, composition: &Composition) -> (r: Result<(), LaatError>)
        ensures
            r is Ok <==> composition.spec_items() is Some && (old(self).offset_override is Some
                || composition.spec_effective_offset() is Some),
            r is Ok ==> class_view(final(self).sqm.root) == s_merge_class(
                class_view(old(self).sqm.root),
                seq!["Mission"@, "Entities"@],
                s_offset_entries(
                    composition.spec_items()->0,
                    match old(self).offset_override {
                        Some(o) => o,
                        None => composition.spec_effective_offset()->0,
                    },
                ),
            ),
            r matches Err(e) ==> e is FieldNotFound && *final(self) == *old(self),
            final(self).map_name == old(self).map_name,
            final(self).mission_name == old(self).mission_name,
            final(self).prefix == old(self).prefix,
            final(self).offset_override == old(self).offset_override,
    {
        let items = match composition.get_offseted_items(self.offset_override) {
            Ok(items) => items,
            Err(e) => {
                return Err(e);
            },
        };
        let mut path: Vec<String> = Vec::new();
        path.push(String::from_str("Mission"));
        path.push(String::from_str("Entities"));
        proof {
            assert(path_view(path@) =~= seq!["Mission"@, "Entities"@]);
        }
        let merged = self.sqm.clone().merge_subtree(&path, items);
        self.sqm = merged;
        Ok(())
    }

    /// The mission's serialized scene text.
    pub fn to_sqm(&self) -> (r: String)
        ensures
            r@ == s_config_text(class_view(self.sqm.root)),
    {
        self.sqm.to_text()
    }

    /// The mission's directory name: `{class_name}.{map_name}`.
    pub fn mission_name(&self) -> (r: String)
        ensures
            r@ == self.spec_mission_name(),
    {
        let mut r = self.class_name();
        r.append(".");
        r.append(self.map_name.as_str());
        r
    }

    /// The mission's class name: `{prefix}_{map_name}{mission_name}`.
    pub fn class_name(&self) -> (r: String)
        ensures
            r@ == self.spec_class_name(),
    {
        let mut r = self.prefix.clone();
        r.append("_");
        r.append(self.map_name.as_str());
        r.append(self.mission_name.as_str());
        r
    }
}

/// The staged path of a mission's scene file:
/// `missions/{mission_name}/mission.sqm`.
pub fn mission_sqm_path(mission: &Mission) -> (r: String)
    ensures
        r@ == "missions/"@ + mission.spec_mission_name() + "/mission.sqm"@,
{
    let mut r = String::from_str("missions/");
    let name = mission.mission_name();
    r.append(name.as_str());
    r.append("/mission.sqm");
    r
}

/// Create one mission per configured map, each from its own copy of the
/// skeleton tree, all under the same prefix and mission name.
#[verifier::loop_isolation(false)]
pub fn create_missions(mission_settings: &MissionSettings, prefix: &String, sqm: &Config) -> (r:
    Vec<Mission>)
    ensures
        r@.len() == mission_settings.maps@.len(),
        forall|i: int|
            0 <= i < r@.len() ==> {
                &&& (#[trigger] r@[i]).prefix@ == prefix@
                &&& r@[i].mission_name@ == mission_settings.mission_name@
                &&& r@[i].map_name@ == mission_settings.maps@[i].spec_map_name()
                &&& r@[i].offset_override == mission_settings.maps@[i].spec_override()
                &&& class_view(r@[i].sqm.root) == class_view(sqm.root)
            },
{
    let n = mission_settings.maps.len();
    let mut out: Vec<Mission> = Vec::new();
    let mut i: usize = 0;
    while i < n
        invariant
            i <= n,
            n == mission_settings.maps@.len(),
            out@.len() == i,
            forall|k: int|
                0 <= k < i ==> {
                    &&& (#[trigger] out@[k]).prefix@ == prefix@
                    &&& out@[k].mission_name@ == mission_settings.mission_name@
                    &&& out@[k].map_name@ == mission_settings.maps@[k].spec_map_name()
                    &&& out@[k].offset_override == mission_settings.maps@[k].spec_override()
                    &&& class_view(out@[k].sqm.root) == class_view(sqm.root)
                },
        decreases n - i,
    {
        let map = match &mission_settings.maps[i] {
            MapConfig::Plain(name) => MapConfig::Plain(name.clone()),
            MapConfig::WithOffset(name, o) => MapConfig::WithOffset(name.clone(), *o),
        };
        let m = Mission::new(
            prefix.clone(),
            mission_settings.mission_name.clone(),
            map,
            sqm.clone(),
        );
        out.push(m);
        i = i + 1;
    }
    out
}

/// The marker line that points the game at a settings file.
pub fn cba_settings_marker() -> (r: String)
    ensures
        r@ == "cba_settings_hasSettingsFile = 1;"@,
{
    String::from_str("cba_settings_hasSettingsFile = 1;")
}

/// Register the settings file beside a mission: the marker at the addon
/// root and in the mission's folder, and the settings content itself.
pub fn add_cba_settings(
    cba_settings: String,
    addon_manager: &mut AddonManager,
    mission: &Mission,
)
    requires
        old(addon_manager).wf(),
    ensures
        final(addon_manager).wf(),
        final(addon_manager).files_map() == old(addon_manager).files_map().insert(
            old(addon_manager).spec_addon_path() + "/"@ + "description.ext"@,
            "cba_settings_hasSettingsFile = 1;"@,
        ).insert(
            old(addon_manager).spec_addon_path() + "/"@ + ("missions/"@
                + mission.spec_mission_name() + "/cba_settings.sqf"@),
            cba_settings@,
        ).insert(
            old(addon_manager).spec_addon_path() + "/"@ + ("missions/"@
                + mission.spec_mission_name() + "/description.ext"@),
            "cba_settings_hasSettingsFile = 1;"@,
        ),
        final(addon_manager).assets_map() == old(addon_manager).assets_map(),
        final(addon_manager).addon@ == old(addon_manager).addon@,
        final(addon_manager).build_context == old(addon_manager).build_context,
{
    addon_manager.add_file(cba_settings_marker(), String::from_str("description.ext"));
    let mut p = String::from_str("missions/");
    let name = mission.mission_name();
    p.append(name.as_str());
    let mut p2 = p.clone();
    p.append("/cba_settings.sqf");
    addon_manager.add_file(cba_settings, p);
    p2.append("/description.ext");
    addon_manager.add_file(cba_settings_marker(), p2);
}

/// The script lines that save and load the player's inventory around a
/// respawn.
pub fn on_player_death_script() -> (r: String)
    ensures
        r@ == "[player, [missionNamespace, \"inventory_var\"]] call BIS_fnc_saveInventory;"@,
{
    String::from_str("[player, [missionNamespace, \"inventory_var\"]] call BIS_fnc_saveInventory;")
}

pub fn on_player_respawn_script() -> (r: String)
    ensures
        r@ == "[player, [missionNamespace, \"inventory_var\"]] call BIS_fnc_loadInventory;"@,
{
    String::from_str("[player, [missionNamespace, \"inventory_var\"]] call BIS_fnc_loadInventory;")
}

/// Register the respawn and death handlers that keep a player's inventory.
pub fn keep_inventory_on_respawn(addon_manager: &mut AddonManager, mission: &Mission)
    requires
        old(addon_manager).wf(),
    ensures
        final(addon_manager).wf(),
        final(addon_manager).files_map() == old(addon_manager).files_map().insert(
            old(addon_manager).spec_addon_path() + "/"@ + ("missions/"@
                + mission.spec_mission_name() + "/onPlayerRespawn.sqf"@),
            "[player, [missionNamespace, \"inventory_var\"]] call BIS_fnc_loadInventory;"@,
        ).insert(
            old(addon_manager).spec_addon_path() + "/"@ + ("missions/"@
                + mission.spec_mission_name() + "/onPlayerKilled.sqf"@),
            "[player, [missionNamespace, \"inventory_var\"]] call BIS_fnc_saveInventory;"@,
        ),
        final(addon_manager).assets_map() == old(addon_manager).assets_map(),
        final(addon_manager).addon@ == old(addon_manager).addon@,
        final(addon_manager).build_context == old(addon_manager).build_context,
{
    let mut p = String::from_str("missions/");
    let name = mission.mission_name();
    p.append(name.as_str());
    let mut p2 = p.clone();
    p.append("/onPlayerRespawn.sqf");
    addon_manager.add_file(on_player_respawn_script(), p);
    p2.append("/onPlayerKilled.sqf");
    addon_manager.add_file(on_player_death_script(), p2);
}

/// One mission's entry in the addon's config: its class name, a briefing
/// name, and the staged directory it is loaded from.
pub struct MissionClass {
    pub class_name: String,
    pub briefing_name: String,
    pub directory: String,
}

/// The rendering model of the missions addon's config.
pub struct Addon {
    pub prefix: String,
    pub addon_name: String,
    pub missions: Vec<MissionClass>,
}

impl Addon {
    /// Assemble the rendering model from the staged missions.  Each staged
    /// path must have a directory component; its name is the folder the
    /// mission is loaded from, `{prefix}\{addon_name}\missions\{folder}`.
    pub fn from_parts(prefix: String, addon_name: String, missions: &Vec<(String, Mission)>) -> (r:
        Addon)
        requires
            forall|i: int|
                0 <= i < missions@.len() ==> {
                    &&& crate::strutil::spec_parent((#[trigger] missions@[i]).0@) is Some
                    &&& crate::strutil::spec_file_name(
                        crate::strutil::spec_parent(missions@[i].0@)->0,
                    ) is Some
                },
        ensures
            r.prefix@ == prefix@,
            r.addon_name@ == addon_name@,
            r.missions@.len() == missions@.len(),
            forall|i: int|
                0 <= i < missions@.len() ==> {
                    &&& (#[trigger] r.missions@[i]).class_name@
                        == missions@[i].1.spec_class_name()
                    &&& r.missions@[i].briefing_name@ == "["@ + prefix@ + "] "@
                        + missions@[i].1.spec_class_name()
                    &&& r.missions@[i].directory@ == prefix@ + "\\"@ + addon_name@
                        + "\\missions\\"@ + crate::strutil::spec_file_name(
                        crate::strutil::spec_parent(missions@[i].0@)->0,
                    )->0
                },
    {
        let n = missions.len();
        let mut out: Vec<MissionClass> = Vec::new();
        let mut i: usize = 0;
        while i < n
            invariant
                i <= n,
                n == missions@.len(),
                out@.len() == i,
                forall|k: int|
                    0 <= k < n ==> {
                        &&& crate::strutil::spec_parent((#[trigger] missions@[k]).0@) is Some
                        &&& crate::strutil::spec_file_name(
                            crate::strutil::spec_parent(missions@[k].0@)->0,
                        ) is Some
                    },
                forall|k: int|
                    0 <= k < i ==> {
                        &&& (#[trigger] out@[k]).class_name@ == missions@[k].1.spec_class_name()
                        &&& out@[k].briefing_name@ == "["@ + prefix@ + "] "@
                            + missions@[k].1.spec_class_name()
                        &&& out@[k].directory@ == prefix@ + "\\"@ + addon_name@ + "\\missions\\"@
                            + crate::strutil::spec_file_name(
                            crate::strutil::spec_parent(missions@[k].0@)->0,
                        )->0
                    },
            decreases n - i,
        {
            let parent = match crate::strutil::parent_dir(missions[i].0.as_str()) {
                Some(p) => p,
                None => {
                    proof {
                        assert(false);
                    }
                    String::new()
                },
            };
            let folder = match crate::strutil::file_name(parent.as_str()) {
                Some(f) => f,
                None => {
                    proof {
                        assert(false);
                    }
                    String::new()
                },
            };
            let class_name = missions[i].1.class_name();
            let mut briefing_name = String::from_str("[");
            briefing_name.append(prefix.as_str());
            briefing_name.append("] ");
            briefing_name.append(class_name.as_str());
            let mut directory = prefix.clone();
            directory.append("\\");
            directory.append(addon_name.as_str());
            directory.append("\\missions\\");
            directory.append(folder.as_str());
            out.push(MissionClass { class_name, briefing_name, directory });
            i = i + 1;
        }
        Addon { prefix, addon_name, missions: out }
    }
}

} // verus!

verus! {

/// The staged path of a mission's scene file, as a sequence.
pub open spec fn spec_mission_sqm_path(mission: &Mission) -> Seq<char> {
    "missions/"@ + mission.spec_mission_name() + "/mission.sqm"@
}

/// The file registrations one mission contributes to the addon: its scene
/// text, the settings marker and content when a settings file is
/// configured, and the inventory-keeping handlers when respawns keep the
/// player's inventory.
pub open spec fn spec_register_mission(
    files: Map<Seq<char>, Seq<char>>,
    addon_path: Seq<char>,
    mission: &Mission,
    sqm_text: Seq<char>,
    cba_settings: Option<Seq<char>>,
    keep_inventory: bool,
) -> Map<Seq<char>, Seq<char>> {
    let with_sqm = files.insert(addon_path + "/"@ + spec_mission_sqm_path(mission), sqm_text);
    let with_cba = match cba_settings {
        Some(c) => with_sqm.insert(
            addon_path + "/"@ + "description.ext"@,
            "cba_settings_hasSettingsFile = 1;"@,
        ).insert(
            addon_path + "/"@ + ("missions/"@ + mission.spec_mission_name()
                + "/cba_settings.sqf"@),
            c,
        ).insert(
            addon_path + "/"@ + ("missions/"@ + mission.spec_mission_name()
                + "/description.ext"@),
            "cba_settings_hasSettingsFile = 1;"@,
        ),
        None => with_sqm,
    };
    if keep_inventory {
        with_cba.insert(
            addon_path + "/"@ + ("missions/"@ + mission.spec_mission_name()
                + "/onPlayerRespawn.sqf"@),
            "[player, [missionNamespace, \"inventory_var\"]] call BIS_fnc_loadInventory;"@,
        ).insert(
            addon_path + "/"@ + ("missions/"@ + mission.spec_mission_name()
                + "/onPlayerKilled.sqf"@),
            "[player, [missionNamespace, \"inventory_var\"]] call BIS_fnc_saveInventory;"@,
        )
    } else {
        with_cba
    }
}

/// Register one composed mission into the addon: its serialized scene
/// under `missions/{name}/mission.sqm`, its settings files when
/// configured, and its inventory-keeping handlers when asked for.
pub fn register_mission(
    addon_manager: &mut AddonManager,
    mission: &Mission,
    cba_settings: &Option<String>,
    keep_inventory: bool,
) -> (r: String)
    requires
        old(addon_manager).wf(),
    ensures
        final(addon_manager).wf(),
        r@ == "missions/"@ + mission.spec_mission_name() + "/mission.sqm"@,
        final(addon_manager).files_map() == spec_register_mission(
            old(addon_manager).files_map(),
            old(addon_manager).spec_addon_path(),
            mission,
            s_config_text(class_view(mission.sqm.root)),
            match cba_settings {
                Some(c) => Some(c@),
                None => None,
            },
            keep_inventory,
        ),
        final(addon_manager).assets_map() == old(addon_manager).assets_map(),
        final(addon_manager).addon@ == old(addon_manager).addon@,
        final(addon_manager).build_context == old(addon_manager).build_context,
{
    let path = mission_sqm_path(mission);
    let sqm = mission.to_sqm();
    addon_manager.add_file(sqm, path.clone());
    match cba_settings {
        Some(c) => {
            add_cba_settings(c.clone(), addon_manager, mission);
        },
        None => {},
    }
    if keep_inventory {
        keep_inventory_on_respawn(addon_manager, mission);
    }
    path
}

} // verus!
