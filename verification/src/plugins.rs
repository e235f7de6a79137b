//! Content generators: the capability trait, the known generators, and
//! name-keyed selection.

use vstd::prelude::*;

pub mod addons;
pub mod customs;
pub mod kits;
pub mod missions;
pub mod music;

pub use addons::AddonPlugin;
pub use customs::CustomsPlugin;
pub use kits::KitPlugin;
pub use missions::MissionPlugin;
pub use music::MusicPlugin;

verus! {

/// A content generator.  Each generator computes asset and file
/// registrations for one addon from the shared build snapshot together with
/// its own decoded settings and pre-fetched collaborator results; the shell
/// drives its outside work.
pub trait Plugin {
    /// The generator's unique name.
    spec fn spec_name(&self) -> Seq<char>;

    /// The generator's unique name.
    fn name(&self) -> (r: String)
        ensures
            r@ == self.spec_name(),
    ;
}

/// One of the known generators, as a closed tagged variant.  The trait
/// stays the capability interface; the enum is how a generator chosen by
/// name is carried as a value.
#[derive(Debug)]
pub enum PluginKind {
    Music(MusicPlugin),
    Addons(AddonPlugin),
    Customs(CustomsPlugin),
    Kits(KitPlugin),
    Missions(MissionPlugin),
}

impl Plugin for PluginKind {
    open spec fn spec_name(&self) -> Seq<char> {
        match self {
            PluginKind::Music(p) => p.spec_name(),
            PluginKind::Addons(p) => p.spec_name(),
            PluginKind::Customs(p) => p.spec_name(),
            PluginKind::Kits(p) => p.spec_name(),
            PluginKind::Missions(p) => p.spec_name(),
        }
    }

    fn name(&self) -> (r: String)
        ensures
            r@ == self.spec_name(),
    {
        match self {
            PluginKind::Music(p) => p.name(),
            PluginKind::Addons(p) => p.name(),
            PluginKind::Customs(p) => p.name(),
            PluginKind::Kits(p) => p.name(),
            PluginKind::Missions(p) => p.name(),
        }
    }
}

/// Look a generator up by name.  Succeeds exactly on the known names and
/// returns the generator carrying that name.
pub fn get_plugin(name: &String) -> (r: Result<PluginKind, crate::LaatError>)
    ensures
        r is Ok <==> (name@ == "music"@ || name@ == "addons"@ || name@ == "customs"@ || name@
            == "kits"@ || name@ == "missions"@),
        r matches Ok(p) ==> p.spec_name() == name@,
        r matches Err(e) ==> e is UnknownPlugin,
{
    if *name == String::from_str("music") {
        Ok(PluginKind::Music(MusicPlugin))
    } else if *name == String::from_str("addons") {
        Ok(PluginKind::Addons(AddonPlugin))
    } else if *name == String::from_str("customs") {
        Ok(PluginKind::Customs(CustomsPlugin))
    } else if *name == String::from_str("kits") {
        Ok(PluginKind::Kits(KitPlugin))
    } else if *name == String::from_str("missions") {
        Ok(PluginKind::Missions(MissionPlugin))
    } else {
        Err(crate::LaatError::UnknownPlugin)
    }
}

/// All known generators, one of each.
pub fn plugins() -> (r: Vec<PluginKind>)
    ensures
        r@.len() == 5,
        r@[0].spec_name() == "music"@,
        r@[1].spec_name() == "addons"@,
        r@[2].spec_name() == "customs"@,
        r@[3].spec_name() == "kits"@,
        r@[4].spec_name() == "missions"@,
{
    let mut v: Vec<PluginKind> = Vec::new();
    v.push(PluginKind::Music(MusicPlugin));
    v.push(PluginKind::Addons(AddonPlugin));
    v.push(PluginKind::Customs(CustomsPlugin));
    v.push(PluginKind::Kits(KitPlugin));
    v.push(PluginKind::Missions(MissionPlugin));
    v
}

} // verus!
