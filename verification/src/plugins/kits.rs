//! Generator for kit and armor boxes.  The kit file is decoded by the shell
//! into the typed model below; the generator stages its addon under a fixed
//! name.

use crate::plugins::Plugin;
use vstd::prelude::*;

verus! {

/// The kit generator.
#[derive(Debug)]
pub struct KitPlugin;

/// Where a kit item is stowed.
#[derive(Clone, Copy, Debug, PartialEq, Eq, Structural)]
pub enum Location {
    Vest,
    Backpack,
    Uniform,
    Link,
    AddAssign,
}

/// One item of a kit: an optional count, the item class and its location.
pub struct Item {
    pub count: usize,
    pub class_name: String,
    pub location: Location,
}

/// A reusable group of items.
pub struct Component {
    pub items: Vec<Item>,
}

/// One kit: weapons, containers, traits, loose items and component names.
pub struct Kit {
    pub weapons: Vec<String>,
    pub vest: String,
    pub backpack: String,
    pub traits: Vec<String>,
    pub items: Vec<Item>,
    pub components: Vec<String>,
}

/// The decoded kit file: named kits and named components.
pub struct KitFile {
    pub kits: Vec<(String, Kit)>,
    pub components: Vec<(String, Component)>,
}

/// The addon name the kit generator stages under.
pub fn kits_addon_name() -> (r: String)
    ensures
        r@ == "Kits"@,
{
    String::from_str("Kits")
}

/// The default kit file path, used when the build settings name none.
pub fn default_kit_file() -> (r: String)
    ensures
        r@ == "kits.toml"@,
{
    String::from_str("kits.toml")
}

impl Plugin for KitPlugin {
    open spec fn spec_name(&self) -> Seq<char> {
        "kits"@
    }

    fn name(&self) -> (r: String)
        ensures
            r@ == self.spec_name(),
    {
        String::from_str("kits")
    }
}

} // verus!
