//! Generator for retexture addons: reduces the boilerplate of redefining
//! the same config once per unit member.

use crate::plugins::Plugin;
use vstd::prelude::*;

verus! {

/// The retexture generator.  Its addon holds no generated content yet; it
/// stages an empty addon under its name.
#[derive(Debug)]
pub struct CustomsPlugin;

/// The addon name the retexture generator stages under.
pub fn customs_addon_name() -> (r: String)
    ensures
        r@ == "Customs"@,
{
    String::from_str("Customs")
}

impl Plugin for CustomsPlugin {
    open spec fn spec_name(&self) -> Seq<char> {
        "customs"@
    }

    fn name(&self) -> (r: String)
        ensures
            r@ == self.spec_name(),
    {
        String::from_str("customs")
    }
}

} // verus!
