//! Generator that mirrors the project's static addon folders into the
//! build root.  The recursive directory copy is filesystem work done by the
//! shell; the library fixes the destination it copies into.

use crate::context::BuildContext;
use crate::plugins::Plugin;
use vstd::prelude::*;

verus! {

/// The static-addons generator.
#[derive(Debug)]
pub struct AddonPlugin;

impl Plugin for AddonPlugin {
    open spec fn spec_name(&self) -> Seq<char> {
        "addons"@
    }

    fn name(&self) -> (r: String)
        ensures
            r@ == self.spec_name(),
    {
        String::from_str("addons")
    }
}

/// The destination the static addon folders are copied into:
/// `{build_path}/{prefix}`.
pub fn copy_addons_destination(build_context: &BuildContext) -> (r: String)
    ensures
        r@ == build_context.build_path@ + "/"@ + build_context.prefix@,
{
    let mut r = build_context.build_path.clone();
    r.append("/");
    r.append(build_context.prefix.as_str());
    r
}

} // verus!
