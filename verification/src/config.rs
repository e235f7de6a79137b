//! Build configuration: the per-build snapshot shared read-only by all
//! plugins, and its packaging/release sub-sections.

use vstd::prelude::*;

verus! {

/// Settings for the external packaging call.
#[derive(Debug)]
pub struct PackConfig {
    pub include_folders: Vec<String>,
    pub excludes: Vec<String>,
    pub header_extensions: Vec<String>,
}

/// Settings for publishing a release.
#[derive(Clone, Copy, Debug, PartialEq, Eq, Structural)]
pub struct ReleaseConfig {
    pub app_id: usize,
    pub workshop_id: usize,
}

/// The default app id used when a release section names none.
pub fn arma_app_id() -> (r: usize)
    ensures
        r == 107410,
{
    107410
}

pub fn default_build_path() -> (r: String)
    ensures
        r@ == "build"@,
{
    String::from_str("build")
}

pub fn default_assets_path() -> (r: String)
    ensures
        r@ == "assets"@,
{
    String::from_str("assets")
}

pub fn default_addons_path() -> (r: String)
    ensures
        r@ == "addons"@,
{
    String::from_str("addons")
}

pub fn default_release_path() -> (r: String)
    ensures
        r@ == "release"@,
{
    String::from_str("release")
}

pub fn default_keys_path() -> (r: String)
    ensures
        r@ == "keys"@,
{
    String::from_str("keys")
}

/// The immutable per-build snapshot.  Free-form per-plugin settings are
/// decoded by the shell into each plugin's own typed settings and are not
/// part of this snapshot.
#[derive(Debug)]
pub struct LaatConfig {
    pub prefix: String,
    pub name: String,
    pub build_path: String,
    pub assets_path: String,
    pub addons_path: String,
    pub release_path: String,
    pub keys_path: String,
    pub plugins: Vec<String>,
    pub release: ReleaseConfig,
    pub pack: PackConfig,
}

/// Copy a list of strings, preserving every element.
#[verifier::loop_isolation(false)]
pub fn clone_strings(v: &Vec<String>) -> (r: Vec<String>)
    ensures
        r@ == v@,
{
    let mut out: Vec<String> = Vec::new();
    let n = v.len();
    let mut i: usize = 0;
    while i < n
        invariant
            i <= n,
            n == v@.len(),
            out@.len() == i,
            forall|k: int| 0 <= k < i ==> #[trigger] out@[k] == v@[k],
        decreases n - i,
    {
        out.push(v[i].clone());
        i = i + 1;
    }
    proof {
        assert(out@ =~= v@);
    }
    out
}

impl PackConfig {
    /// Field-by-field equivalence, over the fields' views.
    pub open spec fn eqv(&self, o: &PackConfig) -> bool {
        &&& self.include_folders@ == o.include_folders@
        &&& self.excludes@ == o.excludes@
        &&& self.header_extensions@ == o.header_extensions@
    }
}

impl Clone for PackConfig {
    /// A copy equivalent to the original.
    fn clone(&self) -> (r: Self)
        ensures
            r.eqv(self),
    {
        PackConfig {
            include_folders: clone_strings(&self.include_folders),
            excludes: clone_strings(&self.excludes),
            header_extensions: clone_strings(&self.header_extensions),
        }
    }
}

impl Clone for LaatConfig {
    /// A copy equivalent to the original.
    fn clone(&self) -> (r: Self)
        ensures
            r.eqv(self),
    {
        LaatConfig {
            prefix: self.prefix.clone(),
            name: self.name.clone(),
            build_path: self.build_path.clone(),
            assets_path: self.assets_path.clone(),
            addons_path: self.addons_path.clone(),
            release_path: self.release_path.clone(),
            keys_path: self.keys_path.clone(),
            plugins: clone_strings(&self.plugins),
            release: self.release,
            pack: self.pack.clone(),
        }
    }
}

impl LaatConfig {
    /// Field-by-field equivalence, over the fields' views.
    pub open spec fn eqv(&self, o: &LaatConfig) -> bool {
        &&& self.prefix@ == o.prefix@
        &&& self.name@ == o.name@
        &&& self.build_path@ == o.build_path@
        &&& self.assets_path@ == o.assets_path@
        &&& self.addons_path@ == o.addons_path@
        &&& self.release_path@ == o.release_path@
        &&& self.keys_path@ == o.keys_path@
        &&& self.plugins@ == o.plugins@
        &&& self.release == o.release
        &&& self.pack.eqv(&o.pack)
    }

    /// The directory under the release tree that holds the released mod:
    /// `{release_path}/@{prefix}`.
    pub fn released_addon_path(&self) -> (r: String)
        ensures
            r@ == self.release_path@ + "/@"@ + self.prefix@,
    {
        let mut r = self.release_path.clone();
        r.append("/@");
        r.append(self.prefix.as_str());
        r
    }
}

} // verus!
