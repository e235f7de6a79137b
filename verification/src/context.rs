//! Addon staging: accumulate per-addon asset-copy and file-write intents
//! under namespaced destination paths, and hand a materialization plan to
//! the unverified shell that performs the filesystem work.

use crate::config::LaatConfig;
use crate::strutil::file_name;
use crate::strutil::spec_file_name;
use crate::LaatError;
use vstd::prelude::*;

verus! {

/// The per-build snapshot shared by all plugins.
pub type BuildContext = LaatConfig;

/// The mathematical model of a registration list: a map where the latest
/// registration of a key wins.
pub open spec fn al_view(v: Seq<(String, String)>) -> Map<Seq<char>, Seq<char>>
    decreases v.len(),
{
    if v.len() == 0 {
        Map::empty()
    } else {
        al_view(v.drop_last()).insert(v.last().0@, v.last().1@)
    }
}

/// Whether some entry carries the key.
pub open spec fn al_has_key(v: Seq<(String, String)>, k: Seq<char>) -> bool {
    exists|i: int| 0 <= i < v.len() && (#[trigger] v[i]).0@ == k
}

/// Keys are registered at most once.
pub open spec fn al_wf(v: Seq<(String, String)>) -> bool {
    forall|i: int, j: int| 0 <= i < j < v.len() ==> (#[trigger] v[i]).0@ != (#[trigger] v[j]).0@
}

/// The map's domain is exactly the registered keys.
proof fn lemma_al_view_dom(v: Seq<(String, String)>, k: Seq<char>)
    ensures
        al_view(v).contains_key(k) <==> al_has_key(v, k),
    decreases v.len(),
{
    if v.len() > 0 {
        lemma_al_view_dom(v.drop_last(), k);
        if al_has_key(v, k) && v.last().0@ != k {
            let i = choose|i: int| 0 <= i < v.len() && (#[trigger] v[i]).0@ == k;
            assert(v.drop_last()[i] == v[i]);
        }
    }
}

/// Removing the only entry of a key removes the key from the map.
proof fn lemma_al_view_remove(v: Seq<(String, String)>, j: int)
    requires
        al_wf(v),
        0 <= j < v.len(),
    ensures
        al_view(v.remove(j)) == al_view(v).remove(v[j].0@),
    decreases v.len(),
{
    let k = v[j].0@;
    if j == v.len() - 1 {
        assert(v.remove(j) =~= v.drop_last());
        lemma_al_view_dom(v.drop_last(), k);
        assert(!al_has_key(v.drop_last(), k)) by {
            if al_has_key(v.drop_last(), k) {
                let i = choose|i: int|
                    0 <= i < v.drop_last().len() && (#[trigger] v.drop_last()[i]).0@ == k;
                assert(v[i].0@ == k);
            }
        }
        assert(al_view(v).remove(k) =~= al_view(v.drop_last()));
    } else {
        assert(al_wf(v.drop_last())) by {
            assert(forall|a: int, b: int|
                0 <= a < b < v.drop_last().len() ==> (#[trigger] v.drop_last()[a]).0@ != (
                #[trigger] v.drop_last()[b]).0@);
        }
        lemma_al_view_remove(v.drop_last(), j);
        assert(v.remove(j).drop_last() =~= v.drop_last().remove(j));
        assert(v.remove(j).last() == v.last());
        assert(v.drop_last()[j] == v[j]);
        assert(al_view(v.remove(j)) == al_view(v.drop_last().remove(j)).insert(
            v.last().0@,
            v.last().1@,
        ));
        assert(v.last().0@ != k);
        assert(al_view(v.drop_last()).remove(k).insert(v.last().0@, v.last().1@) =~= al_view(
            v.drop_last(),
        ).insert(v.last().0@, v.last().1@).remove(k));
    }
}

/// Register `key -> val`, overwriting any earlier registration of the key.
#[verifier::loop_isolation(false)]
fn al_upsert(v: &mut Vec<(String, String)>, key: String, val: String)
    requires
        al_wf(old(v)@),
    ensures
        al_wf(final(v)@),
        al_view(final(v)@) == al_view(old(v)@).insert(key@, val@),
        final(v)@.last() == (key, val),
        final(v)@.len() <= old(v)@.len() + 1,
{
    let ghost orig = v@;
    let n = v.len();
    let mut j: usize = 0;
    while j < n && !(v[j].0 == key)
        invariant
            v@ == orig,
            n == orig.len(),
            j <= n,
            forall|i: int| 0 <= i < j ==> (#[trigger] orig[i]).0@ != key@,
        decreases n - j,
    {
        j = j + 1;
    }
    if j < n {
        let _old = v.remove(j);
        proof {
            lemma_al_view_remove(orig, j as int);
            assert(forall|a: int, b: int|
                0 <= a < b < v@.len() ==> (#[trigger] v@[a]).0@ != (#[trigger] v@[b]).0@);
        }
    } else {
        proof {
            lemma_al_view_dom(orig, key@);
            assert(!al_has_key(orig, key@));
            assert(al_view(orig).remove(key@) =~= al_view(orig));
        }
    }
    let ghost mid = v@;
    proof {
        assert(al_view(mid) == al_view(orig).remove(key@));
        lemma_al_view_dom(mid, key@);
    }
    v.push((key, val));
    proof {
        assert(v@.drop_last() =~= mid);
        assert(al_view(v@) == al_view(mid).insert(key@, val@));
        assert(al_view(orig).remove(key@).insert(key@, val@) =~= al_view(orig).insert(key@, val@));
        assert forall|a: int, b: int|
            0 <= a < b < v@.len() implies (#[trigger] v@[a]).0@ != (#[trigger] v@[b]).0@ by {
            if b == v@.len() - 1 {
                assert(!al_has_key(mid, key@));
                assert(v@[a] == mid[a]);
            } else {
                assert(v@[a] == mid[a] && v@[b] == mid[b]);
            }
        }
    }
}

/// Per-addon staging of asset copies and generated files, materialized
/// under a namespaced build root.
pub struct AddonManager {
    /// The addon's name.
    pub addon: String,
    /// The build snapshot the addon is staged against.
    pub build_context: BuildContext,
    /// Registered asset copies: prefixed destination to source path.
    pub assets: Vec<(String, String)>,
    /// Registered file writes: prefixed destination to content.
    pub files: Vec<(String, String)>,
}

impl AddonManager {
    /// Both registration lists keep each key at most once.
    pub open spec fn wf(&self) -> bool {
        al_wf(self.assets@) && al_wf(self.files@)
    }

    /// The staged asset copies, as a map from destination to source.
    /// Destination keys are unique; the last registration of a destination
    /// wins.
    pub open spec fn assets_map(&self) -> Map<Seq<char>, Seq<char>> {
        al_view(self.assets@)
    }

    /// The staged file writes, as a map from destination to content.
    pub open spec fn files_map(&self) -> Map<Seq<char>, Seq<char>> {
        al_view(self.files@)
    }

    /// The prefixed addon path, `{prefix}/{addon}`.
    pub open spec fn spec_addon_path(&self) -> Seq<char> {
        self.build_context.prefix@ + "/"@ + self.addon@
    }

    /// Create a manager for one addon against a build snapshot.
    pub fn from_context(addon: String, build_context: BuildContext) -> (r: Self)
        ensures
            r.wf(),
            r.addon@ == addon@,
            r.build_context == build_context,
            r.assets_map() == Map::<Seq<char>, Seq<char>>::empty(),
            r.files_map() == Map::<Seq<char>, Seq<char>>::empty(),
    {
        AddonManager { addon, build_context, assets: Vec::new(), files: Vec::new() }
    }

    /// The name of this addon.
    pub fn addon_name(&self) -> (r: String)
        ensures
            r@ == self.addon@,
    {
        self.addon.clone()
    }

    /// The prefixed addon path.
    pub fn addon_path(&self) -> (r: String)
        ensures
            r@ == self.spec_addon_path(),
    {
        let mut r = self.build_context.prefix.clone();
        r.append("/");
        r.append(self.addon.as_str());
        r
    }

    /// The build root the addon is materialized under.
    pub fn build_path(&self) -> (r: String)
        ensures
            r@ == self.build_context.build_path@,
    {
        self.build_context.build_path.clone()
    }

    /// Register an asset copy.  The destination is
    /// `addon_path/[subfolder/]file_name`; a source path without a
    /// file-name component is rejected, and a destination registered
    /// twice keeps the later source: duplicate destinations overwrite the
    /// earlier mapping, so planned destinations stay disjoint.
    pub fn add_asset(&mut self, asset_path: String, addon_folder: Option<String>) -> (r: Result<
        String,
        LaatError,
    >)
        requires
            old(self).wf(),
        ensures
            final(self).wf(),
            r is Ok <==> spec_file_name(asset_path@) is Some,
            r matches Ok(dest) ==> {
                &&& dest@ == old(self).spec_addon_path() + match addon_folder {
                    Some(f) => "/"@ + f@,
                    None => Seq::<char>::empty(),
                } + "/"@ + spec_file_name(asset_path@)->0
                &&& final(self).assets_map() == old(self).assets_map().insert(dest@, asset_path@)
                &&& final(self).files_map() == old(self).files_map()
            },
            r matches Err(e) ==> e is MissingFileName && *final(self) == *old(self),
            final(self).addon@ == old(self).addon@,
            final(self).build_context == old(self).build_context,
    {
        let fname = match file_name(asset_path.as_str()) {
            Some(f) => f,
            None => {
                return Err(LaatError::MissingFileName);
            },
        };
        let mut dest = self.addon_path();
        match &addon_folder {
            Some(folder) => {
                dest.append("/");
                dest.append(folder.as_str());
            },
            None => {},
        }
        dest.append("/");
        dest.append(fname.as_str());
        let out = dest.clone();
        al_upsert(&mut self.assets, dest, asset_path);
        Ok(out)
    }

    /// Register a generated file at `addon_path/relative_path`.  A
    /// destination registered twice keeps the later content.
    pub fn add_file(&mut self, buffer: String, path: String)
        requires
            old(self).wf(),
        ensures
            final(self).wf(),
            final(self).files_map() == old(self).files_map().insert(
                old(self).spec_addon_path() + "/"@ + path@,
                buffer@,
            ),
            final(self).assets_map() == old(self).assets_map(),
            final(self).addon@ == old(self).addon@,
            final(self).build_context == old(self).build_context,
    {
        let mut dest = self.addon_path();
        dest.append("/");
        dest.append(path.as_str());
        al_upsert(&mut self.files, dest, buffer);
    }

    /// The directory the addon is materialized under:
    /// `{build_path}/{prefix}/{addon}`.  Creating it is the only fatal step
    /// of materialization, and it is part of the plan even when nothing is
    /// registered.
    pub fn addon_dir(&self) -> (r: String)
        ensures
            r@ == self.build_context.build_path@ + "/"@ + self.spec_addon_path(),
    {
        let mut r = self.build_path();
        r.append("/");
        let p = self.addon_path();
        r.append(p.as_str());
        r
    }

    /// The file writes of the materialization plan: every registered file,
    /// its destination resolved under the build root, each destination
    /// exactly once.  The shell performs each write independently and
    /// best-effort.
    #[verifier::loop_isolation(false)]
    pub fn file_writes(&self) -> (r: Vec<(String, String)>)
        ensures
            r@.len() == self.files@.len(),
            forall|i: int|
                0 <= i < r@.len() ==> (#[trigger] r@[i]).0@ == self.build_context.build_path@
                    + "/"@ + self.files@[i].0@ && r@[i].1@ == self.files@[i].1@,
    {
        let mut out: Vec<(String, String)> = Vec::new();
        let n = self.files.len();
        let mut i: usize = 0;
        while i < n
            invariant
                i <= n,
                n == self.files@.len(),
                out@.len() == i,
                forall|k: int|
                    0 <= k < i ==> (#[trigger] out@[k]).0@ == self.build_context.build_path@
                        + "/"@ + self.files@[k].0@ && out@[k].1@ == self.files@[k].1@,
            decreases n - i,
        {
            let mut dest = self.build_path();
            dest.append("/");
            dest.append(self.files[i].0.as_str());
            out.push((dest, self.files[i].1.clone()));
            i = i + 1;
        }
        out
    }

    /// The asset copies of the materialization plan, as (source,
    /// destination) pairs: every registered asset, its destination resolved
    /// under the build root, each destination exactly once.  The shell
    /// performs each copy independently and best-effort: one missing source
    /// never stops a sibling copy.
    #[verifier::loop_isolation(false)]
    pub fn asset_copies(&self) -> (r: Vec<(String, String)>)
        ensures
            r@.len() == self.assets@.len(),
            forall|i: int|
                0 <= i < r@.len() ==> (#[trigger] r@[i]).0@ == self.assets@[i].1@ && r@[i].1@
                    == self.build_context.build_path@ + "/"@ + self.assets@[i].0@,
    {
        let mut out: Vec<(String, String)> = Vec::new();
        let n = self.assets.len();
        let mut i: usize = 0;
        while i < n
            invariant
                i <= n,
                n == self.assets@.len(),
                out@.len() == i,
                forall|k: int|
                    0 <= k < i ==> (#[trigger] out@[k]).0@ == self.assets@[k].1@ && out@[k].1@
                        == self.build_context.build_path@ + "/"@ + self.assets@[k].0@,
            decreases n - i,
        {
            let mut dest = self.build_path();
            dest.append("/");
            dest.append(self.assets[i].0.as_str());
            out.push((self.assets[i].1.clone(), dest));
            i = i + 1;
        }
        out
    }
}

} // verus!

verus! {

/// Registering the same destination twice keeps only the later content:
/// after two `add_file` calls whose destinations coincide, the staged file
/// map holds the second call's content, exactly as if the first call had
/// never happened.
pub proof fn lemma_add_file_last_wins(
    files: Map<Seq<char>, Seq<char>>,
    dest: Seq<char>,
    first: Seq<char>,
    second: Seq<char>,
)
    ensures
        files.insert(dest, first).insert(dest, second) == files.insert(dest, second),
{
    assert(files.insert(dest, first).insert(dest, second) =~= files.insert(dest, second));
}

} // verus!
