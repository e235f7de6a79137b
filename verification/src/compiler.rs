//! The build orchestrator: selects the configured generators, and computes
//! the packaging, signing and release plans that the shell carries out.
//! Generator failure is build-breaking; file-level failure inside a
//! generator is not, and the per-artifact packing and signing steps are
//! best-effort in the shell.

use crate::config::LaatConfig;
use crate::plugins::get_plugin;
use crate::plugins::Plugin;
use crate::plugins::PluginKind;
use crate::strutil::push_char;
use crate::strutil::spec_contains_seq;
use crate::strutil::spec_first_match;
use crate::strutil::contains_sub;
use crate::strutil::index_of;
use crate::LaatError;
use vstd::prelude::*;

verus! {

/// Settings for creating a fresh project.
pub struct InitSettings {
    /// Path to the project destination.
    pub path: String,
    /// Prefix for the mod.
    pub prefix: String,
    /// Name of the mod author.
    pub author: String,
}

/// Settings for publishing a release.
pub struct ReleaseSettings {
    pub username: String,
    pub password: String,
    pub guard_key: Option<String>,
    pub no_change_log: bool,
    pub change_log_file: Option<String>,
}

/// The folders a fresh project is created with.
pub fn project_folders() -> (r: Vec<String>)
    ensures
        r@.len() == 4,
        r@[0]@ == "addons"@,
        r@[1]@ == "assets"@,
        r@[2]@ == "build"@,
        r@[3]@ == "release"@,
{
    let mut v: Vec<String> = Vec::new();
    v.push(String::from_str("addons"));
    v.push(String::from_str("assets"));
    v.push(String::from_str("build"));
    v.push(String::from_str("release"));
    v
}

/// The ignore file a fresh project is created with.
pub fn gitignore_content() -> (r: String)
    ensures
        r@ == "\nbuild\nrelease\n"@,
{
    String::from_str("\nbuild\nrelease\n")
}

/// The views of a list of strings.
pub open spec fn spec_string_views(v: Seq<String>) -> Seq<Seq<char>> {
    Seq::new(v.len(), |i: int| v[i]@)
}

/// The names of a list of generators.
pub open spec fn spec_plugin_names(v: Seq<PluginKind>) -> Seq<Seq<char>> {
    Seq::new(v.len(), |i: int| v[i].spec_name())
}

/// The configured names with later repetitions dropped: each name selects
/// its generator once, at its first occurrence.
pub open spec fn spec_selected_names(names: Seq<Seq<char>>) -> Seq<Seq<char>>
    decreases names.len(),
{
    if names.len() == 0 {
        names
    } else {
        let rest = spec_selected_names(names.drop_last());
        if rest.contains(names.last()) {
            rest
        } else {
            rest.push(names.last())
        }
    }
}

/// The compiler: the build snapshot and the generators selected by name.
#[derive(Debug)]
pub struct LaatCompiler {
    pub config: LaatConfig,
    /// The selected generators, one per configured name, in first-occurrence
    /// order.
    pub plugins: Vec<PluginKind>,
}

impl LaatCompiler {
    /// Select the configured generators.  Succeeds exactly when every
    /// configured name is known; each name selects its generator once, in
    /// first-occurrence order, so a repeated name does not run its
    /// generator twice.  The shell then runs each selected generator in
    /// turn and fails the build on the first generator error.
    #[verifier::loop_isolation(false)]
    pub fn from_config(config: LaatConfig) -> (r: Result<LaatCompiler, LaatError>)
        ensures
            r is Ok <==> forall|i: int|
                0 <= i < config.plugins@.len() ==> ((#[trigger] config.plugins@[i])@ == "music"@
                    || config.plugins@[i]@ == "addons"@ || config.plugins@[i]@ == "customs"@
                    || config.plugins@[i]@ == "kits"@ || config.plugins@[i]@ == "missions"@),
            r matches Ok(c) ==> {
                &&& c.config == config
                &&& spec_plugin_names(c.plugins@) == spec_selected_names(
                    spec_string_views(config.plugins@),
                )
            },
            r matches Err(e) ==> e is UnknownPlugin,
    {
        let ghost all = spec_string_views(config.plugins@);
        let n = config.plugins.len();
        let mut selected: Vec<PluginKind> = Vec::new();
        let mut i: usize = 0;
        while i < n
            invariant
                i <= n,
                n == config.plugins@.len(),
                spec_plugin_names(selected@) == spec_selected_names(all.take(i as int)),
                forall|k: int|
                    0 <= k < i ==> ((#[trigger] config.plugins@[k])@ == "music"@
                        || config.plugins@[k]@ == "addons"@ || config.plugins@[k]@ == "customs"@
                        || config.plugins@[k]@ == "kits"@ || config.plugins@[k]@ == "missions"@),
            decreases n - i,
        {
            let p = match get_plugin(&config.plugins[i]) {
                Ok(p) => p,
                Err(e) => {
                    return Err(e);
                },
            };
            let m = selected.len();
            let mut dup = false;
            let mut j: usize = 0;
            while j < m
                invariant
                    j <= m,
                    m == selected@.len(),
                    !dup ==> forall|k: int|
                        0 <= k < j ==> (#[trigger] selected@[k]).spec_name()
                            != config.plugins@[i as int]@,
                    dup ==> spec_plugin_names(selected@).contains(config.plugins@[i as int]@),
                decreases m - j,
            {
                let name = selected[j].name();
                if name == config.plugins[i] {
                    proof {
                        assert(spec_plugin_names(selected@)[j as int] == config.plugins@[i as int]@);
                    }
                    dup = true;
                }
                j = j + 1;
            }
            proof {
                assert(all.take(i + 1).drop_last() =~= all.take(i as int));
                assert(all.take(i + 1).last() == config.plugins@[i as int]@);
            }
            if !dup {
                proof {
                    assert(!spec_plugin_names(selected@).contains(
                        config.plugins@[i as int]@,
                    )) by {
                        if spec_plugin_names(selected@).contains(config.plugins@[i as int]@) {
                            let k = choose|k: int|
                                0 <= k < selected@.len() && spec_plugin_names(selected@)[k]
                                    == config.plugins@[i as int]@;
                            assert(selected@[k].spec_name() == config.plugins@[i as int]@);
                        }
                    }
                }
                let ghost sel0 = selected@;
                selected.push(p);
                proof {
                    assert(spec_plugin_names(selected@) =~= spec_plugin_names(sel0).push(
                        config.plugins@[i as int]@,
                    ));
                }
            }
            i = i + 1;
        }
        proof {
            assert(all.take(n as int) =~= all);
        }
        Ok(LaatCompiler { config, plugins: selected })
    }

    /// A copy of the build snapshot, handed to each generator.
    pub fn get_context(&self) -> (r: LaatConfig)
        ensures
            r.eqv(&self.config),
    {
        self.config.clone()
    }
}

/// One packaging job: the addon directory's name decides the artifact name,
/// the output path under the release tree, and a prefix header line added
/// to the configured header extensions.
pub struct PboJob {
    /// The artifact's file name, `{addon}.pbo`.
    pub pbo_name: String,
    /// Where the artifact is written: `{release_path}/addons/{addon}.pbo`.
    pub output_path: String,
    /// The configured header extensions plus `prefix={prefix}\{addon}`.
    pub header_extensions: Vec<String>,
    /// The configured exclude patterns.
    pub excludes: Vec<String>,
    /// The configured include folders.
    pub include_folders: Vec<String>,
}

/// Plan the packaging of one addon directory.
pub fn pbo_plan(config: &LaatConfig, release_path: &String, addon_dir_name: &String) -> (r: PboJob)
    ensures
        r.pbo_name@ == addon_dir_name@ + ".pbo"@,
        r.output_path@ == release_path@ + "/addons/"@ + addon_dir_name@ + ".pbo"@,
        r.header_extensions@.len() == config.pack.header_extensions@.len() + 1,
        forall|i: int|
            0 <= i < config.pack.header_extensions@.len() ==> #[trigger] r.header_extensions@[i]
                == config.pack.header_extensions@[i],
        r.header_extensions@.last()@ == "prefix="@ + config.prefix@ + "\\"@ + addon_dir_name@,
        r.excludes@ == config.pack.excludes@,
        r.include_folders@ == config.pack.include_folders@,
{
    let mut pbo_name = addon_dir_name.clone();
    pbo_name.append(".pbo");
    let mut output_path = release_path.clone();
    output_path.append("/addons/");
    output_path.append(pbo_name.as_str());
    let mut header_extensions = crate::config::clone_strings(&config.pack.header_extensions);
    let mut prefix_line = String::from_str("prefix=");
    prefix_line.append(config.prefix.as_str());
    prefix_line.append("\\");
    prefix_line.append(addon_dir_name.as_str());
    header_extensions.push(prefix_line);
    PboJob {
        pbo_name,
        output_path,
        header_extensions,
        excludes: crate::config::clone_strings(&config.pack.excludes),
        include_folders: crate::config::clone_strings(&config.pack.include_folders),
    }
}

/// A character with an upper-case ASCII letter folded to lower case.
pub open spec fn spec_ascii_lower(c: char) -> char {
    if 'A' <= c && c <= 'Z' {
        (((c as u8) + 32) as char)
    } else {
        c
    }
}

/// Whether a file name names a packaged artifact: it ends with ".pbo",
/// ASCII case ignored.
pub open spec fn spec_is_pbo_name(s: Seq<char>) -> bool {
    s.len() >= 4 && s.map_values(|c: char| spec_ascii_lower(c)).subrange(
        s.len() - 4,
        s.len() as int,
    ) == ".pbo"@
}

/// Whether a file name names a packaged artifact.
pub fn is_pbo_name(name: &str) -> (r: bool)
    ensures
        r == spec_is_pbo_name(name@),
{
    let n = name.unicode_len();
    if n < 4 {
        return false;
    }
    proof {
        reveal_strlit(".pbo");
    }
    let c0 = lower_char(name.get_char(n - 4));
    let c1 = lower_char(name.get_char(n - 3));
    let c2 = lower_char(name.get_char(n - 2));
    let c3 = lower_char(name.get_char(n - 1));
    let r = c0 == '.' && c1 == 'p' && c2 == 'b' && c3 == 'o';
    proof {
        let lowered = name@.map_values(|c: char| spec_ascii_lower(c));
        assert(lowered.subrange(n - 4, n as int) =~= seq![
            lowered[n - 4],
            lowered[n - 3],
            lowered[n - 2],
            lowered[n - 1],
        ]);
        if r {
            assert(lowered.subrange(n - 4, n as int) =~= ".pbo"@);
        } else {
            assert(lowered.subrange(n - 4, n as int) != ".pbo"@) by {
                if lowered.subrange(n - 4, n as int) == ".pbo"@ {
                    assert(lowered[n - 4] == '.' && lowered[n - 3] == 'p' && lowered[n - 2] == 'b'
                        && lowered[n - 1] == 'o');
                }
            }
        }
    }
    r
}

/// Fold an upper-case ASCII letter to lower case.
fn lower_char(c: char) -> (r: char)
    ensures
        r == spec_ascii_lower(c),
{
    if c >= 'A' && c <= 'Z' {
        ((c as u8) + 32) as char
    } else {
        c
    }
}

/// One entry of the keys directory walk: a file's name and the directory
/// that holds it.
pub struct KeyDirEntry {
    pub file_name: String,
    pub parent: String,
}

/// Whether a file name names half of a key pair.
pub open spec fn spec_is_key_name(s: Seq<char>) -> bool {
    spec_contains_seq(s, ".biprivatekey"@) || spec_contains_seq(s, ".bikey"@)
}

/// The base name before the first dot, or the whole name without one.
pub open spec fn spec_base_name(s: Seq<char>) -> Seq<char> {
    match spec_first_match(s, "."@) {
        Some(j) => s.take(j),
        None => s,
    }
}

/// Find the key pair in a keys directory walk: the first entry whose name
/// carries a key extension decides the pair's base name, and both key
/// paths are built beside it.  An empty or keyless walk fails with
/// `KeysNotFound`.
#[verifier::loop_isolation(false)]
pub fn find_keys(entries: &Vec<KeyDirEntry>) -> (r: Result<(String, String), LaatError>)
    ensures
        r is Ok <==> exists|i: int|
            0 <= i < entries@.len() && spec_is_key_name((#[trigger] entries@[i]).file_name@),
        r matches Ok(pair) ==> exists|i: int|
            {
                &&& 0 <= i < entries@.len()
                &&& spec_is_key_name((#[trigger] entries@[i]).file_name@)
                &&& forall|k: int|
                    0 <= k < i ==> !spec_is_key_name((#[trigger] entries@[k]).file_name@)
                &&& pair.0@ == entries@[i].parent@ + "/"@ + spec_base_name(entries@[i].file_name@)
                    + ".biprivatekey"@
                &&& pair.1@ == entries@[i].parent@ + "/"@ + spec_base_name(entries@[i].file_name@)
                    + ".bikey"@
            },
        r matches Err(e) ==> e is KeysNotFound,
{
    let n = entries.len();
    let mut i: usize = 0;
    while i < n
        invariant
            i <= n,
            n == entries@.len(),
            forall|k: int| 0 <= k < i ==> !spec_is_key_name((#[trigger] entries@[k]).file_name@),
        decreases n - i,
    {
        let fname = &entries[i].file_name;
        if contains_sub(fname.as_str(), ".biprivatekey") || contains_sub(fname.as_str(), ".bikey")
        {
            let base = match index_of(fname.as_str(), ".") {
                Some(j) => {
                    proof {
                        crate::strutil::lemma_first_match_from(fname@, "."@, 0);
                    }
                    let b = fname.as_str().substring_char(0, j);
                    proof {
                        assert(b@ =~= fname@.take(j as int));
                    }
                    b.to_owned()
                },
                None => fname.clone(),
            };
            let mut privkey = entries[i].parent.clone();
            privkey.append("/");
            privkey.append(base.as_str());
            privkey.append(".biprivatekey");
            let mut pubkey = entries[i].parent.clone();
            pubkey.append("/");
            pubkey.append(base.as_str());
            pubkey.append(".bikey");
            return Ok((privkey, pubkey));
        }
        i = i + 1;
    }
    Err(LaatError::KeysNotFound)
}

/// Where the public key is copied in the release tree:
/// `{release_path}/keys/{file_name}`.
pub fn key_copy_destination(release_path: &String, key_file_name: &String) -> (r: String)
    ensures
        r@ == release_path@ + "/keys/"@ + key_file_name@,
{
    let mut r = release_path.clone();
    r.append("/keys/");
    r.append(key_file_name.as_str());
    r
}

/// The directories of a fresh release tree: the root, its addons folder
/// and its keys folder.
pub fn release_dirs(release_path: &String) -> (r: Vec<String>)
    ensures
        r@.len() == 3,
        r@[0]@ == release_path@,
        r@[1]@ == release_path@ + "/addons"@,
        r@[2]@ == release_path@ + "/keys"@,
{
    let mut v: Vec<String> = Vec::new();
    v.push(release_path.clone());
    let mut a = release_path.clone();
    a.append("/addons");
    v.push(a);
    let mut k = release_path.clone();
    k.append("/keys");
    v.push(k);
    v
}

/// Where the mod description is written: `{release_path}/mod.cpp`.
pub fn mod_cpp_path(release_path: &String) -> (r: String)
    ensures
        r@ == release_path@ + "/mod.cpp"@,
{
    let mut r = release_path.clone();
    r.append("/mod.cpp");
    r
}

/// A change log with every double quote removed.
pub open spec fn spec_strip_quotes(s: Seq<char>) -> Seq<char>
    decreases s,
{
    if s.len() == 0 {
        s
    } else if s[0] == '"' {
        spec_strip_quotes(s.drop_first())
    } else {
        seq![s[0]] + spec_strip_quotes(s.drop_first())
    }
}

/// Quote stripping distributes over concatenation.
proof fn lemma_strip_quotes_concat(a: Seq<char>, b: Seq<char>)
    ensures
        spec_strip_quotes(a + b) == spec_strip_quotes(a) + spec_strip_quotes(b),
    decreases a,
{
    if a.len() == 0 {
        assert(a + b =~= b);
        assert(spec_strip_quotes(a) + spec_strip_quotes(b) =~= spec_strip_quotes(b));
    } else {
        lemma_strip_quotes_concat(a.drop_first(), b);
        assert((a + b).drop_first() =~= a.drop_first() + b);
        if a[0] == '"' {
            assert((a + b)[0] == '"');
        } else {
            assert(seq![(a + b)[0]] + (spec_strip_quotes(a.drop_first()) + spec_strip_quotes(b))
                =~= (seq![a[0]] + spec_strip_quotes(a.drop_first())) + spec_strip_quotes(b));
        }
    }
}

/// Remove every double quote from release notes.
#[verifier::loop_isolation(false)]
pub fn strip_quotes(s: &str) -> (r: String)
    ensures
        r@ == spec_strip_quotes(s@),
{
    let n = s.unicode_len();
    let mut out = String::new();
    let mut i: usize = 0;
    while i < n
        invariant
            i <= n,
            n == s@.len(),
            out@ == spec_strip_quotes(s@.take(i as int)),
        decreases n - i,
    {
        let c = s.get_char(i);
        if c != '"' {
            push_char(&mut out, c);
        }
        proof {
            lemma_strip_quotes_concat(s@.take(i as int), seq![s@[i as int]]);
            assert(s@.take(i + 1) =~= s@.take(i as int) + seq![s@[i as int]]);
            assert(seq![s@[i as int]].drop_first() =~= Seq::<char>::empty());
            assert(spec_strip_quotes(Seq::<char>::empty()) =~= Seq::<char>::empty());
            assert(seq![s@[i as int]][0] == s@[i as int]);
            if s@[i as int] == '"' {
                assert(spec_strip_quotes(seq![s@[i as int]]) =~= Seq::<char>::empty());
            } else {
                assert(spec_strip_quotes(seq![s@[i as int]]) =~= seq![s@[i as int]]);
            }
            assert(out@ =~= spec_strip_quotes(s@.take(i + 1)));
        }
        i = i + 1;
    }
    proof {
        assert(s@.take(n as int) =~= s@);
    }
    out
}

/// The model of a workshop upload: the release's ids, the released
/// content's folder, and the cleaned change notes.
pub struct WorkshopItem {
    pub app_id: usize,
    pub file_id: usize,
    pub content_folder: String,
    pub changenotes: String,
}

impl WorkshopItem {
    /// Assemble the upload model: the content folder is the released addon
    /// path under the working directory, and the change notes lose their
    /// double quotes.
    pub fn from_parts(config: &LaatConfig, working_dir: &String, change_log: &String) -> (r:
        WorkshopItem)
        ensures
            r.app_id == config.release.app_id,
            r.file_id == config.release.workshop_id,
            r.content_folder@ == working_dir@ + "/"@ + (config.release_path@ + "/@"@
                + config.prefix@),
            r.changenotes@ == spec_strip_quotes(change_log@),
    {
        let mut content_folder = working_dir.clone();
        content_folder.append("/");
        let rap = config.released_addon_path();
        content_folder.append(rap.as_str());
        WorkshopItem {
            app_id: config.release.app_id,
            file_id: config.release.workshop_id,
            content_folder,
            changenotes: strip_quotes(change_log.as_str()),
        }
    }
}

} // verus!
