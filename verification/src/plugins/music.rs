//! Generator for a music addon from a folder of tracks.
//!
//! The shell walks the assets folder and probes each track's duration; the
//! library derives every name, class and path of the generated addon and
//! registers the track assets.

use crate::plugins::Plugin;
use crate::strutil::index_of;
use crate::strutil::replace_char;
use crate::strutil::spec_first_match;
use crate::strutil::spec_replace_char;
use vstd::prelude::*;

verus! {

/// The music generator.
#[derive(Debug)]
pub struct MusicPlugin;

impl Plugin for MusicPlugin {
    open spec fn spec_name(&self) -> Seq<char> {
        "music"@
    }

    fn name(&self) -> (r: String)
        ensures
            r@ == self.spec_name(),
    {
        String::from_str("music")
    }
}

/// The addon name the music generator stages under.
pub fn music_addon_name() -> (r: String)
    ensures
        r@ == "Music"@,
{
    String::from_str("Music")
}

/// The staged folder that holds the tracks, in the game's path syntax.
pub fn music_path() -> (r: String)
    ensures
        r@ == "data\\Music"@,
{
    String::from_str("data\\Music")
}

/// The track's base name: the part of the file name before ".ogg", or the
/// whole file name when that extension is absent.
pub open spec fn spec_track_base(file_name: Seq<char>) -> Seq<char> {
    match spec_first_match(file_name, ".ogg"@) {
        Some(j) => file_name.take(j),
        None => file_name,
    }
}

/// One track of the music addon, with every derived name and path.
pub struct Track {
    pub class_name: String,
    pub file_name: String,
    pub pretty_name: String,
    pub duration: usize,
    pub music_class: String,
    pub path: String,
    pub sound_path: String,
}

impl Track {
    /// Build a track from its file name, the name of the folder that
    /// categorizes it, its probed duration in seconds and its source path.
    pub fn from_parts(
        file_name: String,
        folder_class: &String,
        duration: usize,
        path: String,
        prefix: &String,
        addon_name: &String,
    ) -> (r: Track)
        ensures
            r.file_name@ == file_name@,
            r.duration == duration,
            r.path@ == path@,
            r.class_name@ == spec_replace_char(
                spec_replace_char(spec_track_base(file_name@), '-', '_'),
                ' ',
                '_',
            ),
            r.pretty_name@ == spec_replace_char(spec_track_base(file_name@), '_', ' '),
            r.music_class@ == prefix@ + folder_class@,
            r.sound_path@ == prefix@ + "\\"@ + addon_name@ + "\\"@ + "data\\Music"@ + "\\"@
                + file_name@,
    {
        let base = match index_of(file_name.as_str(), ".ogg") {
            Some(j) => {
                proof {
                    crate::strutil::lemma_first_match_from(file_name@, ".ogg"@, 0);
                }
                let b = file_name.as_str().substring_char(0, j);
                proof {
                    assert(b@ =~= file_name@.take(j as int));
                }
                b.to_owned()
            },
            None => file_name.clone(),
        };
        let dashless = replace_char(base.as_str(), '-', '_');
        let class_name = replace_char(dashless.as_str(), ' ', '_');
        let pretty_name = replace_char(base.as_str(), '_', ' ');
        let mut music_class = prefix.clone();
        music_class.append(folder_class.as_str());
        let mut sound_path = prefix.clone();
        sound_path.append("\\");
        sound_path.append(addon_name.as_str());
        sound_path.append("\\");
        let mp = music_path();
        sound_path.append(mp.as_str());
        sound_path.append("\\");
        sound_path.append(file_name.as_str());
        Track {
            class_name,
            file_name,
            pretty_name,
            duration,
            music_class,
            path,
            sound_path,
        }
    }
}

/// One category class of the music addon.
pub struct MusicClass {
    pub class_name: String,
    pub display_name: String,
}

/// The rendering model of the music addon's config.
pub struct MusicAddon {
    pub prefix: String,
    pub addon_name: String,
    pub track_list: String,
    pub tracks: Vec<Track>,
    pub classes: Vec<MusicClass>,
}

/// The quoted, comma-separated list of the given class names.
pub open spec fn spec_track_list(names: Seq<Seq<char>>) -> Seq<char>
    decreases names,
{
    if names.len() == 0 {
        Seq::empty()
    } else if names.len() == 1 {
        seq!['"'] + names[0] + seq!['"']
    } else {
        seq!['"'] + names[0] + seq!['"', ',', ' '] + spec_track_list(names.drop_first())
    }
}

/// The class-name views of a track list.
pub open spec fn spec_class_names(tracks: Seq<Track>) -> Seq<Seq<char>> {
    Seq::new(tracks.len(), |i: int| tracks[i].class_name@)
}

/// Join the tracks' class names, each quoted, separated by ", ".
#[verifier::loop_isolation(false)]
pub fn track_list(tracks: &Vec<Track>) -> (r: String)
    ensures
        r@ == spec_track_list(spec_class_names(tracks@)),
{
    let mut out = String::new();
    let n = tracks.len();
    let mut i: usize = 0;
    while i < n
        invariant
            i <= n,
            n == tracks@.len(),
            out@ == spec_track_list(spec_class_names(tracks@).take(i as int)) + if 0 < i < n {
                seq![',', ' ']
            } else {
                Seq::<char>::empty()
            },
        decreases n - i,
    {
        out.append("\"");
        out.append(tracks[i].class_name.as_str());
        out.append("\"");
        if i + 1 < n {
            out.append(", ");
        }
        proof {
            reveal_strlit("\"");
            reveal_strlit(", ");
            assert("\""@ =~= seq!['"']);
            assert(", "@ =~= seq![',', ' ']);
            lemma_track_list_take(spec_class_names(tracks@), i as int);
            assert(spec_class_names(tracks@).take(i + 1)[i as int] == tracks@[i as int].class_name@);
            assert(out@ =~= spec_track_list(spec_class_names(tracks@).take(i + 1)) + if i + 1 < n {
                seq![',', ' ']
            } else {
                Seq::<char>::empty()
            });
        }
        i = i + 1;
    }
    proof {
        assert(spec_class_names(tracks@).take(n as int) =~= spec_class_names(tracks@));
    }
    out
}

/// One step of the quoted join: the joined prefix of length `i + 1` is the
/// prefix of length `i`, a separator when more follows, and the quoted name.
proof fn lemma_track_list_take(names: Seq<Seq<char>>, i: int)
    requires
        0 <= i < names.len(),
    ensures
        spec_track_list(names.take(i + 1)) == spec_track_list(names.take(i)) + if i > 0 {
            seq![',', ' ']
        } else {
            Seq::<char>::empty()
        } + seq!['"'] + names[i] + seq!['"'],
    decreases i,
{
    if i == 0 {
        assert(names.take(1) =~= seq![names[0]]);
        assert(spec_track_list(seq![names[0]]) == seq!['"'] + names[0] + seq!['"']);
        assert(spec_track_list(names.take(0)) + Seq::<char>::empty() + seq!['"'] + names[0]
            + seq!['"'] =~= seq!['"'] + names[0] + seq!['"']);
    } else {
        lemma_track_list_take(names.drop_first(), i - 1);
        assert(names.take(i + 1).drop_first() =~= names.drop_first().take(i));
        assert(names.take(i).drop_first() =~= names.drop_first().take(i - 1));
        assert(names.take(i + 1)[0] == names[0]);
        assert(names.take(i)[0] == names[0]);
        assert(names.take(i + 1).len() == i + 1);
        assert(spec_track_list(names.take(i + 1)) == seq!['"'] + names[0] + seq!['"', ',', ' ']
            + spec_track_list(names.drop_first().take(i)));
        if i == 1 {
            assert(names.take(i).len() == 1);
            assert(spec_track_list(names.take(i)) == seq!['"'] + names[0] + seq!['"']);
        } else {
            assert(names.take(i).len() == i);
            assert(spec_track_list(names.take(i)) == seq!['"'] + names[0] + seq!['"', ',', ' ']
                + spec_track_list(names.drop_first().take(i - 1)));
        }
        assert(names.drop_first()[i - 1] == names[i]);
        assert(spec_track_list(names.take(i + 1)) =~= spec_track_list(names.take(i)) + seq![
            ',',
            ' ',
        ] + seq!['"'] + names[i] + seq!['"']);
    }
}

impl MusicAddon {
    /// Assemble the rendering model: the track list joined from the tracks,
    /// and one category class per walked folder, named and displayed under
    /// the prefix.
    pub fn from_parts(prefix: String, addon_name: String, tracks: Vec<Track>, folders: &Vec<
        String,
    >) -> (r: MusicAddon)
        ensures
            r.prefix@ == prefix@,
            r.addon_name@ == addon_name@,
            r.track_list@ == spec_track_list(spec_class_names(tracks@)),
            r.tracks == tracks,
            r.classes@.len() == folders@.len(),
            forall|i: int|
                0 <= i < folders@.len() ==> (#[trigger] r.classes@[i]).class_name@ == prefix@
                    + folders@[i]@ && r.classes@[i].display_name@ == "["@ + prefix@ + "] "@
                    + folders@[i]@,
    {
        let tl = track_list(&tracks);
        let mut classes: Vec<MusicClass> = Vec::new();
        let n = folders.len();
        let mut i: usize = 0;
        while i < n
            invariant
                i <= n,
                n == folders@.len(),
                classes@.len() == i,
                forall|k: int|
                    0 <= k < i ==> (#[trigger] classes@[k]).class_name@ == prefix@ + folders@[k]@
                        && classes@[k].display_name@ == "["@ + prefix@ + "] "@ + folders@[k]@,
            decreases n - i,
        {
            let mut class_name = prefix.clone();
            class_name.append(folders[i].as_str());
            let mut display_name = String::from_str("[");
            display_name.append(prefix.as_str());
            display_name.append("] ");
            display_name.append(folders[i].as_str());
            classes.push(MusicClass { class_name, display_name });
            i = i + 1;
        }
        MusicAddon { prefix, addon_name, track_list: tl, tracks, classes }
    }
}

} // verus!

verus! {

/// The staged assets after registering the first `n` tracks: the
/// destination `{addon_path}/data/Music/{file_name}` mapped to each
/// track's source path.
pub open spec fn spec_register_tracks(
    assets: Map<Seq<char>, Seq<char>>,
    addon_path: Seq<char>,
    tracks: Seq<Track>,
    n: int,
) -> Map<Seq<char>, Seq<char>>
    decreases n,
{
    if n <= 0 {
        assets
    } else {
        spec_register_tracks(assets, addon_path, tracks, n - 1).insert(
            addon_path + "/"@ + "data/Music"@ + "/"@ + crate::strutil::spec_file_name(
                tracks[n - 1].path@,
            )->0,
            tracks[n - 1].path@,
        )
    }
}

/// Register every track's file as an asset copy into the addon's music
/// folder.  Fails with `MissingFileName`, leaving the earlier tracks
/// registered, as soon as one track's source path has no file name.
#[verifier::loop_isolation(false)]
pub fn register_track_assets(
    manager: &mut crate::context::AddonManager,
    tracks: &Vec<Track>,
) -> (r: Result<(), crate::LaatError>)
    requires
        old(manager).wf(),
    ensures
        final(manager).wf(),
        r is Ok <==> forall|i: int|
            0 <= i < tracks@.len() ==> crate::strutil::spec_file_name(
                (#[trigger] tracks@[i]).path@,
            ) is Some,
        r is Ok ==> final(manager).assets_map() == spec_register_tracks(
            old(manager).assets_map(),
            old(manager).spec_addon_path(),
            tracks@,
            tracks@.len() as int,
        ),
        r matches Err(e) ==> e is MissingFileName && exists|j: int|
            {
                &&& 0 <= j < tracks@.len()
                &&& crate::strutil::spec_file_name((#[trigger] tracks@[j]).path@) is None
                &&& final(manager).assets_map() == spec_register_tracks(
                    old(manager).assets_map(),
                    old(manager).spec_addon_path(),
                    tracks@,
                    j,
                )
            },
        final(manager).files_map() == old(manager).files_map(),
        final(manager).addon@ == old(manager).addon@,
        final(manager).build_context == old(manager).build_context,
{
    let ghost orig_map = manager.assets_map();
    let ghost ap = manager.spec_addon_path();
    let n = tracks.len();
    let mut i: usize = 0;
    while i < n
        invariant
            i <= n,
            n == tracks@.len(),
            manager.wf(),
            manager.assets_map() == spec_register_tracks(orig_map, ap, tracks@, i as int),
            manager.files_map() == old(manager).files_map(),
            manager.addon@ == old(manager).addon@,
            manager.build_context == old(manager).build_context,
            manager.spec_addon_path() == ap,
            forall|k: int|
                0 <= k < i ==> crate::strutil::spec_file_name(
                    (#[trigger] tracks@[k]).path@,
                ) is Some,
        decreases n - i,
    {
        let folder = String::from_str("data/Music");
        match manager.add_asset(tracks[i].path.clone(), Some(folder)) {
            Ok(dest) => {
                proof {
                    assert(dest@ =~= ap + "/"@ + "data/Music"@ + "/"@
                        + crate::strutil::spec_file_name(tracks@[i as int].path@)->0);
                }
            },
            Err(e) => {
                return Err(e);
            },
        }
        i = i + 1;
    }
    Ok(())
}

} // verus!
