//! Value objects of the engine: version descriptors, library entries,
//! asset-index records, profiles and settings.
//!
//! Maps that arrive as JSON objects are held as association lists of
//! `(key, value)` pairs in source order; `assoc_find` gives first-found
//! lookup over them.

use vstd::prelude::*;

verus! {

/// One entry of the remote version manifest.
#[derive(Clone, Debug)]
pub struct MinecraftVersion {
    pub id: String,
    pub version_type: String,
    pub url: String,
    pub time: String,
    pub release_time: Option<String>,
}

/// The remote version manifest: the list of published versions.
#[derive(Clone, Debug)]
pub struct VersionManifest {
    pub versions: Vec<MinecraftVersion>,
}

/// Extraction options of a native library: member paths starting with any
/// of these prefixes are not extracted.
#[derive(Clone, Debug)]
pub struct Extract {
    pub exclude: Vec<String>,
}

/// The operating-system constraint of a rule; `None` matches every OS.
#[derive(Clone, Debug)]
pub struct OsRule {
    pub name: Option<String>,
}

/// One allow/deny rule of a library entry.
#[derive(Clone, Debug)]
pub struct Rule {
    pub action: String,
    pub os: Option<OsRule>,
}

/// An explicit artifact download: URL plus repository-relative path.
#[derive(Clone, Debug)]
pub struct LibraryArtifact {
    pub url: String,
    pub path: String,
}

/// The download section of a library entry: the main artifact and the
/// per-classifier native artifacts, in source order.
#[derive(Clone, Debug)]
pub struct LibraryDownloads {
    pub artifact: Option<LibraryArtifact>,
    pub classifiers: Option<Vec<(String, LibraryArtifact)>>,
}

/// One library entry of a version descriptor.
#[derive(Clone, Debug)]
pub struct Library {
    pub name: String,
    pub downloads: Option<LibraryDownloads>,
    pub natives: Option<Vec<(String, String)>>,
    pub rules: Option<Vec<Rule>>,
    pub extract: Option<Extract>,
}

impl Library {
    /// The extraction options, if the entry carries any.
    pub fn get_extract(&self) -> (r: Option<&Extract>)
        ensures
            match r {
                Some(e) => self.extract == Some(*e),
                None => self.extract is None,
            },
    {
        self.extract.as_ref()
    }
}

/// Reference to a version's asset index: identifier plus manifest URL.
#[derive(Clone, Debug)]
pub struct AssetIndex {
    pub id: String,
    pub sha1: String,
    pub size: u64,
    pub total_size: u64,
    pub url: String,
}

/// One content-addressed asset object.
#[derive(Clone, Debug)]
pub struct AssetObject {
    pub hash: String,
    pub size: u64,
}

/// A parsed asset-index manifest: logical name to object, in source order.
#[derive(Clone, Debug)]
pub struct AssetIndexFile {
    pub is_virtual: bool,
    pub map_to_resources: bool,
    pub objects: Vec<(String, AssetObject)>,
}

/// A stored launch profile (consumed, not owned, by the engine).
#[derive(Clone, Debug)]
pub struct Profile {
    pub username: String,
    pub version: String,
    pub ram_mb: u32,
    pub playtime_seconds: u64,
    pub last_launch: Option<u64>,
    pub is_fabric: bool,
    pub game_dir: Option<String>,
}

/// The sections of the shell's navigation.
#[derive(Clone, Copy, Debug, PartialEq, Eq, Structural)]
pub enum Section {
    Home,
    CreateInstance,
    Settings,
    Logs,
    Mods,
}

/// The shell's colour theme.
#[derive(Clone, Copy, Debug, PartialEq, Eq, Structural)]
pub enum Theme {
    Dark,
    Light,
    System,
    Transparent,
}

impl Theme {
    /// The theme's display label.
    pub fn label(&self) -> (r: &'static str)
        ensures
            r@ == self.label_spec(),
    {
        match self {
            Theme::Dark => "Dark",
            Theme::Light => "Light",
            Theme::System => "System",
            Theme::Transparent => "Transparent",
        }
    }

    pub open spec fn label_spec(&self) -> Seq<char> {
        match self {
            Theme::Dark => "Dark"@,
            Theme::Light => "Light"@,
            Theme::System => "System"@,
            Theme::Transparent => "Transparent"@,
        }
    }
}

impl Default for Theme {
    /// The default theme follows the system.
    fn default() -> (r: Self)
        ensures
            r == Theme::System,
    {
        Theme::System
    }
}

/// Persisted shell settings (schema only; the shell owns the file).
#[derive(Clone, Debug)]
pub struct Settings {
    pub theme: Theme,
    pub hide_logs: bool,
    pub sidebar_collapsed: bool,
    pub hide_mods_button: bool,
}

impl Default for Settings {
    fn default() -> (r: Self)
        ensures
            r.theme == Theme::System,
            !r.hide_logs,
            !r.sidebar_collapsed,
            !r.hide_mods_button,
    {
        Settings { theme: Theme::System, hide_logs: false, sidebar_collapsed: false, hide_mods_button: false }
    }
}

/// One search hit of the mod index (data model only).
#[derive(Clone, Debug)]
pub struct ModSearchResult {
    pub project_id: String,
    pub title: String,
    pub description: Option<String>,
    pub author: String,
    pub icon_url: Option<String>,
    pub versions: Option<Vec<String>>,
    pub follows: u32,
    pub downloads: u32,
}

/// One published version of a mod (data model only).
#[derive(Clone, Debug)]
pub struct ModVersion {
    pub id: String,
    pub project_id: String,
    pub name: String,
    pub version_number: String,
    pub game_versions: Vec<String>,
    pub loaders: Vec<String>,
    pub files: Vec<ModFile>,
}

/// One downloadable file of a mod version.
#[derive(Clone, Debug)]
pub struct ModFile {
    pub hashes: ModFileHashes,
    pub url: String,
    pub filename: String,
    pub primary: bool,
}

/// Content hashes of a mod file.
#[derive(Clone, Debug)]
pub struct ModFileHashes {
    pub sha1: String,
    pub sha512: String,
}

/// One version descriptor, as read from `versions/<id>/<id>.json`.
#[derive(Clone, Debug)]
pub struct VersionJson {
    pub inherits_from: Option<String>,
    pub java_version: Option<JavaVersion>,
    pub libraries: Vec<Library>,
    pub main_class: Option<String>,
    pub asset_index: Option<AssetIndex>,
    pub downloads: Option<VersionDownloads>,
}

/// The direct downloads of a base version.
#[derive(Clone, Debug)]
pub struct VersionDownloads {
    pub client: Option<DownloadFile>,
    pub server: Option<DownloadFile>,
}

/// One directly downloadable file.
#[derive(Clone, Debug)]
pub struct DownloadFile {
    pub sha1: String,
    pub size: u64,
    pub url: String,
}

/// The explicit Java requirement of a descriptor.
#[derive(Clone, Copy, Debug, PartialEq, Eq, Structural)]
pub struct JavaVersion {
    pub major_version: u32,
}

/// A descriptor paired with the version identifier it was loaded under.
#[derive(Clone, Debug)]
pub struct VersionEntry {
    pub id: String,
    pub descriptor: VersionJson,
}

/// First value bound to key `k` in the association list, if any.
pub open spec fn assoc_find<V>(m: Seq<(String, V)>, k: Seq<char>) -> Option<V>
    decreases m.len(),
{
    if m.len() == 0 {
        None
    } else if m[0].0@ == k {
        Some(m[0].1)
    } else {
        assoc_find(m.drop_first(), k)
    }
}

/// First value bound to key `k`, by first-found lookup in source order.
pub fn assoc_get<'a, V>(m: &'a Vec<(String, V)>, k: &str) -> (r: Option<&'a V>)
    ensures
        match r {
            Some(v) => assoc_find(m@, k@) == Some(*v),
            None => assoc_find(m@, k@) is None,
        },
{
    proof {
        assert(m@.skip(0) =~= m@);
    }
    let mut i: usize = 0;
    while i < m.len()
        invariant
            0 <= i <= m@.len(),
            assoc_find(m@, k@) == assoc_find(m@.skip(i as int), k@),
        decreases m@.len() - i,
    {
        proof {
            assert(m@.skip(i as int).drop_first() =~= m@.skip(i + 1));
            assert(m@.skip(i as int)[0] == m@[i as int]);
        }
        if crate::strutil::str_eq(m[i].0.as_str(), k) {
            return Some(&m[i].1);
        }
        i += 1;
    }
    proof {
        assert(m@.skip(m@.len() as int).len() == 0);
    }
    None
}

} // verus!
