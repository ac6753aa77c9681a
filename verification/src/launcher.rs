//! The launch composer: the launcher's directory layout, the released
//! versions of the remote manifest, the client archive's download URL, the
//! final command line, and the state machine of one launch attempt — in
//! which a missing Java runtime is a distinct state that only an explicit
//! approval moves past, never an automatic download.

use vstd::prelude::*;
use vstd::string::*;
use crate::classpath::{build_classpath_string, classpath_paths};
use crate::errors::LauncherError;
use crate::models::{MinecraftVersion, VersionDownloads, VersionEntry, VersionManifest};
use crate::strutil::{dec_digits, join_with, str_eq, u32_dec, views};
use crate::versions::{at_least_1_8, is_at_least_1_8};

verus! {

/// Where the launcher keeps its state: everything under one game directory.
pub struct LauncherConfig {
    pub minecraft_dir: String,
    pub versions_dir: String,
    pub assets_dir: String,
    pub libraries_dir: String,
}

impl LauncherConfig {
    /// The layout under a home directory: `<home>/.minecraft` with its
    /// `versions`, `assets` and `libraries` trees.
    pub fn new(home: &str) -> (r: Self)
        ensures
            r.minecraft_dir@ == home@ + "/.minecraft"@,
            r.versions_dir@ == home@ + "/.minecraft"@ + "/versions"@,
            r.assets_dir@ == home@ + "/.minecraft"@ + "/assets"@,
            r.libraries_dir@ == home@ + "/.minecraft"@ + "/libraries"@,
    {
        let mut minecraft_dir = home.to_owned();
        minecraft_dir.append("/.minecraft");
        let mut versions_dir = minecraft_dir.clone();
        versions_dir.append("/versions");
        let mut assets_dir = minecraft_dir.clone();
        assets_dir.append("/assets");
        let mut libraries_dir = minecraft_dir.clone();
        libraries_dir.append("/libraries");
        LauncherConfig { minecraft_dir, versions_dir, assets_dir, libraries_dir }
    }
}

/// The engine's entry point: owns the directory layout and composes
/// classpaths and launch command lines over it.
pub struct MinecraftLauncher {
    pub config: LauncherConfig,
}

/// The released versions of a manifest, in manifest order.
pub open spec fn release_versions(vs: Seq<MinecraftVersion>) -> Seq<MinecraftVersion>
    decreases vs.len(),
{
    if vs.len() == 0 {
        Seq::empty()
    } else {
        let head: Seq<MinecraftVersion> = if vs[0].version_type@ == "release"@ {
            seq![vs[0]]
        } else {
            Seq::empty()
        };
        head + release_versions(vs.drop_first())
    }
}

/// The client archive's download URL: the explicit client download when the
/// descriptor carries one, else the legacy store by version identifier.
pub open spec fn client_jar_url_spec(downloads: Option<VersionDownloads>, id: Seq<char>) -> Seq<
    char,
> {
    match downloads {
        Some(d) => match d.client {
            Some(c) => c.url@,
            None => legacy_jar_url(id),
        },
        None => legacy_jar_url(id),
    }
}

/// The legacy store URL of a version's client archive.
pub open spec fn legacy_jar_url(id: Seq<char>) -> Seq<char> {
    "https://s3.amazonaws.com/Minecraft.Download/versions/"@ + id + "/"@ + id + ".jar"@
}

/// The arguments of the launch command, in required order.
pub open spec fn launch_args_spec(
    ram_mb: u32,
    natives_dir: Seq<char>,
    classpath: Seq<char>,
    main_class: Seq<char>,
    username: Seq<char>,
    version: Seq<char>,
    game_dir: Seq<char>,
    assets_dir: Seq<char>,
    asset_index: Option<Seq<char>>,
) -> Seq<Seq<char>> {
    seq![
        "-Xmx"@ + dec_digits(ram_mb as int) + "M"@,
        "-Xms"@ + dec_digits((ram_mb / 2) as int) + "M"@,
        "-Djava.library.path="@ + natives_dir,
        "-cp"@,
        classpath,
        main_class,
        "--username"@,
        username,
        "--version"@,
        version,
        "--gameDir"@,
        game_dir,
        "--assetsDir"@,
        assets_dir,
    ] + (match asset_index {
        Some(id) => seq!["--assetIndex"@, id],
        None => Seq::empty(),
    }) + seq!["--accessToken"@, "0"@, "--userProperties"@, "{}"@]
}

impl MinecraftLauncher {
    /// A launcher rooted in `<home>/.minecraft`.
    pub fn new(home: &str) -> (r: Self)
        ensures
            r.config.minecraft_dir@ == home@ + "/.minecraft"@,
            r.config.versions_dir@ == home@ + "/.minecraft"@ + "/versions"@,
            r.config.assets_dir@ == home@ + "/.minecraft"@ + "/assets"@,
            r.config.libraries_dir@ == home@ + "/.minecraft"@ + "/libraries"@,
    {
        MinecraftLauncher { config: LauncherConfig::new(home) }
    }

    /// The released versions of the manifest, in manifest order.
    pub fn get_available_versions(&self, manifest: VersionManifest) -> (r: Vec<MinecraftVersion>)
        ensures
            r@ == release_versions(manifest.versions@),
    {
        let ghost orig = manifest.versions@;
        let mut vs = manifest.versions;
        let mut out: Vec<MinecraftVersion> = Vec::new();
        proof {
            assert(release_versions(orig) =~= out@ + release_versions(vs@));
        }
        while vs.len() > 0
            invariant
                release_versions(orig) == out@ + release_versions(vs@),
            decreases vs@.len(),
        {
            let ghost before = vs@;
            let v = vs.remove(0);
            proof {
                assert(vs@ =~= before.drop_first());
                assert(v == before[0]);
            }
            if str_eq(v.version_type.as_str(), "release") {
                out.push(v);
            }
        }
        proof {
            assert(release_versions(vs@) =~= Seq::<MinecraftVersion>::empty());
            assert(out@ =~= release_versions(orig));
        }
        out
    }

    /// Builds the classpath string of a resolved chain; see the classpath
    /// builder for the order and deduplication it guarantees.
    pub fn build_classpath(
        &self,
        chain: &Vec<VersionEntry>,
        os_name: &str,
        existing: &Vec<String>,
    ) -> (r: Result<String, LauncherError>)
        ensures
            match r {
                Ok(s) => chain@.len() > 0 && s@ == join_with(
                    classpath_paths(
                        chain@,
                        os_name@,
                        existing@,
                        self.config.libraries_dir@,
                        self.config.versions_dir@,
                    ),
                    ":"@,
                ),
                Err(e) => chain@.len() == 0 && e is NotFound,
            },
    {
        build_classpath_string(
            chain,
            os_name,
            existing,
            self.config.libraries_dir.as_str(),
            self.config.versions_dir.as_str(),
        )
    }
}

/// Composes the client archive's download URL.
pub fn client_jar_url(downloads: &Option<VersionDownloads>, id: &str) -> (r: String)
    ensures
        r@ == client_jar_url_spec(*downloads, id@),
{
    if let Some(d) = downloads {
        if let Some(c) = &d.client {
            return c.url.clone();
        }
    }
    let mut out = "https://s3.amazonaws.com/Minecraft.Download/versions/".to_owned();
    out.append(id);
    out.append("/");
    out.append(id);
    out.append(".jar");
    out
}

/// The version whose archive and natives a launch uses: the parent when the
/// descriptor inherits, else the version itself.
pub fn base_version_id<'a>(version: &'a str, inherits_from: &'a Option<String>) -> (r: &'a str)
    ensures
        r@ == match inherits_from {
            Some(p) => p@,
            None => version@,
        },
{
    match inherits_from {
        Some(p) => p.as_str(),
        None => version,
    }
}

/// The path of a version's descriptor file:
/// `<versions root>/<id>/<id>.json`.
pub fn version_json_path(versions_dir: &str, id: &str) -> (r: String)
    ensures
        r@ == versions_dir@ + "/"@ + id@ + "/"@ + id@ + ".json"@,
{
    let mut out = versions_dir.to_owned();
    out.append("/");
    out.append(id);
    out.append("/");
    out.append(id);
    out.append(".json");
    out
}

/// The path of a version's natives directory:
/// `<versions root>/<id>/natives`.
pub fn natives_dir_path(versions_dir: &str, id: &str) -> (r: String)
    ensures
        r@ == versions_dir@ + "/"@ + id@ + "/natives"@,
{
    let mut out = versions_dir.to_owned();
    out.append("/");
    out.append(id);
    out.append("/natives");
    out
}

/// The main class launched: the resolved one, or the standard client entry
/// point when the chain sets none.
pub fn main_class_or_default(resolved: Option<&String>) -> (r: String)
    ensures
        match resolved {
            Some(m) => r@ == m@,
            None => r@ == "net.minecraft.client.main.Main"@,
        },
{
    match resolved {
        Some(m) => m.clone(),
        None => "net.minecraft.client.main.Main".to_owned(),
    }
}

/// Gates a launch on the supported floor: versions below 1.8 are rejected
/// as unsupported configurations.
pub fn check_launch_version(version: &str) -> (r: Result<(), LauncherError>)
    ensures
        r is Ok <==> at_least_1_8(version@),
        r matches Err(e) ==> e is Malformed,
{
    if is_at_least_1_8(version) {
        Ok(())
    } else {
        Err(LauncherError::Malformed)
    }
}

/// Composes the launch command's arguments, in the required order: heap
/// bounds (minimum is half the maximum), native-library path, classpath,
/// main class, then the game's own flags; the asset index only when one
/// resolved; a zero access token and empty user properties close the list.
pub fn launch_args(
    ram_mb: u32,
    natives_dir: &str,
    classpath: &str,
    main_class: &str,
    username: &str,
    version: &str,
    game_dir: &str,
    assets_dir: &str,
    asset_index: Option<&String>,
) -> (r: Vec<String>)
    ensures
        views(r@) == launch_args_spec(
            ram_mb,
            natives_dir@,
            classpath@,
            main_class@,
            username@,
            version@,
            game_dir@,
            assets_dir@,
            match asset_index {
                Some(id) => Some(id@),
                None => None,
            },
        ),
{
    let mut out: Vec<String> = Vec::new();
    let mut xmx = "-Xmx".to_owned();
    let d = u32_dec(ram_mb);
    xmx.append(d.as_str());
    xmx.append("M");
    out.push(xmx);
    let mut xms = "-Xms".to_owned();
    let d2 = u32_dec(ram_mb / 2);
    xms.append(d2.as_str());
    xms.append("M");
    out.push(xms);
    let mut libpath = "-Djava.library.path=".to_owned();
    libpath.append(natives_dir);
    out.push(libpath);
    out.push("-cp".to_owned());
    out.push(classpath.to_owned());
    out.push(main_class.to_owned());
    out.push("--username".to_owned());
    out.push(username.to_owned());
    out.push("--version".to_owned());
    out.push(version.to_owned());
    out.push("--gameDir".to_owned());
    out.push(game_dir.to_owned());
    out.push("--assetsDir".to_owned());
    out.push(assets_dir.to_owned());
    if let Some(id) = asset_index {
        out.push("--assetIndex".to_owned());
        out.push(id.clone());
    }
    out.push("--accessToken".to_owned());
    out.push("0".to_owned());
    out.push("--userProperties".to_owned());
    out.push("{}".to_owned());
    proof {
        assert(views(out@) =~= launch_args_spec(
            ram_mb,
            natives_dir@,
            classpath@,
            main_class@,
            username@,
            version@,
            game_dir@,
            assets_dir@,
            match asset_index {
                Some(id) => Some(id@),
                None => None,
            },
        ));
    }
    out
}

/// The states of one launch attempt.
#[derive(Clone, Copy, Debug, PartialEq, Eq, Structural)]
pub enum LaunchState {
    Resolving,
    AcquiringJava,
    JavaMissing(u32),
    DownloadingJava(u32),
    Preparing,
    Composing,
    Spawned,
    Running,
    Exited(i32),
    Failed,
}

/// What the shell reports back between states.
#[derive(Clone, Copy, Debug, PartialEq, Eq, Structural)]
pub enum LaunchEvent {
    Resolved,
    JavaFound,
    JavaAbsent(u32),
    DownloadApproved,
    DownloadDenied,
    JavaInstalled,
    Prepared,
    Composed,
    ProcessStarted,
    ProcessExited(i32),
    Fault,
}

/// The next state of a launch attempt. A missing runtime parks the attempt
/// in `JavaMissing` until the human-facing layer approves the download or
/// denies it; an unexpected event fails the attempt.
pub open spec fn launch_next(s: LaunchState, e: LaunchEvent) -> LaunchState {
    match (s, e) {
        (LaunchState::Resolving, LaunchEvent::Resolved) => LaunchState::AcquiringJava,
        (LaunchState::AcquiringJava, LaunchEvent::JavaFound) => LaunchState::Preparing,
        (LaunchState::AcquiringJava, LaunchEvent::JavaAbsent(v)) => LaunchState::JavaMissing(v),
        (LaunchState::JavaMissing(v), LaunchEvent::DownloadApproved) => LaunchState::DownloadingJava(
            v,
        ),
        (LaunchState::JavaMissing(_), LaunchEvent::DownloadDenied) => LaunchState::Failed,
        (LaunchState::DownloadingJava(_), LaunchEvent::JavaInstalled) => LaunchState::AcquiringJava,
        (LaunchState::Preparing, LaunchEvent::Prepared) => LaunchState::Composing,
        (LaunchState::Composing, LaunchEvent::Composed) => LaunchState::Spawned,
        (LaunchState::Spawned, LaunchEvent::ProcessStarted) => LaunchState::Running,
        (LaunchState::Running, LaunchEvent::ProcessExited(c)) => LaunchState::Exited(c),
        _ => LaunchState::Failed,
    }
}

/// Advances a launch attempt by one reported event.
pub fn launch_step(s: LaunchState, e: LaunchEvent) -> (r: LaunchState)
    ensures
        r == launch_next(s, e),
{
    match (s, e) {
        (LaunchState::Resolving, LaunchEvent::Resolved) => LaunchState::AcquiringJava,
        (LaunchState::AcquiringJava, LaunchEvent::JavaFound) => LaunchState::Preparing,
        (LaunchState::AcquiringJava, LaunchEvent::JavaAbsent(v)) => LaunchState::JavaMissing(v),
        (LaunchState::JavaMissing(v), LaunchEvent::DownloadApproved) => LaunchState::DownloadingJava(
            v,
        ),
        (LaunchState::JavaMissing(_), LaunchEvent::DownloadDenied) => LaunchState::Failed,
        (LaunchState::DownloadingJava(_), LaunchEvent::JavaInstalled) => LaunchState::AcquiringJava,
        (LaunchState::Preparing, LaunchEvent::Prepared) => LaunchState::Composing,
        (LaunchState::Composing, LaunchEvent::Composed) => LaunchState::Spawned,
        (LaunchState::Spawned, LaunchEvent::ProcessStarted) => LaunchState::Running,
        (LaunchState::Running, LaunchEvent::ProcessExited(c)) => LaunchState::Exited(c),
        _ => LaunchState::Failed,
    }
}

/// A missing runtime is never resolved on its own: from `JavaMissing` the
/// only event that leads to a download is the explicit approval, and a
/// denial fails the attempt.
pub proof fn lemma_java_missing_needs_approval(v: u32, e: LaunchEvent)
    ensures
        (launch_next(LaunchState::JavaMissing(v), e) matches LaunchState::DownloadingJava(w) && e
            == LaunchEvent::DownloadApproved && v == w) || launch_next(
            LaunchState::JavaMissing(v),
            e,
        ) == LaunchState::Failed,
        e == LaunchEvent::DownloadDenied ==> launch_next(LaunchState::JavaMissing(v), e)
            == LaunchState::Failed,
{
}

} // verus!
