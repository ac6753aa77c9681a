//! The mod-loader installer adapter: the argument list the external
//! installer is invoked with, the verdict on its exit, and the discovery of
//! the version identifier it produced — the versions directory is scanned
//! for entries that carry the loader marker and end in the target game
//! version, and the most recently modified match wins (a heuristic, since
//! installers do not report the identifier; recency tolerates stale
//! leftovers of earlier installs).

use vstd::prelude::*;
use vstd::string::*;
use crate::errors::LauncherError;
use crate::strutil::{contains_seq, contains_str, ends_with_str, is_suffix_of, views};

verus! {

/// The installer's argument list:
/// `client -dir <game dir> -mcversion <version> -noprofile` — the last flag
/// keeps it from touching the profile store.
pub fn installer_args(game_dir: &str, mc_version: &str) -> (r: Vec<String>)
    ensures
        views(r@) == seq![
            "client"@,
            "-dir"@,
            game_dir@,
            "-mcversion"@,
            mc_version@,
            "-noprofile"@,
        ],
{
    let mut out: Vec<String> = Vec::new();
    out.push("client".to_owned());
    out.push("-dir".to_owned());
    out.push(game_dir.to_owned());
    out.push("-mcversion".to_owned());
    out.push(mc_version.to_owned());
    out.push("-noprofile".to_owned());
    proof {
        assert(views(out@) =~= seq![
            "client"@,
            "-dir"@,
            game_dir@,
            "-mcversion"@,
            mc_version@,
            "-noprofile"@,
        ]);
    }
    out
}

/// The verdict on the installer subprocess: a non-zero exit surfaces the
/// captured standard error verbatim.
pub fn installer_outcome(exit_success: bool, stderr: String) -> (r: Result<(), LauncherError>)
    ensures
        exit_success ==> r is Ok,
        !exit_success ==> (r matches Err(LauncherError::SubprocessFailure(s)) && s@ == stderr@),
{
    if exit_success {
        Ok(())
    } else {
        Err(LauncherError::SubprocessFailure(stderr))
    }
}

/// Whether a directory name can be the installer's product: it mentions the
/// loader marker and ends in the game version.
pub open spec fn qualifies(name: Seq<char>, marker: Seq<char>, version: Seq<char>) -> bool {
    contains_seq(name, marker) && is_suffix_of(version, name)
}

/// The best candidate after folding `entries` (name, modified time) over a
/// running best: a qualifying entry strictly newer than the best so far
/// replaces it, so among equally new matches the first wins.
pub open spec fn pick_from(
    entries: Seq<(String, u64)>,
    marker: Seq<char>,
    version: Seq<char>,
    best: Option<Seq<char>>,
    best_time: u64,
) -> (Option<Seq<char>>, u64)
    decreases entries.len(),
{
    if entries.len() == 0 {
        (best, best_time)
    } else if qualifies(entries[0].0@, marker, version) && entries[0].1 > best_time {
        pick_from(entries.drop_first(), marker, version, Some(entries[0].0@), entries[0].1)
    } else {
        pick_from(entries.drop_first(), marker, version, best, best_time)
    }
}

/// The version identifier discovered among directory entries, if any.
pub open spec fn discovered_version(entries: Seq<(String, u64)>, version: Seq<char>) -> Option<
    Seq<char>,
> {
    pick_from(entries, "fabric-loader"@, version, None, 0).0
}

/// Discovers the version identifier the installer produced, among the
/// versions directory's entries given as `(name, modified time)`.
pub fn discover_installed_version(entries: &Vec<(String, u64)>, mc_version: &str) -> (r: Result<
    String,
    LauncherError,
>)
    ensures
        match r {
            Ok(n) => discovered_version(entries@, mc_version@) == Some(n@),
            Err(e) => discovered_version(entries@, mc_version@) is None && e is NotFound,
        },
{
    let ghost full = pick_from(entries@, "fabric-loader"@, mc_version@, None, 0);
    let mut best: Option<String> = None;
    let mut best_time: u64 = 0;
    let mut i: usize = 0;
    proof {
        assert(entries@.skip(0) =~= entries@);
    }
    while i < entries.len()
        invariant
            0 <= i <= entries@.len(),
            full == pick_from(
                entries@.skip(i as int),
                "fabric-loader"@,
                mc_version@,
                match best {
                    Some(b) => Some(b@),
                    None => None,
                },
                best_time,
            ),
        decreases entries@.len() - i,
    {
        proof {
            assert(entries@.skip(i as int)[0] == entries@[i as int]);
            assert(entries@.skip(i as int).drop_first() =~= entries@.skip(i + 1));
        }
        let name = &entries[i].0;
        let time = entries[i].1;
        if contains_str(name.as_str(), "fabric-loader") && ends_with_str(
            name.as_str(),
            mc_version,
        ) && time > best_time {
            best = Some(name.clone());
            best_time = time;
        }
        i += 1;
    }
    proof {
        assert(entries@.skip(entries@.len() as int).len() == 0);
    }
    match best {
        Some(n) => Ok(n),
        None => Err(LauncherError::NotFound),
    }
}

} // verus!
