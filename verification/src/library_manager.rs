//! The library downloader's planning logic: for each library a version
//! descriptor names, decide where its artifact comes from — the explicit
//! download when one with a URL is given, else the conventional repository
//! under the derived Maven path — and which of those artifacts are still
//! missing locally.

use vstd::prelude::*;
use vstd::string::*;
use crate::classpath::maven_rel_path;
use crate::models::Library;
use crate::rules::{is_library_allowed, library_allowed};
use crate::strutil::{in_list, last_index_of, lemma_last_index_of, last_char_index, list_contains, substr_copy};

verus! {

/// Manages the on-disk library repository beside a versions directory.
pub struct LibraryManager {
    versions_dir: String,
    libraries_dir: String,
}

/// The library repository beside a path: `libraries` next to the path's
/// last component — under the parent directory when the path has one, and
/// as a bare `libraries` for a bare relative name.
pub open spec fn libraries_dir_of(p: Seq<char>) -> Seq<char> {
    let li = last_index_of(p, '/');
    if li >= 0 {
        p.take(li) + "/libraries"@
    } else {
        "libraries"@
    }
}

impl LibraryManager {
    pub closed spec fn versions_dir_spec(&self) -> Seq<char> {
        self.versions_dir@
    }

    pub closed spec fn libraries_dir_spec(&self) -> Seq<char> {
        self.libraries_dir@
    }

    /// A manager whose library repository sits beside the versions
    /// directory, under `libraries`.
    pub fn new(versions_dir: String) -> (r: Self)
        ensures
            r.versions_dir_spec() == versions_dir@,
            r.libraries_dir_spec() == libraries_dir_of(versions_dir@),
    {
        proof {
            lemma_last_index_of(versions_dir@, '/');
        }
        let libraries_dir = match last_char_index(versions_dir.as_str(), '/') {
            Some(li) => {
                let mut out = substr_copy(versions_dir.as_str(), 0, li);
                out.append("/libraries");
                proof {
                    assert(versions_dir@.subrange(0, last_index_of(versions_dir@, '/'))
                        =~= versions_dir@.take(last_index_of(versions_dir@, '/')));
                }
                out
            },
            None => "libraries".to_owned(),
        };
        LibraryManager { versions_dir, libraries_dir }
    }
}

/// Where a library's artifact comes from: `(url, repository-relative
/// path)`. An explicit download with a non-empty URL wins; else the
/// conventional repository serves the derived Maven path; a library with
/// neither has no fetch target.
pub open spec fn fetch_target(lib: Library, base_url: Seq<char>) -> Option<(Seq<char>, Seq<char>)> {
    let explicit: Option<(Seq<char>, Seq<char>)> = match lib.downloads {
        Some(d) => match d.artifact {
            Some(a) => if a.url@.len() > 0 {
                Some((a.url@, a.path@))
            } else {
                None
            },
            None => None,
        },
        None => None,
    };
    if explicit is Some {
        explicit
    } else {
        match maven_rel_path(lib.name@) {
            Some(rel) => Some((base_url + "/"@ + rel, rel)),
            None => None,
        }
    }
}

/// Resolves a library's fetch target against the conventional repository at
/// `base_url`.
pub fn library_fetch_target(lib: &Library, base_url: &str) -> (r: Option<(String, String)>)
    ensures
        match r {
            Some(t) => fetch_target(*lib, base_url@) == Some((t.0@, t.1@)),
            None => fetch_target(*lib, base_url@) is None,
        },
{
    if let Some(d) = &lib.downloads {
        if let Some(a) = &d.artifact {
            if a.url.as_str().unicode_len() > 0 {
                return Some((a.url.clone(), a.path.clone()));
            }
        }
    }
    match crate::classpath::derive_maven_rel_path(lib.name.as_str()) {
        Some(rel) => {
            let mut url = base_url.to_owned();
            url.append("/");
            url.append(rel.as_str());
            Some((url, rel))
        },
        None => None,
    }
}

/// The fetches one pass performs: for each library in descriptor order that
/// the rules allow on `os`, has a fetch target, and whose relative path is
/// not yet present locally, its `(url, relative path)`.
pub open spec fn fetch_plan(
    libs: Seq<Library>,
    os: Seq<char>,
    base_url: Seq<char>,
    present: Seq<String>,
) -> Seq<(Seq<char>, Seq<char>)>
    decreases libs.len(),
{
    if libs.len() == 0 {
        Seq::empty()
    } else {
        let head: Seq<(Seq<char>, Seq<char>)> = if library_allowed(libs[0], os) && fetch_target(
            libs[0],
            base_url,
        ) is Some && !in_list(present, (fetch_target(libs[0], base_url)->0).1) {
            seq![fetch_target(libs[0], base_url)->0]
        } else {
            Seq::empty()
        };
        head + fetch_plan(libs.drop_first(), os, base_url, present)
    }
}

/// The views of `(url, relative path)` pairs.
pub open spec fn target_views(l: Seq<(String, String)>) -> Seq<(Seq<char>, Seq<char>)> {
    l.map_values(|p: (String, String)| (p.0@, p.1@))
}

/// Plans the library fetches of one pass: allowed libraries with a fetch
/// target whose file is absent, in descriptor order. `present` holds the
/// repository-relative paths that exist locally.
pub fn plan_library_fetches(
    libs: &Vec<Library>,
    os_name: &str,
    base_url: &str,
    present: &Vec<String>,
) -> (r: Vec<(String, String)>)
    ensures
        target_views(r@) == fetch_plan(libs@, os_name@, base_url@, present@),
{
    let ghost full = fetch_plan(libs@, os_name@, base_url@, present@);
    let mut out: Vec<(String, String)> = Vec::new();
    let mut i: usize = 0;
    proof {
        assert(libs@.skip(0) =~= libs@);
        assert(target_views(out@) =~= Seq::<(Seq<char>, Seq<char>)>::empty());
    }
    while i < libs.len()
        invariant
            0 <= i <= libs@.len(),
            full == fetch_plan(libs@, os_name@, base_url@, present@),
            full == target_views(out@) + fetch_plan(
                libs@.skip(i as int),
                os_name@,
                base_url@,
                present@,
            ),
        decreases libs@.len() - i,
    {
        proof {
            assert(libs@.skip(i as int)[0] == libs@[i as int]);
            assert(libs@.skip(i as int).drop_first() =~= libs@.skip(i + 1));
        }
        let lib = &libs[i];
        if is_library_allowed(lib, os_name) {
            if let Some(t) = library_fetch_target(lib, base_url) {
                if !list_contains(present, t.1.as_str()) {
                    let ghost before = out@;
                    out.push(t);
                    proof {
                        assert(target_views(out@) =~= target_views(before).push(
                            fetch_target(libs@[i as int], base_url@)->0,
                        ));
                    }
                }
            }
        }
        i += 1;
    }
    proof {
        assert(libs@.skip(libs@.len() as int).len() == 0);
        assert(target_views(out@) =~= full);
    }
    out
}

} // verus!
