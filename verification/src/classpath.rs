//! The library and classpath builder: walks a resolved inheritance chain
//! child-to-parent, keeps the libraries the rule evaluator allows, resolves
//! each to a repository path, deduplicates by `(group, artifact)`
//! coordinate — first seen wins — and ends the classpath with the base game
//! archive.

use vstd::prelude::*;
use crate::errors::LauncherError;
use crate::models::{Library, VersionEntry};
use crate::rules::{is_library_allowed, library_allowed};
use crate::strutil::{
    find_from, find_char, in_list, join_strings, join_with, lemma_find_from, list_contains,
    replace_char, str_eq, substr_copy,
};

verus! {

/// The `(group, artifact)` coordinate of a Maven-style name
/// `group:artifact:version[:classifier]`; a name without a colon is its own
/// group with an empty artifact.
pub open spec fn coord_key(name: Seq<char>) -> (Seq<char>, Seq<char>) {
    let n = name.len() as int;
    let i1 = find_from(name, ':', 0);
    if i1 == n {
        (name, Seq::empty())
    } else {
        (name.take(i1), name.subrange(i1 + 1, find_from(name, ':', i1 + 1)))
    }
}

/// Computes the `(group, artifact)` coordinate of a library name.
pub fn coord_key_of(name: &str) -> (r: (String, String))
    ensures
        (r.0@, r.1@) == coord_key(name@),
{
    proof {
        lemma_find_from(name@, ':', 0);
    }
    let len = name.unicode_len();
    let i1 = find_char(name, ':', 0);
    if i1 == len {
        (name.to_owned(), String::new())
    } else {
        proof {
            lemma_find_from(name@, ':', i1 + 1);
        }
        let i2 = find_char(name, ':', i1 + 1);
        proof {
            assert(name@.take(i1 as int) =~= name@.subrange(0, i1 as int));
        }
        (substr_copy(name, 0, i1), substr_copy(name, i1 + 1, i2))
    }
}

/// The Maven-layout relative path derived from a library name with at least
/// three `:`-separated fields:
/// `group/artifact/version/artifact-version[-classifier].jar`, the dots of
/// the group becoming directory separators.
pub open spec fn maven_rel_path(name: Seq<char>) -> Option<Seq<char>> {
    let n = name.len() as int;
    let i1 = find_from(name, ':', 0);
    if i1 == n {
        None
    } else {
        let i2 = find_from(name, ':', i1 + 1);
        if i2 == n {
            None
        } else {
            let g = name.take(i1).map(|k: int, c: char| if c == '.' { '/' } else { c });
            let a = name.subrange(i1 + 1, i2);
            let i3 = find_from(name, ':', i2 + 1);
            let v = name.subrange(i2 + 1, i3);
            let suffix = if i3 == n {
                Seq::<char>::empty()
            } else {
                "-"@ + name.subrange(i3 + 1, find_from(name, ':', i3 + 1))
            };
            Some(g + "/"@ + a + "/"@ + v + "/"@ + a + "-"@ + v + suffix + ".jar"@)
        }
    }
}

/// Derives the Maven-layout relative path of a library name, if the name
/// has enough fields.
pub fn derive_maven_rel_path(name: &str) -> (r: Option<String>)
    ensures
        match r {
            Some(p) => maven_rel_path(name@) == Some(p@),
            None => maven_rel_path(name@) is None,
        },
{
    proof {
        lemma_find_from(name@, ':', 0);
        reveal_strlit("/");
    }
    let len = name.unicode_len();
    let i1 = find_char(name, ':', 0);
    if i1 == len {
        return None;
    }
    proof {
        lemma_find_from(name@, ':', i1 + 1);
    }
    let i2 = find_char(name, ':', i1 + 1);
    if i2 == len {
        return None;
    }
    proof {
        lemma_find_from(name@, ':', i2 + 1);
    }
    let i3 = find_char(name, ':', i2 + 1);
    let group_src = name.substring_char(0, i1);
    let g = replace_char(group_src, '.', "/");
    proof {
        assert(group_src@ =~= name@.take(i1 as int));
    }
    let a = substr_copy(name, i1 + 1, i2);
    let v = substr_copy(name, i2 + 1, i3);
    let mut out = g;
    out.append("/");
    out.append(a.as_str());
    out.append("/");
    out.append(v.as_str());
    out.append("/");
    out.append(a.as_str());
    out.append("-");
    out.append(v.as_str());
    if i3 < len {
        proof {
            lemma_find_from(name@, ':', i3 + 1);
        }
        let i4 = find_char(name, ':', i3 + 1);
        let classifier = substr_copy(name, i3 + 1, i4);
        out.append("-");
        out.append(classifier.as_str());
    }
    out.append(".jar");
    proof {
        assert(out@ =~= maven_rel_path(name@)->0);
    }
    Some(out)
}

/// The repository-relative path a library resolves to: its explicit
/// artifact path when one is given, else its derived Maven path when that
/// file already exists locally, else nothing.
pub open spec fn resolved_rel(lib: Library, existing: Seq<String>) -> Option<Seq<char>> {
    let explicit: Option<Seq<char>> = match lib.downloads {
        Some(d) => match d.artifact {
            Some(a) => Some(a.path@),
            None => None,
        },
        None => None,
    };
    if explicit is Some {
        explicit
    } else {
        match maven_rel_path(lib.name@) {
            Some(rel) => if in_list(existing, rel) {
                Some(rel)
            } else {
                None
            },
            None => None,
        }
    }
}

/// Resolves a library to a repository-relative path, `existing` being the
/// derived paths that are present locally.
pub fn resolve_rel_path(lib: &Library, existing: &Vec<String>) -> (r: Option<String>)
    ensures
        match r {
            Some(p) => resolved_rel(*lib, existing@) == Some(p@),
            None => resolved_rel(*lib, existing@) is None,
        },
{
    if let Some(d) = &lib.downloads {
        if let Some(a) = &d.artifact {
            return Some(a.path.clone());
        }
    }
    match derive_maven_rel_path(lib.name.as_str()) {
        Some(rel) => {
            if list_contains(existing, rel.as_str()) {
                Some(rel)
            } else {
                None
            }
        },
        None => None,
    }
}

/// Whether the library contributes a classpath entry: allowed on `os`,
/// resolvable to a path, and its coordinate not yet taken.
pub open spec fn lib_included(
    lib: Library,
    os: Seq<char>,
    existing: Seq<String>,
    seen: Seq<(Seq<char>, Seq<char>)>,
) -> bool {
    &&& library_allowed(lib, os)
    &&& resolved_rel(lib, existing) is Some
    &&& !seen.contains(coord_key(lib.name@))
}

/// The taken coordinates after considering one library.
pub open spec fn step_seen(
    lib: Library,
    os: Seq<char>,
    existing: Seq<String>,
    seen: Seq<(Seq<char>, Seq<char>)>,
) -> Seq<(Seq<char>, Seq<char>)> {
    if lib_included(lib, os, existing, seen) {
        seen.push(coord_key(lib.name@))
    } else {
        seen
    }
}

/// The classpath entries `(coordinate, relative path)` contributed by a
/// library list, given the coordinates already taken.
pub open spec fn cp_libs(
    libs: Seq<Library>,
    os: Seq<char>,
    existing: Seq<String>,
    seen: Seq<(Seq<char>, Seq<char>)>,
) -> Seq<((Seq<char>, Seq<char>), Seq<char>)>
    decreases libs.len(),
{
    if libs.len() == 0 {
        Seq::empty()
    } else {
        let head: Seq<((Seq<char>, Seq<char>), Seq<char>)> = if lib_included(
            libs[0],
            os,
            existing,
            seen,
        ) {
            seq![(coord_key(libs[0].name@), resolved_rel(libs[0], existing)->0)]
        } else {
            Seq::empty()
        };
        head + cp_libs(libs.drop_first(), os, existing, step_seen(libs[0], os, existing, seen))
    }
}

/// The taken coordinates after a whole library list.
pub open spec fn seen_after(
    libs: Seq<Library>,
    os: Seq<char>,
    existing: Seq<String>,
    seen: Seq<(Seq<char>, Seq<char>)>,
) -> Seq<(Seq<char>, Seq<char>)>
    decreases libs.len(),
{
    if libs.len() == 0 {
        seen
    } else {
        seen_after(libs.drop_first(), os, existing, step_seen(libs[0], os, existing, seen))
    }
}

/// The classpath entries of a whole chain, child first.
pub open spec fn cp_chain(
    chain: Seq<VersionEntry>,
    os: Seq<char>,
    existing: Seq<String>,
    seen: Seq<(Seq<char>, Seq<char>)>,
) -> Seq<((Seq<char>, Seq<char>), Seq<char>)>
    decreases chain.len(),
{
    if chain.len() == 0 {
        Seq::empty()
    } else {
        cp_libs(chain[0].descriptor.libraries@, os, existing, seen) + cp_chain(
            chain.drop_first(),
            os,
            existing,
            seen_after(chain[0].descriptor.libraries@, os, existing, seen),
        )
    }
}

/// The deduplicated classpath entries of a chain.
pub open spec fn classpath_rels(
    chain: Seq<VersionEntry>,
    os: Seq<char>,
    existing: Seq<String>,
) -> Seq<((Seq<char>, Seq<char>), Seq<char>)> {
    cp_chain(chain, os, existing, Seq::empty())
}

/// The on-disk path of the base game archive of version `id`.
pub open spec fn jar_path_spec(versions_dir: Seq<char>, id: Seq<char>) -> Seq<char> {
    versions_dir + "/"@ + id + "/"@ + id + ".jar"@
}

/// Composes the on-disk path of the game archive of version `id`.
pub fn jar_path(versions_dir: &str, id: &str) -> (r: String)
    ensures
        r@ == jar_path_spec(versions_dir@, id@),
{
    let mut out = versions_dir.to_owned();
    out.append("/");
    out.append(id);
    out.append("/");
    out.append(id);
    out.append(".jar");
    out
}

/// The full classpath of a chain: each entry's path under the libraries
/// root, then the base game archive of the last (base) version of the
/// chain.
pub open spec fn classpath_paths(
    chain: Seq<VersionEntry>,
    os: Seq<char>,
    existing: Seq<String>,
    libraries_dir: Seq<char>,
    versions_dir: Seq<char>,
) -> Seq<Seq<char>> {
    classpath_rels(chain, os, existing).map_values(
        |e: ((Seq<char>, Seq<char>), Seq<char>)| libraries_dir + "/"@ + e.1,
    ) + seq![jar_path_spec(versions_dir, chain.last().id@)]
}

fn seen_contains(seen: &Vec<(String, String)>, key: &(String, String)) -> (r: bool)
    ensures
        r == seen_views(seen@).contains((key.0@, key.1@)),
{
    let mut i: usize = 0;
    while i < seen.len()
        invariant
            0 <= i <= seen@.len(),
            forall|j: int| 0 <= j < i ==> seen_views(seen@)[j] != (key.0@, key.1@),
        decreases seen@.len() - i,
    {
        if str_eq(seen[i].0.as_str(), key.0.as_str()) && str_eq(
            seen[i].1.as_str(),
            key.1.as_str(),
        ) {
            proof {
                assert(seen_views(seen@)[i as int] == (key.0@, key.1@));
            }
            return true;
        }
        i += 1;
    }
    proof {
        if seen_views(seen@).contains((key.0@, key.1@)) {
            let j = choose|j: int|
                0 <= j < seen_views(seen@).len() && seen_views(seen@)[j] == (key.0@, key.1@);
        }
    }
    false
}

/// The views of a list of coordinate pairs.
pub open spec fn seen_views(l: Seq<(String, String)>) -> Seq<(Seq<char>, Seq<char>)> {
    l.map_values(|p: (String, String)| (p.0@, p.1@))
}

/// Builds the deduplicated classpath entries of a chain: for each kept
/// library, its path under the libraries root; first seen coordinate wins.
pub fn classpath_entries(
    chain: &Vec<VersionEntry>,
    os_name: &str,
    existing: &Vec<String>,
    libraries_dir: &str,
) -> (r: Vec<String>)
    ensures
        crate::strutil::views(r@) == classpath_rels(chain@, os_name@, existing@).map_values(
            |e: ((Seq<char>, Seq<char>), Seq<char>)| libraries_dir@ + "/"@ + e.1,
        ),
{
    let ghost os = os_name@;
    let ghost ex = existing@;
    let ghost full = classpath_rels(chain@, os, ex);
    let ghost keyf = |e: ((Seq<char>, Seq<char>), Seq<char>)| e.0;
    let ghost pathf = |e: ((Seq<char>, Seq<char>), Seq<char>)| libraries_dir@ + "/"@ + e.1;
    let mut out: Vec<String> = Vec::new();
    let mut seen: Vec<(String, String)> = Vec::new();
    let mut i: usize = 0;
    proof {
        assert(chain@.skip(0) =~= chain@);
        assert(seen_views(seen@) =~= Seq::<(Seq<char>, Seq<char>)>::empty());
        assert(seen_views(seen@) =~= full.take(0).map_values(keyf));
        assert(crate::strutil::views(out@) =~= full.take(0).map_values(pathf));
        assert(full =~= full.take(0) + cp_chain(chain@.skip(0), os, ex, seen_views(seen@)));
    }
    while i < chain.len()
        invariant
            0 <= i <= chain@.len(),
            os == os_name@,
            ex == existing@,
            full == classpath_rels(chain@, os, ex),
            out@.len() == seen@.len() <= full.len(),
            keyf == (|e: ((Seq<char>, Seq<char>), Seq<char>)| e.0),
            pathf == (|e: ((Seq<char>, Seq<char>), Seq<char>)| libraries_dir@ + "/"@ + e.1),
            seen_views(seen@) == full.take(seen@.len() as int).map_values(keyf),
            crate::strutil::views(out@) == full.take(seen@.len() as int).map_values(pathf),
            full == full.take(seen@.len() as int) + cp_chain(
                chain@.skip(i as int),
                os,
                ex,
                seen_views(seen@),
            ),
        decreases chain@.len() - i,
    {
        let libs = &chain[i].descriptor.libraries;
        proof {
            assert(chain@.skip(i as int)[0] == chain@[i as int]);
            assert(chain@.skip(i as int).drop_first() =~= chain@.skip(i + 1));
            assert(libs@.skip(0) =~= libs@);
        }
        let mut j: usize = 0;
        while j < libs.len()
            invariant
                0 <= j <= libs@.len(),
                0 <= i < chain@.len(),
                os == os_name@,
                ex == existing@,
                libs == &chain@[i as int].descriptor.libraries,
                full == classpath_rels(chain@, os, ex),
                out@.len() == seen@.len() <= full.len(),
                keyf == (|e: ((Seq<char>, Seq<char>), Seq<char>)| e.0),
                pathf == (|e: ((Seq<char>, Seq<char>), Seq<char>)| libraries_dir@ + "/"@ + e.1),
                seen_views(seen@) == full.take(seen@.len() as int).map_values(keyf),
                crate::strutil::views(out@) == full.take(seen@.len() as int).map_values(pathf),
                full == full.take(seen@.len() as int) + cp_libs(
                    libs@.skip(j as int),
                    os,
                    ex,
                    seen_views(seen@),
                ) + cp_chain(
                    chain@.skip(i + 1),
                    os,
                    ex,
                    seen_after(libs@.skip(j as int), os, ex, seen_views(seen@)),
                ),
            decreases libs@.len() - j,
        {
            proof {
                assert(libs@.skip(j as int)[0] == libs@[j as int]);
                assert(libs@.skip(j as int).drop_first() =~= libs@.skip(j + 1));
            }
            let lib = &libs[j];
            let ghost sv = seen_views(seen@);
            let ghost done = seen@.len() as int;
            let allowed = is_library_allowed(lib, os_name);
            let mut included = false;
            if allowed {
                if let Some(rel) = resolve_rel_path(lib, existing) {
                    let key = coord_key_of(lib.name.as_str());
                    if !seen_contains(&seen, &key) {
                        included = true;
                        let mut path = libraries_dir.to_owned();
                        path.append("/");
                        path.append(rel.as_str());
                        let ghost e = (coord_key(lib.name@), rel@);
                        proof {
                            assert(lib_included(libs@[j as int], os, ex, sv));
                            assert(cp_libs(libs@.skip(j as int), os, ex, sv) == seq![e] + cp_libs(
                                libs@.skip(j + 1),
                                os,
                                ex,
                                sv.push(e.0),
                            ));
                            assert(full[done] == e) by {
                                assert(full == full.take(done) + (seq![e] + cp_libs(
                                    libs@.skip(j + 1),
                                    os,
                                    ex,
                                    sv.push(e.0),
                                ) + cp_chain(
                                    chain@.skip(i + 1),
                                    os,
                                    ex,
                                    seen_after(libs@.skip(j as int), os, ex, sv),
                                )));
                            }
                            assert(full.take(done + 1) =~= full.take(done).push(e));
                        }
                        out.push(path);
                        seen.push(key);
                        proof {
                            assert(seen_views(seen@) =~= sv.push(e.0));
                            assert(seen_views(seen@) =~= full.take(done + 1).map_values(keyf)) by {
                                assert(full.take(done + 1).map_values(keyf) =~= full.take(
                                    done,
                                ).map_values(keyf).push(keyf(e)));
                            }
                            assert(crate::strutil::views(out@) =~= full.take(done + 1).map_values(
                                pathf,
                            )) by {
                                assert(full.take(done + 1).map_values(pathf) =~= full.take(
                                    done,
                                ).map_values(pathf).push(pathf(e)));
                                assert(crate::strutil::views(out@) =~= crate::strutil::views(
                                    out@.drop_last(),
                                ).push(out@.last()@));
                            }
                            assert(full =~= full.take(done + 1) + cp_libs(
                                libs@.skip(j + 1),
                                os,
                                ex,
                                seen_views(seen@),
                            ) + cp_chain(
                                chain@.skip(i + 1),
                                os,
                                ex,
                                seen_after(libs@.skip(j + 1), os, ex, seen_views(seen@)),
                            )) by {
                                assert(seen_after(libs@.skip(j as int), os, ex, sv) == seen_after(
                                    libs@.skip(j + 1),
                                    os,
                                    ex,
                                    sv.push(e.0),
                                ));
                            }
                        }
                    }
                }
            }
            if !included {
                proof {
                    assert(!lib_included(libs@[j as int], os, ex, sv));
                    assert(step_seen(libs@[j as int], os, ex, sv) == sv);
                    assert(cp_libs(libs@.skip(j as int), os, ex, sv) =~= cp_libs(
                        libs@.skip(j + 1),
                        os,
                        ex,
                        sv,
                    ));
                    assert(seen_after(libs@.skip(j as int), os, ex, sv) == seen_after(
                        libs@.skip(j + 1),
                        os,
                        ex,
                        sv,
                    ));
                }
            }
            j += 1;
        }
        proof {
            assert(libs@.skip(libs@.len() as int).len() == 0);
            assert(cp_libs(libs@.skip(libs@.len() as int), os, ex, seen_views(seen@))
                =~= Seq::<((Seq<char>, Seq<char>), Seq<char>)>::empty());
            assert(seen_after(libs@.skip(libs@.len() as int), os, ex, seen_views(seen@))
                == seen_views(seen@));
            assert(full =~= full.take(seen@.len() as int) + cp_chain(
                chain@.skip(i + 1),
                os,
                ex,
                seen_views(seen@),
            ));
        }
        i += 1;
    }
    proof {
        assert(chain@.skip(chain@.len() as int).len() == 0);
        assert(cp_chain(chain@.skip(chain@.len() as int), os, ex, seen_views(seen@))
            =~= Seq::<((Seq<char>, Seq<char>), Seq<char>)>::empty());
        assert(full =~= full.take(seen@.len() as int));
        assert(full.take(seen@.len() as int) =~= full);
        assert(crate::strutil::views(out@) == full.map_values(pathf));
    }
    out
}

/// Builds the full classpath string of a resolved chain, entries joined
/// with `:` and ending in the base game archive. Fails only on an empty
/// chain.
pub fn build_classpath_string(
    chain: &Vec<VersionEntry>,
    os_name: &str,
    existing: &Vec<String>,
    libraries_dir: &str,
    versions_dir: &str,
) -> (r: Result<String, LauncherError>)
    ensures
        match r {
            Ok(s) => chain@.len() > 0 && s@ == join_with(
                classpath_paths(chain@, os_name@, existing@, libraries_dir@, versions_dir@),
                ":"@,
            ),
            Err(e) => chain@.len() == 0 && e is NotFound,
        },
{
    if chain.len() == 0 {
        return Err(LauncherError::NotFound);
    }
    let mut entries = classpath_entries(chain, os_name, existing, libraries_dir);
    let base_id = &chain[chain.len() - 1].id;
    let jar = jar_path(versions_dir, base_id.as_str());
    proof {
        assert(chain@[chain@.len() - 1] == chain@.last());
    }
    let ghost before = entries@;
    entries.push(jar);
    proof {
        assert(crate::strutil::views(entries@) =~= crate::strutil::views(before).push(
            entries@.last()@,
        ));
        assert(crate::strutil::views(entries@) =~= classpath_paths(
            chain@,
            os_name@,
            existing@,
            libraries_dir@,
            versions_dir@,
        ));
    }
    Ok(join_strings(&entries, ":"))
}

proof fn lemma_cp_libs_unique(
    libs: Seq<Library>,
    os: Seq<char>,
    existing: Seq<String>,
    seen: Seq<(Seq<char>, Seq<char>)>,
)
    ensures
        forall|k: int|
            0 <= k < cp_libs(libs, os, existing, seen).len() ==> !seen.contains(
                #[trigger] cp_libs(libs, os, existing, seen)[k].0,
            ),
        forall|k1: int, k2: int|
            0 <= k1 < k2 < cp_libs(libs, os, existing, seen).len() ==> #[trigger] cp_libs(
                libs,
                os,
                existing,
                seen,
            )[k1].0 != #[trigger] cp_libs(libs, os, existing, seen)[k2].0,
    decreases libs.len(),
{
    if libs.len() > 0 {
        let r = cp_libs(libs, os, existing, seen);
        let seen2 = step_seen(libs[0], os, existing, seen);
        let tail = cp_libs(libs.drop_first(), os, existing, seen2);
        lemma_cp_libs_unique(libs.drop_first(), os, existing, seen2);
        if lib_included(libs[0], os, existing, seen) {
            let e0 = (coord_key(libs[0].name@), resolved_rel(libs[0], existing)->0);
            assert(r == seq![e0] + tail);
            assert(seen2 == seen.push(e0.0));
            assert(seen2.contains(e0.0)) by {
                assert(seen2[seen.len() as int] == e0.0);
            }
            assert forall|k: int| 0 <= k < r.len() implies !seen.contains(#[trigger] r[k].0) by {
                if k > 0 {
                    assert(r[k] == tail[k - 1]);
                    assert(!seen2.contains(tail[k - 1].0));
                    if seen.contains(tail[k - 1].0) {
                        let w = choose|w: int| 0 <= w < seen.len() && seen[w] == tail[k - 1].0;
                        assert(seen2[w] == tail[k - 1].0);
                    }
                } else {
                    assert(r[0] == e0);
                    if seen.contains(e0.0) {
                        let w = choose|w: int| 0 <= w < seen.len() && seen[w] == e0.0;
                        assert(seen2[w] == e0.0);
                    }
                }
            }
            assert forall|k1: int, k2: int| 0 <= k1 < k2 < r.len() implies #[trigger] r[k1].0
                != #[trigger] r[k2].0 by {
                if k1 == 0 {
                    assert(r[k2] == tail[k2 - 1]);
                    assert(!seen2.contains(tail[k2 - 1].0));
                    assert(r[0].0 == e0.0);
                } else {
                    assert(r[k1] == tail[k1 - 1]);
                    assert(r[k2] == tail[k2 - 1]);
                }
            }
        } else {
            assert(r =~= tail);
        }
    }
}

proof fn lemma_seen_after_covers(
    libs: Seq<Library>,
    os: Seq<char>,
    existing: Seq<String>,
    seen: Seq<(Seq<char>, Seq<char>)>,
)
    ensures
        forall|x: (Seq<char>, Seq<char>)|
            seen.contains(x) ==> seen_after(libs, os, existing, seen).contains(x),
        forall|k: int|
            0 <= k < cp_libs(libs, os, existing, seen).len() ==> seen_after(
                libs,
                os,
                existing,
                seen,
            ).contains(#[trigger] cp_libs(libs, os, existing, seen)[k].0),
    decreases libs.len(),
{
    if libs.len() > 0 {
        let r = cp_libs(libs, os, existing, seen);
        let seen2 = step_seen(libs[0], os, existing, seen);
        let tail = cp_libs(libs.drop_first(), os, existing, seen2);
        lemma_seen_after_covers(libs.drop_first(), os, existing, seen2);
        assert(forall|x: (Seq<char>, Seq<char>)| seen.contains(x) ==> seen2.contains(x)) by {
            assert forall|x: (Seq<char>, Seq<char>)| seen.contains(x) implies seen2.contains(x) by {
                let w = choose|w: int| 0 <= w < seen.len() && seen[w] == x;
                assert(seen2[w] == x);
            }
        }
        if lib_included(libs[0], os, existing, seen) {
            let e0 = (coord_key(libs[0].name@), resolved_rel(libs[0], existing)->0);
            assert(r == seq![e0] + tail);
            assert(seen2.contains(e0.0)) by {
                assert(seen2[seen.len() as int] == e0.0);
            }
            assert forall|k: int| 0 <= k < r.len() implies seen_after(
                libs,
                os,
                existing,
                seen,
            ).contains(r[k].0) by {
                if k > 0 {
                    assert(r[k] == tail[k - 1]);
                }
            }
        } else {
            assert(r =~= tail);
        }
    }
}

proof fn lemma_cp_chain_unique(
    chain: Seq<VersionEntry>,
    os: Seq<char>,
    existing: Seq<String>,
    seen: Seq<(Seq<char>, Seq<char>)>,
)
    ensures
        forall|k: int|
            0 <= k < cp_chain(chain, os, existing, seen).len() ==> !seen.contains(
                #[trigger] cp_chain(chain, os, existing, seen)[k].0,
            ),
        forall|k1: int, k2: int|
            0 <= k1 < k2 < cp_chain(chain, os, existing, seen).len() ==> #[trigger] cp_chain(
                chain,
                os,
                existing,
                seen,
            )[k1].0 != #[trigger] cp_chain(chain, os, existing, seen)[k2].0,
    decreases chain.len(),
{
    if chain.len() > 0 {
        let libs = chain[0].descriptor.libraries@;
        let r = cp_chain(chain, os, existing, seen);
        let head = cp_libs(libs, os, existing, seen);
        let seen2 = seen_after(libs, os, existing, seen);
        let tail = cp_chain(chain.drop_first(), os, existing, seen2);
        assert(r == head + tail);
        lemma_cp_libs_unique(libs, os, existing, seen);
        lemma_seen_after_covers(libs, os, existing, seen);
        lemma_cp_chain_unique(chain.drop_first(), os, existing, seen2);
        assert forall|k: int| 0 <= k < r.len() implies !seen.contains(#[trigger] r[k].0) by {
            if k < head.len() {
                assert(r[k] == head[k]);
            } else {
                assert(r[k] == tail[k - head.len()]);
                assert(!seen2.contains(tail[k - head.len()].0));
            }
        }
        assert forall|k1: int, k2: int| 0 <= k1 < k2 < r.len() implies #[trigger] r[k1].0
            != #[trigger] r[k2].0 by {
            if k2 < head.len() {
                assert(r[k1] == head[k1] && r[k2] == head[k2]);
            } else if k1 >= head.len() {
                assert(r[k1] == tail[k1 - head.len()] && r[k2] == tail[k2 - head.len()]);
            } else {
                assert(r[k1] == head[k1] && r[k2] == tail[k2 - head.len()]);
                assert(seen2.contains(head[k1].0));
                assert(!seen2.contains(tail[k2 - head.len()].0));
            }
        }
    }
}

/// Classpath entries are unique by `(group, artifact)` coordinate: no two
/// entries of a built classpath share one, however the chain repeats
/// libraries across its descriptors.
pub proof fn lemma_classpath_unique_coords(
    chain: Seq<VersionEntry>,
    os: Seq<char>,
    existing: Seq<String>,
)
    ensures
        forall|k1: int, k2: int|
            0 <= k1 < k2 < classpath_rels(chain, os, existing).len() ==> #[trigger] classpath_rels(
                chain,
                os,
                existing,
            )[k1].0 != #[trigger] classpath_rels(chain, os, existing)[k2].0,
{
    lemma_cp_chain_unique(chain, os, existing, Seq::empty());
}

/// Rebuilding the classpath from the same on-disk state yields identical
/// output: the classpath is a function of the chain, the operating system
/// and the set of locally present derived artifacts, and of nothing else.
pub proof fn lemma_classpath_rebuild_identical(
    chain: Seq<VersionEntry>,
    os: Seq<char>,
    existing: Seq<String>,
    libraries_dir: Seq<char>,
    versions_dir: Seq<char>,
    first: Seq<Seq<char>>,
    second: Seq<Seq<char>>,
)
    requires
        first == classpath_paths(chain, os, existing, libraries_dir, versions_dir),
        second == classpath_paths(chain, os, existing, libraries_dir, versions_dir),
    ensures
        first == second,
{
}

} // verus!
