//! The native library extractor: finds the native artifact a library
//! carries for the current operating system, and turns a downloaded native
//! archive into the files to place in the version's natives directory —
//! members under an excluded prefix and directory members are skipped, and
//! every kept member is flattened to its file name.

use vstd::prelude::*;
use vstd::string::*;
use crate::errors::LauncherError;
use crate::models::{assoc_find, assoc_get, Library, LibraryArtifact};
use crate::rules::{is_library_allowed, library_allowed};
use crate::strutil::{
    contains_seq, contains_str, is_prefix_of, last_char_index, last_index_of, lemma_last_index_of,
    replace_char, starts_with_str, substr_copy,
};
use crate::ziparc::{member_views, zip_entries_of, zip_read_all, zip_reads};

verus! {

/// The conventional classifier key `natives-<os>`.
pub open spec fn natives_key(os: Seq<char>) -> Seq<char> {
    "natives-"@ + os
}

/// The native artifact a library carries for `os`. An entry the rule
/// evaluator denies for `os` carries no native work at all; an allowed one
/// is searched by three strategies in order: the explicit OS-to-classifier
/// map; the conventional `natives-<os>` classifier key; a main artifact
/// whose path or whose library name mentions `natives-<os>`.
pub open spec fn native_artifact_spec(lib: Library, os: Seq<char>) -> Option<LibraryArtifact> {
    if !library_allowed(lib, os) {
        None
    } else {
        native_classifier_spec(lib, os)
    }
}

/// The three classifier-search strategies, for an entry the rules allow.
pub open spec fn native_classifier_spec(lib: Library, os: Seq<char>) -> Option<LibraryArtifact> {
    let by_map: Option<LibraryArtifact> = match lib.natives {
        Some(n) => match assoc_find(n@, os) {
            Some(cl) => match lib.downloads {
                Some(d) => match d.classifiers {
                    Some(cs) => assoc_find(cs@, cl@),
                    None => None,
                },
                None => None,
            },
            None => None,
        },
        None => None,
    };
    let by_key: Option<LibraryArtifact> = match lib.downloads {
        Some(d) => match d.classifiers {
            Some(cs) => assoc_find(cs@, natives_key(os)),
            None => None,
        },
        None => None,
    };
    let by_name: Option<LibraryArtifact> = match lib.downloads {
        Some(d) => match d.artifact {
            Some(a) => if contains_seq(a.path@, natives_key(os)) || contains_seq(
                lib.name@,
                natives_key(os),
            ) {
                Some(a)
            } else {
                None
            },
            None => None,
        },
        None => None,
    };
    if by_map is Some {
        by_map
    } else if by_key is Some {
        by_key
    } else {
        by_name
    }
}

/// Finds the native artifact of `lib` for the operating system `os_name`;
/// an entry the rules deny there yields none.
pub fn native_artifact<'a>(lib: &'a Library, os_name: &str) -> (r: Option<&'a LibraryArtifact>)
    ensures
        match r {
            Some(a) => native_artifact_spec(*lib, os_name@) == Some(*a),
            None => native_artifact_spec(*lib, os_name@) is None,
        },
{
    if !is_library_allowed(lib, os_name) {
        return None;
    }
    let mut key = "natives-".to_owned();
    key.append(os_name);
    if let Some(natives) = &lib.natives {
        if let Some(cl) = assoc_get(natives, os_name) {
            if let Some(d) = &lib.downloads {
                if let Some(cs) = &d.classifiers {
                    if let Some(a) = assoc_get(cs, cl.as_str()) {
                        return Some(a);
                    }
                }
            }
        }
    }
    if let Some(d) = &lib.downloads {
        if let Some(cs) = &d.classifiers {
            if let Some(a) = assoc_get(cs, key.as_str()) {
                return Some(a);
            }
        }
    }
    if let Some(d) = &lib.downloads {
        if let Some(a) = &d.artifact {
            if contains_str(a.path.as_str(), key.as_str()) || contains_str(
                lib.name.as_str(),
                key.as_str(),
            ) {
                return Some(a);
            }
        }
    }
    None
}

/// The cache file name of a library's native archive: the coordinate with
/// `:` replaced by `_`, plus `.zip`.
pub open spec fn native_cache_name_spec(name: Seq<char>) -> Seq<char> {
    name.map(|i: int, c: char| if c == ':' { '_' } else { c }) + ".zip"@
}

/// Composes the cache file name of a library's native archive.
pub fn native_cache_name(name: &str) -> (r: String)
    ensures
        r@ == native_cache_name_spec(name@),
{
    proof {
        reveal_strlit("_");
    }
    let mut out = replace_char(name, ':', "_");
    out.append(".zip");
    out
}

/// Whether a natives directory needs repair: an existing, non-empty
/// directory is taken as already populated and left alone.
pub fn natives_need_repair(dir_exists: bool, dir_non_empty: bool) -> (r: bool)
    ensures
        r == !(dir_exists && dir_non_empty),
{
    !(dir_exists && dir_non_empty)
}

/// Whether a member name falls under one of the excluded prefixes.
pub open spec fn name_excluded(n: Seq<char>, excludes: Seq<String>) -> bool {
    exists|k: int| 0 <= k < excludes.len() && is_prefix_of(#[trigger] excludes[k]@, n)
}

/// Whether a member is extracted: directory members (name ending in `/`)
/// and excluded members are not.
pub open spec fn member_kept(n: Seq<char>, excludes: Seq<String>) -> bool {
    &&& !(n.len() > 0 && n[n.len() - 1] == '/')
    &&& !name_excluded(n, excludes)
}

/// A member name flattened to its file name: the part after the last `/`.
pub open spec fn flatten_name(n: Seq<char>) -> Seq<char> {
    n.subrange(last_index_of(n, '/') + 1, n.len() as int)
}

/// The files a native archive contributes: each kept member, flattened to
/// its file name, with its bytes, in archive order.
pub open spec fn native_extraction(entries: Seq<(Seq<char>, Seq<u8>)>, excludes: Seq<String>) -> Seq<
    (Seq<char>, Seq<u8>),
>
    decreases entries.len(),
{
    if entries.len() == 0 {
        Seq::empty()
    } else {
        let head: Seq<(Seq<char>, Seq<u8>)> = if member_kept(entries[0].0, excludes) {
            seq![(flatten_name(entries[0].0), entries[0].1)]
        } else {
            Seq::empty()
        };
        head + native_extraction(entries.drop_first(), excludes)
    }
}

fn any_prefix(excludes: &Vec<String>, name: &str) -> (r: bool)
    ensures
        r == name_excluded(name@, excludes@),
{
    let mut k: usize = 0;
    while k < excludes.len()
        invariant
            0 <= k <= excludes@.len(),
            forall|j: int| 0 <= j < k ==> !is_prefix_of(#[trigger] excludes@[j]@, name@),
        decreases excludes@.len() - k,
    {
        if starts_with_str(name, excludes[k].as_str()) {
            return true;
        }
        k += 1;
    }
    false
}

fn flatten_member_name(name: &str) -> (r: String)
    ensures
        r@ == flatten_name(name@),
{
    proof {
        lemma_last_index_of(name@, '/');
    }
    let len = name.unicode_len();
    match last_char_index(name, '/') {
        Some(li) => substr_copy(name, li + 1, len),
        None => {
            proof {
                assert(name@.subrange(0, name@.len() as int) =~= name@);
            }
            name.to_owned()
        },
    }
}

/// Filters and flattens the members of a native archive: every member not
/// under an excluded prefix and not a directory, flattened to its file
/// name, with its bytes, in archive order.
pub fn native_files_from_members(
    members: Vec<(String, Vec<u8>)>,
    excludes: &Vec<String>,
) -> (r: Vec<(String, Vec<u8>)>)
    ensures
        member_views(r@) == native_extraction(member_views(members@), excludes@),
{
    let ghost all = member_views(members@);
    let ghost full = native_extraction(all, excludes@);
    let mut remaining = members;
    let mut out: Vec<(String, Vec<u8>)> = Vec::new();
    proof {
        assert(member_views(out@) =~= Seq::<(Seq<char>, Seq<u8>)>::empty());
    }
    while remaining.len() > 0
        invariant
            full == native_extraction(all, excludes@),
            full == member_views(out@) + native_extraction(member_views(remaining@), excludes@),
        decreases remaining@.len(),
    {
        let ghost before = remaining@;
        let m = remaining.remove(0);
        proof {
            assert(member_views(before)[0] == (m.0@, m.1@));
            assert(member_views(remaining@) =~= member_views(before).drop_first());
        }
        let len = m.0.as_str().unicode_len();
        let is_dir = len > 0 && m.0.as_str().get_char(len - 1) == '/';
        if !is_dir && !any_prefix(excludes, m.0.as_str()) {
            let flat = flatten_member_name(m.0.as_str());
            let ghost kept = out@;
            out.push((flat, m.1));
            proof {
                assert(member_kept(member_views(before)[0].0, excludes@));
                assert(member_views(out@) =~= member_views(kept).push(
                    (flatten_name(member_views(before)[0].0), member_views(before)[0].1),
                ));
            }
        } else {
            proof {
                assert(!member_kept(member_views(before)[0].0, excludes@));
            }
        }
    }
    proof {
        assert(member_views(remaining@).len() == 0);
        assert(native_extraction(member_views(remaining@), excludes@) =~= Seq::<
            (Seq<char>, Seq<u8>),
        >::empty());
        assert(member_views(out@) =~= full);
    }
    out
}

/// Reads a native archive and yields the files to place in the natives
/// directory: every member not under an excluded prefix and not a
/// directory, flattened to its file name. The read succeeds exactly when
/// the bytes are a sound archive; a corrupt archive or member fails the
/// whole archive (the caller treats that as non-fatal for the remaining
/// libraries).
pub fn extract_native_entries(bytes: Vec<u8>, excludes: &Vec<String>) -> (r: Result<
    Vec<(String, Vec<u8>)>,
    LauncherError,
>)
    ensures
        r is Ok <==> zip_reads(bytes@),
        r matches Ok(v) ==> member_views(v@) == native_extraction(
            zip_entries_of(bytes@),
            excludes@,
        ),
        r matches Err(e) ==> e is ExtractionFailure,
{
    match zip_read_all(bytes) {
        Ok(members) => Ok(native_files_from_members(members, excludes)),
        Err(e) => Err(e),
    }
}

/// The member index of `entries` from which the `k`-th extracted file
/// stems.
pub open spec fn source_index(
    entries: Seq<(Seq<char>, Seq<u8>)>,
    excludes: Seq<String>,
    k: int,
) -> int
    decreases entries.len(),
{
    if entries.len() == 0 {
        0
    } else if member_kept(entries[0].0, excludes) {
        if k == 0 {
            0
        } else {
            1 + source_index(entries.drop_first(), excludes, k - 1)
        }
    } else {
        1 + source_index(entries.drop_first(), excludes, k)
    }
}

proof fn lemma_extraction_entry(entries: Seq<(Seq<char>, Seq<u8>)>, excludes: Seq<String>, k: int)
    requires
        0 <= k < native_extraction(entries, excludes).len(),
    ensures
        0 <= source_index(entries, excludes, k) < entries.len(),
        member_kept(entries[source_index(entries, excludes, k)].0, excludes),
        native_extraction(entries, excludes)[k] == (
            flatten_name(entries[source_index(entries, excludes, k)].0),
            entries[source_index(entries, excludes, k)].1,
        ),
    decreases entries.len(),
{
    let rest = entries.drop_first();
    if member_kept(entries[0].0, excludes) {
        if k == 0 {
        } else {
            lemma_extraction_entry(rest, excludes, k - 1);
            let si = source_index(rest, excludes, k - 1);
            assert(rest[si] == entries[si + 1]);
        }
    } else {
        assert(native_extraction(entries, excludes) =~= native_extraction(rest, excludes));
        lemma_extraction_entry(rest, excludes, k);
        let si = source_index(rest, excludes, k);
        assert(rest[si] == entries[si + 1]);
    }
}

/// What native extraction guarantees: every extracted file stems from a
/// member that no excluded prefix covers and that is not a directory entry,
/// and its name is that member's flattened file name, which holds no `/`.
pub proof fn lemma_native_extraction_safe(entries: Seq<(Seq<char>, Seq<u8>)>, excludes: Seq<String>)
    ensures
        forall|k: int|
            0 <= k < native_extraction(entries, excludes).len() ==> {
                &&& 0 <= #[trigger] source_index(entries, excludes, k) < entries.len()
                &&& member_kept(entries[source_index(entries, excludes, k)].0, excludes)
                &&& native_extraction(entries, excludes)[k] == (
                    flatten_name(entries[source_index(entries, excludes, k)].0),
                    entries[source_index(entries, excludes, k)].1,
                )
            },
        forall|k: int, p: int|
            0 <= k < native_extraction(entries, excludes).len() && 0 <= p < native_extraction(
                entries,
                excludes,
            )[k].0.len() ==> #[trigger] native_extraction(entries, excludes)[k].0[p] != '/',
{
    assert forall|k: int| 0 <= k < native_extraction(entries, excludes).len() implies {
        &&& 0 <= #[trigger] source_index(entries, excludes, k) < entries.len()
        &&& member_kept(entries[source_index(entries, excludes, k)].0, excludes)
        &&& native_extraction(entries, excludes)[k] == (
            flatten_name(entries[source_index(entries, excludes, k)].0),
            entries[source_index(entries, excludes, k)].1,
        )
    } by {
        lemma_extraction_entry(entries, excludes, k);
    }
    assert forall|k: int, p: int|
        0 <= k < native_extraction(entries, excludes).len() && 0 <= p < native_extraction(
            entries,
            excludes,
        )[k].0.len() implies #[trigger] native_extraction(entries, excludes)[k].0[p] != '/' by {
        lemma_extraction_entry(entries, excludes, k);
        let n = entries[source_index(entries, excludes, k)].0;
        lemma_last_index_of(n, '/');
        let li = last_index_of(n, '/');
        assert(native_extraction(entries, excludes)[k].0 == flatten_name(n));
        assert(flatten_name(n)[p] == n[li + 1 + p]);
    }
}

} // verus!
