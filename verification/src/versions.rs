//! Version-string arithmetic: parsing dotted identifiers, ordering them,
//! minimum-version gates, and the Java-major-version heuristic.

use core::cmp::Ordering;
use vstd::prelude::*;
use crate::strutil::{
    component_value, contains_seq, find_from, last_index_of, contains_str, find_char,
    last_char_index, lemma_find_from, lemma_last_index_of, parse_component,
};

verus! {

/// The `(major, minor, patch)` triple denoted by a dotted version string.
/// A missing or unparsable component counts as 0; text after the third dot
/// is ignored.
pub open spec fn parse_version_spec(s: Seq<char>) -> (int, int, int) {
    let n = s.len() as int;
    let i1 = find_from(s, '.', 0);
    if i1 == n {
        (component_value(s.subrange(0, i1)), 0, 0)
    } else {
        let i2 = find_from(s, '.', i1 + 1);
        if i2 == n {
            (component_value(s.subrange(0, i1)), component_value(s.subrange(i1 + 1, i2)), 0)
        } else {
            let i3 = find_from(s, '.', i2 + 1);
            (
                component_value(s.subrange(0, i1)),
                component_value(s.subrange(i1 + 1, i2)),
                component_value(s.subrange(i2 + 1, i3)),
            )
        }
    }
}

/// Splits `s` into its `(major, minor, patch)` components.
pub fn parse_version(s: &str) -> (r: (i32, i32, i32))
    ensures
        (r.0 as int, r.1 as int, r.2 as int) == parse_version_spec(s@),
        r.0 >= 0 && r.1 >= 0 && r.2 >= 0,
{
    proof {
        lemma_find_from(s@, '.', 0);
    }
    let len = s.unicode_len();
    let i1 = find_char(s, '.', 0);
    let v0 = parse_component(s.substring_char(0, i1));
    if i1 == len {
        return (v0, 0, 0);
    }
    proof {
        lemma_find_from(s@, '.', i1 + 1);
    }
    let i2 = find_char(s, '.', i1 + 1);
    let v1 = parse_component(s.substring_char(i1 + 1, i2));
    if i2 == len {
        return (v0, v1, 0);
    }
    proof {
        lemma_find_from(s@, '.', i2 + 1);
    }
    let i3 = find_char(s, '.', i2 + 1);
    let v2 = parse_component(s.substring_char(i2 + 1, i3));
    (v0, v1, v2)
}

/// Lexicographic order of two dotted version strings by their parsed
/// `(major, minor, patch)` triples.
pub open spec fn version_order(a: Seq<char>, b: Seq<char>) -> Ordering {
    let pa = parse_version_spec(a);
    let pb = parse_version_spec(b);
    if pa.0 != pb.0 {
        if pa.0 < pb.0 {
            Ordering::Less
        } else {
            Ordering::Greater
        }
    } else if pa.1 != pb.1 {
        if pa.1 < pb.1 {
            Ordering::Less
        } else {
            Ordering::Greater
        }
    } else if pa.2 != pb.2 {
        if pa.2 < pb.2 {
            Ordering::Less
        } else {
            Ordering::Greater
        }
    } else {
        Ordering::Equal
    }
}

/// Orders two dotted version strings.
pub fn compare_versions(a: &str, b: &str) -> (r: Ordering)
    ensures
        r == version_order(a@, b@),
{
    let pa = parse_version(a);
    let pb = parse_version(b);
    if pa.0 != pb.0 {
        if pa.0 < pb.0 {
            Ordering::Less
        } else {
            Ordering::Greater
        }
    } else if pa.1 != pb.1 {
        if pa.1 < pb.1 {
            Ordering::Less
        } else {
            Ordering::Greater
        }
    } else if pa.2 != pb.2 {
        if pa.2 < pb.2 {
            Ordering::Less
        } else {
            Ordering::Greater
        }
    } else {
        Ordering::Equal
    }
}

/// The part of `s` after its last `-`, or all of `s` when it has none.
/// Mod-loader profiles name themselves `<loader>-<loader-version>-<game
/// version>`; this recovers the game version.
pub open spec fn stripped_version(s: Seq<char>) -> Seq<char> {
    let li = last_index_of(s, '-');
    if li >= 0 {
        s.subrange(li + 1, s.len() as int)
    } else {
        s
    }
}

fn strip_loader_prefix<'a>(s: &'a str) -> (r: &'a str)
    ensures
        r@ == stripped_version(s@),
{
    proof {
        lemma_last_index_of(s@, '-');
    }
    let len = s.unicode_len();
    match last_char_index(s, '-') {
        Some(i) => s.substring_char(i + 1, len),
        None => s,
    }
}

/// Whether `v` names a version at least 1.8; a version that mentions a
/// loader is judged by the game version after its last `-`.
pub open spec fn at_least_1_8(v: Seq<char>) -> bool {
    let s = if contains_seq(v, "fabric"@) {
        stripped_version(v)
    } else {
        v
    };
    let p = parse_version_spec(s);
    p.0 > 1 || (p.0 == 1 && p.1 >= 8)
}

/// Whether the version supports launching (1.8 and newer do).
pub fn is_at_least_1_8(v: &str) -> (r: bool)
    ensures
        r == at_least_1_8(v@),
{
    let version_str: &str = if contains_str(v, "fabric") {
        strip_loader_prefix(v)
    } else {
        v
    };
    let p = parse_version(version_str);
    p.0 > 1 || (p.0 == 1 && p.1 >= 8)
}

/// Whether `v` names a version at least 1.14.
pub open spec fn at_least_1_14(v: Seq<char>) -> bool {
    let p = parse_version_spec(v);
    p.0 > 1 || (p.0 == 1 && p.1 >= 14)
}

/// Whether the version supports the mod loader (1.14 and newer do).
pub fn is_at_least_1_14(v: &str) -> (r: bool)
    ensures
        r == at_least_1_14(v@),
{
    let p = parse_version(v);
    p.0 > 1 || (p.0 == 1 && p.1 >= 14)
}

/// The Java major version the heuristic assigns to a version identifier:
/// judged on the `(minor, patch)` of the identifier's game-version part.
pub open spec fn heuristic_java_major(id: Seq<char>) -> int {
    let p = parse_version_spec(stripped_version(id));
    if p.1 >= 21 {
        21
    } else if p.1 == 20 && p.2 >= 5 {
        21
    } else if p.1 >= 18 {
        17
    } else if p.1 == 17 {
        16
    } else {
        8
    }
}

/// The Java major version required: an explicit requirement from the
/// resolved descriptor chain always wins; without one, the heuristic over
/// the version identifier decides.
pub open spec fn required_java_spec(explicit: Option<u32>, id: Seq<char>) -> int {
    match explicit {
        Some(m) => m as int,
        None => heuristic_java_major(id),
    }
}

/// The Java major version `version_id` requires, given the explicit
/// requirement of its resolved descriptor chain if any.
pub fn get_required_java_version(explicit: Option<u32>, version_id: &str) -> (r: u32)
    ensures
        r as int == required_java_spec(explicit, version_id@),
{
    match explicit {
        Some(m) => m,
        None => {
            let p = parse_version(strip_loader_prefix(version_id));
            if p.1 >= 21 {
                21
            } else if p.1 == 20 && p.2 >= 5 {
                21
            } else if p.1 >= 18 {
                17
            } else if p.1 == 17 {
                16
            } else {
                8
            }
        },
    }
}

} // verus!
