//! Trusted access to zip archives held in memory.
//!
//! Two names describe a byte string as an archive: `zip_reads` — it parses
//! and every member decompresses cleanly — and `zip_entries_of` — the
//! `(member name, member bytes)` pairs it holds, in directory order. Both
//! are functions of the bytes alone. The one wrapper below is the only code
//! that touches the `zip` crate: it turns archive bytes into those plain
//! pairs, succeeding exactly when the bytes read as a sound archive.
//! Everything that decides which members to keep and where they land is
//! verified on top of it.

use vstd::prelude::*;
use crate::errors::LauncherError;

verus! {

/// The views of `(member name, member bytes)` pairs.
pub open spec fn member_views(l: Seq<(String, Vec<u8>)>) -> Seq<(Seq<char>, Seq<u8>)> {
    l.map_values(|p: (String, Vec<u8>)| (p.0@, p.1@))
}

/// Whether the byte string reads as a sound zip archive: it parses and
/// every member decompresses cleanly.
pub uninterp spec fn zip_reads(b: Seq<u8>) -> bool;

/// The members that the byte string `b` holds as a zip archive.
pub uninterp spec fn zip_entries_of(b: Seq<u8>) -> Seq<(Seq<char>, Seq<u8>)>;

/// Relies on `zip::ZipArchive::new`, `len` and `by_index` (with
/// `Read::read_to_end` copying each borrowed member out): parsing and
/// decompressing an in-memory archive is a function of its bytes alone, so
/// the read succeeds exactly when the bytes are a sound archive, and then
/// yields its members in directory order. The body only makes those calls
/// and converts each member to plain values.
#[verifier::external_body]
pub(crate) fn zip_read_all(bytes: Vec<u8>) -> (r: Result<Vec<(String, Vec<u8>)>, LauncherError>)
    ensures
        r is Ok <==> zip_reads(bytes@),
        r matches Ok(v) ==> member_views(v@) == zip_entries_of(bytes@),
        r matches Err(e) ==> e is ExtractionFailure,
{
    let cursor = std::io::Cursor::new(bytes);
    let mut archive = zip::read::ZipArchive::new(cursor)
        .map_err(|_| LauncherError::ExtractionFailure)?;
    let mut out: Vec<(String, Vec<u8>)> = Vec::new();
    for i in 0..archive.len() {
        let mut member = archive.by_index(i).map_err(|_| LauncherError::ExtractionFailure)?;
        let name = member.name().to_string();
        let mut data = Vec::new();
        std::io::Read::read_to_end(&mut member, &mut data)
            .map_err(|_| LauncherError::ExtractionFailure)?;
        out.push((name, data));
    }
    Ok(out)
}

} // verus!
