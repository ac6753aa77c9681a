//! The asset provisioner's planning logic: given a parsed asset index and
//! what the cache already holds, decide which content-addressed objects to
//! download — each unique hash at most once, however many logical names
//! share it — and which flat "virtual" copies to materialize. The plan is
//! presence-based, so a fully populated cache plans no work at all.

use vstd::prelude::*;
use vstd::string::*;
use crate::models::{AssetIndexFile, AssetObject};
use crate::strutil::{in_list, list_contains, substr_copy, views};

verus! {

/// The hashes to download, in first-appearance order: a hash is planned
/// when no object file for it is present and it is not already planned.
pub open spec fn download_hashes(
    objects: Seq<(String, AssetObject)>,
    present: Seq<String>,
    planned: Seq<Seq<char>>,
) -> Seq<Seq<char>>
    decreases objects.len(),
{
    if objects.len() == 0 {
        Seq::empty()
    } else {
        let h = objects[0].1.hash@;
        if !in_list(present, h) && !planned.contains(h) {
            seq![h] + download_hashes(objects.drop_first(), present, planned.push(h))
        } else {
            download_hashes(objects.drop_first(), present, planned)
        }
    }
}

/// The `(logical name, hash)` copies a virtual layout still needs, in index
/// order.
pub open spec fn virtual_copies(
    objects: Seq<(String, AssetObject)>,
    present_virtual: Seq<String>,
) -> Seq<(Seq<char>, Seq<char>)>
    decreases objects.len(),
{
    if objects.len() == 0 {
        Seq::empty()
    } else {
        let head: Seq<(Seq<char>, Seq<char>)> = if !in_list(present_virtual, objects[0].0@) {
            seq![(objects[0].0@, objects[0].1.hash@)]
        } else {
            Seq::empty()
        };
        head + virtual_copies(objects.drop_first(), present_virtual)
    }
}

/// The work one provisioning pass performs: object downloads by hash, and
/// virtual-layout copies by `(name, hash)`.
pub struct AssetPlan {
    pub downloads: Vec<String>,
    pub virtual_copies: Vec<(String, String)>,
}

/// The views of `(name, hash)` pairs.
pub open spec fn pair_views(l: Seq<(String, String)>) -> Seq<(Seq<char>, Seq<char>)> {
    l.map_values(|p: (String, String)| (p.0@, p.1@))
}

/// Plans one provisioning pass. `present_hashes` are the hashes whose
/// content-addressed object files exist; `present_virtual` the logical
/// names whose flat copies exist. Only missing objects are downloaded, one
/// download per unique hash; virtual copies are planned only for a virtual
/// index.
pub fn plan_assets(
    index: &AssetIndexFile,
    present_hashes: &Vec<String>,
    present_virtual: &Vec<String>,
) -> (r: AssetPlan)
    ensures
        views(r.downloads@) == download_hashes(index.objects@, present_hashes@, Seq::empty()),
        index.is_virtual ==> pair_views(r.virtual_copies@) == virtual_copies(
            index.objects@,
            present_virtual@,
        ),
        !index.is_virtual ==> r.virtual_copies@.len() == 0,
{
    let ghost full = download_hashes(index.objects@, present_hashes@, Seq::empty());
    let mut downloads: Vec<String> = Vec::new();
    let mut i: usize = 0;
    proof {
        assert(index.objects@.skip(0) =~= index.objects@);
        assert(views(downloads@) =~= Seq::<Seq<char>>::empty());
    }
    while i < index.objects.len()
        invariant
            0 <= i <= index.objects@.len(),
            full == download_hashes(index.objects@, present_hashes@, Seq::empty()),
            full == views(downloads@) + download_hashes(
                index.objects@.skip(i as int),
                present_hashes@,
                views(downloads@),
            ),
        decreases index.objects@.len() - i,
    {
        proof {
            assert(index.objects@.skip(i as int)[0] == index.objects@[i as int]);
            assert(index.objects@.skip(i as int).drop_first() =~= index.objects@.skip(i + 1));
        }
        let hash = &index.objects[i].1.hash;
        if !list_contains(present_hashes, hash.as_str()) && !list_contains(
            &downloads,
            hash.as_str(),
        ) {
            proof {
                if views(downloads@).contains(hash@) {
                    let w = choose|w: int|
                        0 <= w < downloads@.len() && views(downloads@)[w] == hash@;
                    assert(downloads@[w]@ == hash@);
                }
            }
            let ghost before = downloads@;
            downloads.push(hash.clone());
            proof {
                assert(views(downloads@) =~= views(before).push(hash@));
            }
        } else {
            proof {
                if in_list(downloads@, hash@) {
                    let w = choose|w: int| 0 <= w < downloads@.len() && downloads@[w]@ == hash@;
                    assert(views(downloads@)[w] == hash@);
                }
            }
        }
        i += 1;
    }
    proof {
        assert(index.objects@.skip(index.objects@.len() as int).len() == 0);
        assert(views(downloads@) =~= full);
    }
    let mut virt: Vec<(String, String)> = Vec::new();
    if index.is_virtual {
        let ghost vfull = virtual_copies(index.objects@, present_virtual@);
        let mut j: usize = 0;
        proof {
            assert(index.objects@.skip(0) =~= index.objects@);
            assert(pair_views(virt@) =~= Seq::<(Seq<char>, Seq<char>)>::empty());
        }
        while j < index.objects.len()
            invariant
                0 <= j <= index.objects@.len(),
                vfull == virtual_copies(index.objects@, present_virtual@),
                vfull == pair_views(virt@) + virtual_copies(
                    index.objects@.skip(j as int),
                    present_virtual@,
                ),
            decreases index.objects@.len() - j,
        {
            proof {
                assert(index.objects@.skip(j as int)[0] == index.objects@[j as int]);
                assert(index.objects@.skip(j as int).drop_first() =~= index.objects@.skip(j + 1));
            }
            let name = &index.objects[j].0;
            if !list_contains(present_virtual, name.as_str()) {
                let ghost before = virt@;
                virt.push((name.clone(), index.objects[j].1.hash.clone()));
                proof {
                    assert(pair_views(virt@) =~= pair_views(before).push(
                        (name@, index.objects@[j as int].1.hash@),
                    ));
                }
            }
            j += 1;
        }
        proof {
            assert(index.objects@.skip(index.objects@.len() as int).len() == 0);
            assert(pair_views(virt@) =~= vfull);
        }
    }
    AssetPlan { downloads, virtual_copies: virt }
}

/// The content-addressed store path of an object:
/// `objects/<first two hash characters>/<hash>`, derived from the hash
/// alone, never from a logical name.
pub fn asset_object_path(hash: &str) -> (r: String)
    requires
        hash@.len() >= 2,
    ensures
        r@ == "objects/"@ + hash@.subrange(0, 2) + "/"@ + hash@,
{
    let mut out = "objects/".to_owned();
    let prefix = substr_copy(hash, 0, 2);
    out.append(prefix.as_str());
    out.append("/");
    out.append(hash);
    out
}

/// The download URL of a content-addressed object.
pub fn asset_object_url(base_url: &str, hash: &str) -> (r: String)
    requires
        hash@.len() >= 2,
    ensures
        r@ == base_url@ + "/"@ + hash@.subrange(0, 2) + "/"@ + hash@,
{
    let mut out = base_url.to_owned();
    out.append("/");
    let prefix = substr_copy(hash, 0, 2);
    out.append(prefix.as_str());
    out.append("/");
    out.append(hash);
    out
}

/// The flat virtual-layout path of a logical asset name.
pub fn virtual_asset_path(name: &str) -> (r: String)
    ensures
        r@ == "virtual/legacy/"@ + name@,
{
    let mut out = "virtual/legacy/".to_owned();
    out.append(name);
    out
}

/// Whether progress is reported after `completed` of `total` operations:
/// every fiftieth completion, and at the end.
pub fn should_report(completed: usize, total: usize) -> (r: bool)
    ensures
        r == (completed == total || completed % 50 == 0),
{
    completed == total || completed % 50 == 0
}

proof fn lemma_download_hashes_all_present(
    objects: Seq<(String, AssetObject)>,
    present: Seq<String>,
    planned: Seq<Seq<char>>,
)
    requires
        forall|i: int| 0 <= i < objects.len() ==> in_list(present, #[trigger] objects[i].1.hash@),
    ensures
        download_hashes(objects, present, planned) == Seq::<Seq<char>>::empty(),
    decreases objects.len(),
{
    if objects.len() > 0 {
        assert(in_list(present, objects[0].1.hash@));
        assert(forall|i: int|
            0 <= i < objects.drop_first().len() ==> in_list(
                present,
                #[trigger] objects.drop_first()[i].1.hash@,
            ));
        lemma_download_hashes_all_present(objects.drop_first(), present, planned);
    }
}

proof fn lemma_virtual_copies_all_present(
    objects: Seq<(String, AssetObject)>,
    present_virtual: Seq<String>,
)
    requires
        forall|i: int| 0 <= i < objects.len() ==> in_list(present_virtual, #[trigger] objects[i].0@),
    ensures
        virtual_copies(objects, present_virtual) == Seq::<(Seq<char>, Seq<char>)>::empty(),
    decreases objects.len(),
{
    if objects.len() > 0 {
        assert(forall|i: int|
            0 <= i < objects.drop_first().len() ==> in_list(
                present_virtual,
                #[trigger] objects.drop_first()[i].0@,
            ));
        lemma_virtual_copies_all_present(objects.drop_first(), present_virtual);
        assert(virtual_copies(objects, present_virtual) =~= virtual_copies(
            objects.drop_first(),
            present_virtual,
        ));
    }
}

/// Provisioning is idempotent: against a fully populated cache — every
/// object's hash present in the store and, for a virtual index, every
/// logical name present in the flat layout — a pass plans no download and
/// no copy, so a second run performs no network request.
pub proof fn lemma_provisioning_idempotent(
    index: AssetIndexFile,
    present_hashes: Seq<String>,
    present_virtual: Seq<String>,
)
    requires
        forall|i: int|
            0 <= i < index.objects@.len() ==> in_list(
                present_hashes,
                #[trigger] index.objects@[i].1.hash@,
            ),
        index.is_virtual ==> forall|i: int|
            0 <= i < index.objects@.len() ==> in_list(
                present_virtual,
                #[trigger] index.objects@[i].0@,
            ),
    ensures
        download_hashes(index.objects@, present_hashes, Seq::empty()) == Seq::<Seq<char>>::empty(),
        index.is_virtual ==> virtual_copies(index.objects@, present_virtual) == Seq::<
            (Seq<char>, Seq<char>),
        >::empty(),
{
    lemma_download_hashes_all_present(index.objects@, present_hashes, Seq::empty());
    if index.is_virtual {
        lemma_virtual_copies_all_present(index.objects@, present_virtual);
    }
}

/// Planned downloads are unique by hash: one fetch per unique hash, however
/// many logical names reference it.
pub proof fn lemma_downloads_unique(
    objects: Seq<(String, AssetObject)>,
    present: Seq<String>,
    planned: Seq<Seq<char>>,
)
    ensures
        forall|k: int|
            0 <= k < download_hashes(objects, present, planned).len() ==> !planned.contains(
                #[trigger] download_hashes(objects, present, planned)[k],
            ),
        forall|k1: int, k2: int|
            0 <= k1 < k2 < download_hashes(objects, present, planned).len()
                ==> #[trigger] download_hashes(objects, present, planned)[k1]
                != #[trigger] download_hashes(objects, present, planned)[k2],
    decreases objects.len(),
{
    if objects.len() > 0 {
        let r = download_hashes(objects, present, planned);
        let h = objects[0].1.hash@;
        if !in_list(present, h) && !planned.contains(h) {
            let tail = download_hashes(objects.drop_first(), present, planned.push(h));
            lemma_downloads_unique(objects.drop_first(), present, planned.push(h));
            assert(planned.push(h).contains(h)) by {
                assert(planned.push(h)[planned.len() as int] == h);
            }
            assert forall|k: int| 0 <= k < r.len() implies !planned.contains(#[trigger] r[k]) by {
                if k > 0 {
                    assert(r[k] == tail[k - 1]);
                    assert(!planned.push(h).contains(tail[k - 1]));
                    if planned.contains(tail[k - 1]) {
                        let w = choose|w: int| 0 <= w < planned.len() && planned[w] == tail[k - 1];
                        assert(planned.push(h)[w] == tail[k - 1]);
                    }
                } else {
                    assert(r[0] == h);
                }
            }
            assert forall|k1: int, k2: int| 0 <= k1 < k2 < r.len() implies #[trigger] r[k1]
                != #[trigger] r[k2] by {
                if k1 == 0 {
                    assert(r[k2] == tail[k2 - 1]);
                    assert(!planned.push(h).contains(tail[k2 - 1]));
                } else {
                    assert(r[k1] == tail[k1 - 1] && r[k2] == tail[k2 - 1]);
                }
            }
        } else {
            lemma_downloads_unique(objects.drop_first(), present, planned);
            assert(r =~= download_hashes(objects.drop_first(), present, planned));
        }
    }
}

} // verus!
