//! The region model: a tree of nameable download targets, traversed
//! depth-first to derive one URL per leaf, joining each node's path segment
//! onto the accumulated base. One malformed URL is recorded as a per-entry
//! failure and never blocks the siblings.

use vstd::prelude::*;

use crate::errors::ResolveError;
use crate::text::{join_segment, join_url};
use crate::urls::{url_ok, url_parses};

verus! {

/// A labeled node of the region tree: an interior node contributes a path
/// segment and carries children, a leaf contributes the file segment that
/// becomes both the entry's name and the last part of its URL.
#[derive(Debug)]
pub enum Region {
    Node { name: String, path: String, regions: Vec<Region> },
    Leaf { name: String, file: String },
}

/// One outcome of the traversal, at specification level: a resolved
/// `(name, url)` pair, or the malformed URL that failed to parse.
pub enum UrlOutcome {
    Resolved { name: Seq<char>, url: Seq<char> },
    Malformed { url: Seq<char> },
}

/// The entries one region contributes, in declaration order: a leaf yields
/// exactly one entry; a node whose joined base is malformed yields one
/// failure entry and its subtree is skipped.
pub open spec fn collect_region(r: Region, base: Seq<char>) -> Seq<UrlOutcome>
    decreases r,
{
    match r {
        Region::Node { name: _, path, regions } => {
            let joined = join_segment(base, path@);
            if url_ok(joined) {
                collect_regions(regions@, joined)
            } else {
                seq![UrlOutcome::Malformed { url: joined }]
            }
        },
        Region::Leaf { name: _, file } => {
            let joined = join_segment(base, file@);
            if url_ok(joined) {
                seq![UrlOutcome::Resolved { name: file@, url: joined }]
            } else {
                seq![UrlOutcome::Malformed { url: joined }]
            }
        },
    }
}

/// The entries of a forest of regions: each subtree's entries in full,
/// before any entry of the next sibling.
pub open spec fn collect_regions(rs: Seq<Region>, base: Seq<char>) -> Seq<UrlOutcome>
    decreases rs,
{
    if rs.len() == 0 {
        Seq::empty()
    } else {
        collect_region(rs[0], base) + collect_regions(rs.drop_first(), base)
    }
}

/// How an executable entry realizes a specification-level outcome.
pub open spec fn entry_matches(
    e: Result<(String, String), ResolveError>,
    g: UrlOutcome,
) -> bool {
    match g {
        UrlOutcome::Resolved { name, url } => e matches Ok(p) && p.0@ == name && p.1@ == url,
        UrlOutcome::Malformed { url } => e matches Err(ResolveError::ParseUrl { url: u })
            && u@ == url,
    }
}

fn collect_one(
    region: &Region,
    base: &str,
    out: &mut Vec<Result<(String, String), ResolveError>>,
)
    ensures
        final(out)@.len() == old(out)@.len() + collect_region(*region, base@).len(),
        forall|i: int| 0 <= i < old(out)@.len() ==> final(out)@[i] == old(out)@[i],
        forall|i: int|
            0 <= i < collect_region(*region, base@).len() ==> entry_matches(
                #[trigger] final(out)@[old(out)@.len() + i],
                collect_region(*region, base@)[i],
            ),
    decreases region,
{
    match region {
        Region::Node { name: _, path, regions } => {
            let joined = join_url(base, path.as_str());
            if url_parses(joined.as_str()) {
                collect_many(regions, joined.as_str(), out);
            } else {
                out.push(Err(ResolveError::ParseUrl { url: joined }));
            }
        },
        Region::Leaf { name: _, file } => {
            let joined = join_url(base, file.as_str());
            if url_parses(joined.as_str()) {
                let name = file.clone();
                out.push(Ok((name, joined)));
            } else {
                out.push(Err(ResolveError::ParseUrl { url: joined }));
            }
        },
    }
}

fn collect_many(
    regions: &Vec<Region>,
    base: &str,
    out: &mut Vec<Result<(String, String), ResolveError>>,
)
    ensures
        final(out)@.len() == old(out)@.len() + collect_regions(regions@, base@).len(),
        forall|i: int| 0 <= i < old(out)@.len() ==> final(out)@[i] == old(out)@[i],
        forall|i: int|
            0 <= i < collect_regions(regions@, base@).len() ==> entry_matches(
                #[trigger] final(out)@[old(out)@.len() + i],
                collect_regions(regions@, base@)[i],
            ),
    decreases regions,
{
    let n = regions.len();
    let mut k: usize = 0;
    while k < n
        invariant
            k <= n,
            n == regions@.len(),
            out@.len() == old(out)@.len() + collect_regions(regions@.take(k as int), base@).len(),
            forall|i: int| 0 <= i < old(out)@.len() ==> out@[i] == old(out)@[i],
            forall|i: int|
                0 <= i < collect_regions(regions@.take(k as int), base@).len() ==> entry_matches(
                    #[trigger] out@[old(out)@.len() + i],
                    collect_regions(regions@.take(k as int), base@)[i],
                ),
        decreases n - k,
    {
        let ghost pre_len = out@.len();
        collect_one(&regions[k], base, out);
        proof {
            let r = regions@[k as int];
            let single = seq![r];
            let done = collect_regions(regions@.take(k as int), base@);
            lemma_collect_regions_append(regions@.take(k as int), single, base@);
            assert(regions@.take(k as int) + single =~= regions@.take(k as int + 1));
            assert(single.drop_first() =~= Seq::<Region>::empty());
            assert(collect_regions(single.drop_first(), base@) =~= Seq::<UrlOutcome>::empty());
            assert(single[0] == r);
            assert(collect_regions(single, base@) =~= collect_region(r, base@));
            assert(collect_regions(regions@.take(k as int + 1), base@) == done + collect_region(
                r,
                base@,
            ));
            assert forall|i: int|
                0 <= i < collect_regions(regions@.take(k as int + 1), base@).len() implies
                entry_matches(
                    #[trigger] out@[old(out)@.len() + i],
                    collect_regions(regions@.take(k as int + 1), base@)[i],
                ) by {
                if i < done.len() {
                    assert(entry_matches(out@[old(out)@.len() + i], done[i]));
                } else {
                    let j = i - done.len();
                    assert(entry_matches(out@[pre_len + j], collect_region(r, base@)[j]));
                }
            };
        }
        k = k + 1;
    }
    proof {
        assert(regions@.take(n as int) =~= regions@);
    }
}

/// Derives the ordered download list of a region forest against a base
/// URL: one entry per outcome of the depth-first traversal, successes and
/// per-entry failures alike, never an all-or-nothing failure.
pub fn create_download_list(regions: &Vec<Region>, base: &str) -> (r: Vec<
    Result<(String, String), ResolveError>,
>)
    ensures
        r@.len() == collect_regions(regions@, base@).len(),
        forall|i: int|
            0 <= i < r@.len() ==> entry_matches(
                #[trigger] r@[i],
                collect_regions(regions@, base@)[i],
            ),
{
    let mut out: Vec<Result<(String, String), ResolveError>> = Vec::new();
    collect_many(regions, base, &mut out);
    proof {
        assert forall|i: int| 0 <= i < out@.len() implies entry_matches(
            #[trigger] out@[i],
            collect_regions(regions@, base@)[i],
        ) by {
            assert(entry_matches(out@[0 + i], collect_regions(regions@, base@)[i]));
        };
    }
    out
}

/// Law: the traversal preserves declared sibling and subtree order — the
/// entries of a forest split as all entries of the first trees followed by
/// all entries of the rest, so no entry of a later sibling ever precedes
/// one of an earlier sibling.
pub proof fn lemma_collect_regions_append(rs1: Seq<Region>, rs2: Seq<Region>, base: Seq<char>)
    ensures
        collect_regions(rs1 + rs2, base) == collect_regions(rs1, base) + collect_regions(
            rs2,
            base,
        ),
    decreases rs1.len(),
{
    if rs1.len() == 0 {
        assert(rs1 + rs2 =~= rs2);
        assert(collect_regions(rs1, base) =~= Seq::<UrlOutcome>::empty());
        assert(collect_regions(rs1, base) + collect_regions(rs2, base) =~= collect_regions(
            rs2,
            base,
        ));
    } else {
        assert((rs1 + rs2).len() > 0);
        assert((rs1 + rs2)[0] == rs1[0]);
        assert((rs1 + rs2).drop_first() =~= rs1.drop_first() + rs2);
        lemma_collect_regions_append(rs1.drop_first(), rs2, base);
        assert(collect_regions(rs1 + rs2, base) =~= collect_regions(rs1, base)
            + collect_regions(rs2, base));
    }
}

/// Whether every URL joined during the traversal of one region parses.
pub open spec fn region_joins_ok(r: Region, base: Seq<char>) -> bool
    decreases r,
{
    match r {
        Region::Node { name: _, path, regions } => {
            let joined = join_segment(base, path@);
            url_ok(joined) && forest_joins_ok(regions@, joined)
        },
        Region::Leaf { name: _, file } => url_ok(join_segment(base, file@)),
    }
}

/// Whether every URL joined during the traversal of a forest parses.
pub open spec fn forest_joins_ok(rs: Seq<Region>, base: Seq<char>) -> bool
    decreases rs,
{
    if rs.len() == 0 {
        true
    } else {
        region_joins_ok(rs[0], base) && forest_joins_ok(rs.drop_first(), base)
    }
}

/// The number of leaves of one region's subtree.
pub open spec fn region_leaf_count(r: Region) -> nat
    decreases r,
{
    match r {
        Region::Node { name: _, path: _, regions } => forest_leaf_count(regions@),
        Region::Leaf { .. } => 1,
    }
}

/// The number of leaves of a forest.
pub open spec fn forest_leaf_count(rs: Seq<Region>) -> nat
    decreases rs,
{
    if rs.len() == 0 {
        0
    } else {
        region_leaf_count(rs[0]) + forest_leaf_count(rs.drop_first())
    }
}

proof fn lemma_region_one_entry_per_leaf(r: Region, base: Seq<char>)
    requires
        region_joins_ok(r, base),
    ensures
        collect_region(r, base).len() == region_leaf_count(r),
        forall|i: int|
            0 <= i < collect_region(r, base).len() ==> collect_region(r, base)[i] is Resolved,
    decreases r,
{
    match r {
        Region::Node { name: _, path, regions } => {
            lemma_forest_one_entry_per_leaf(regions@, join_segment(base, path@));
        },
        Region::Leaf { .. } => {
        },
    }
}

/// Law: when every join of the traversal parses, every leaf yields exactly
/// one resolved `(name, url)` entry — the entry count equals the leaf
/// count, and no entry is a failure.
pub proof fn lemma_forest_one_entry_per_leaf(rs: Seq<Region>, base: Seq<char>)
    requires
        forest_joins_ok(rs, base),
    ensures
        collect_regions(rs, base).len() == forest_leaf_count(rs),
        forall|i: int|
            0 <= i < collect_regions(rs, base).len() ==> collect_regions(rs, base)[i]
                is Resolved,
    decreases rs,
{
    if rs.len() == 0 {
    } else {
        lemma_region_one_entry_per_leaf(rs[0], base);
        lemma_forest_one_entry_per_leaf(rs.drop_first(), base);
    }
}

} // verus!
