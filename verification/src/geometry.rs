//! The clean-up of a raw map's roads before road geometry is worked out.
use vstd::prelude::*;

use crate::lane_specs::MapConfig;
use crate::tags::Tags;

verus! {

/// A road as OpenStreetMap gives it: a way, cut between two intersection nodes.
#[derive(Clone, Copy, Debug, PartialEq, Eq, Structural)]
pub struct OriginalRoad {
    pub osm_way_id: i64,
    pub i1: i64,
    pub i2: i64,
}

/// What a raw map knows of a road that the clean-up reads.
pub struct RawRoad {
    pub osm_tags: Tags,
}

/// A map as imported, before roads and intersections get their geometry.
pub struct RawMap {
    pub roads: Vec<(OriginalRoad, RawRoad)>,
    pub config: MapConfig,
}

/// A road stays when it joins two different intersections and its center line
/// is a valid polyline.
pub open spec fn keeps_road(id: OriginalRoad, valid_center_line: bool) -> bool {
    id.i1 != id.i2 && valid_center_line
}

/// The roads that stay, in their order; `valid[i]` tells whether the center line
/// of the `i`-th road is a valid polyline.
pub open spec fn kept_roads(roads: Seq<(OriginalRoad, RawRoad)>, valid: Seq<bool>) -> Seq<
    (OriginalRoad, RawRoad),
>
    decreases roads.len(),
{
    if roads.len() == 0 {
        seq![]
    } else {
        let rest = kept_roads(roads.drop_last(), valid);
        if keeps_road(roads.last().0, valid[roads.len() - 1]) {
            rest.push(roads.last())
        } else {
            rest
        }
    }
}

/// No road that stays loops back to the intersection it starts from, and no
/// more roads stay than there were.
pub proof fn lemma_kept_roads_no_loops(roads: Seq<(OriginalRoad, RawRoad)>, valid: Seq<bool>)
    requires
        valid.len() == roads.len(),
    ensures
        kept_roads(roads, valid).len() <= roads.len(),
        forall|i: int|
            0 <= i < kept_roads(roads, valid).len() ==> #[trigger] kept_roads(roads, valid)[i].0.i1
                != kept_roads(roads, valid)[i].0.i2,
    decreases roads.len(),
{
    if roads.len() > 0 {
        let rest = roads.drop_last();
        let v = valid.take(rest.len() as int);
        lemma_kept_roads_prefix(roads.drop_last(), valid);
        lemma_kept_roads_no_loops(rest, v);
    }
}

/// Exactly the right roads stay: every road that joins two different
/// intersections and has a valid center line stays, and every road that stays
/// is one of the roads, joining two different intersections, with a valid
/// center line.
pub proof fn lemma_kept_roads_exact(roads: Seq<(OriginalRoad, RawRoad)>, valid: Seq<bool>)
    requires
        valid.len() == roads.len(),
    ensures
        forall|i: int|
            0 <= i < roads.len() && (#[trigger] roads[i]).0.i1 != roads[i].0.i2 && valid[i]
                ==> kept_roads(roads, valid).contains(roads[i]),
        forall|k: int|
            0 <= k < kept_roads(roads, valid).len() ==> exists|i: int|
                0 <= i < roads.len() && #[trigger] roads[i] == #[trigger] kept_roads(roads, valid)[k]
                    && roads[i].0.i1 != roads[i].0.i2 && valid[i],
    decreases roads.len(),
{
    if roads.len() > 0 {
        let rest = roads.drop_last();
        let v = valid.take(rest.len() as int);
        lemma_kept_roads_prefix(rest, valid);
        lemma_kept_roads_exact(rest, v);
        let kr = kept_roads(rest, valid);
        let k = kept_roads(roads, valid);
        let n = roads.len() - 1;
        assert forall|i: int|
            0 <= i < roads.len() && (#[trigger] roads[i]).0.i1 != roads[i].0.i2 && valid[i]
                implies k.contains(roads[i]) by {
            if i < n {
                assert(rest[i] == roads[i]);
                assert(v[i] == valid[i]);
                assert(kr.contains(rest[i]));
                let j = choose|j: int| 0 <= j < kr.len() && kr[j] == rest[i];
                assert(k[j] == kr[j]);
            } else {
                assert(roads.last() == roads[i]);
                assert(k[k.len() - 1] == roads[i]);
            }
        }
        assert forall|kk: int| 0 <= kk < k.len() implies exists|i: int|
            0 <= i < roads.len() && #[trigger] roads[i] == #[trigger] k[kk] && roads[i].0.i1
                != roads[i].0.i2 && valid[i] by {
            if kk < kr.len() {
                assert(k[kk] == kr[kk]);
                let i = choose|i: int|
                    0 <= i < rest.len() && #[trigger] rest[i] == #[trigger] kr[kk] && rest[i].0.i1
                        != rest[i].0.i2 && v[i];
                assert(roads[i] == rest[i]);
                assert(valid[i] == v[i]);
            } else {
                assert(k[kk] == roads[n]);
            }
        }
    }
}

/// Only the flags of the roads at hand matter.
proof fn lemma_kept_roads_prefix(roads: Seq<(OriginalRoad, RawRoad)>, valid: Seq<bool>)
    requires
        roads.len() <= valid.len(),
    ensures
        kept_roads(roads, valid) == kept_roads(roads, valid.take(roads.len() as int)),
    decreases roads.len(),
{
    if roads.len() > 0 {
        lemma_kept_roads_prefix(roads.drop_last(), valid);
        lemma_kept_roads_prefix(roads.drop_last(), valid.take(roads.len() as int));
        assert(valid.take(roads.len() as int).take(roads.len() - 1) =~= valid.take(
            roads.len() - 1,
        ));
    }
}

/// Removes the roads that loop back to the intersection they start from and
/// those whose center line is broken; `valid_center_lines[i]` tells whether the
/// center line of the `i`-th road is a valid polyline.
pub fn finalize_geometry(map: &mut RawMap, valid_center_lines: &Vec<bool>)
    requires
        valid_center_lines@.len() == old(map).roads@.len(),
    ensures
        final(map).roads@ == kept_roads(old(map).roads@, valid_center_lines@),
        final(map).config == old(map).config,
        forall|i: int|
            0 <= i < final(map).roads@.len() ==> #[trigger] final(map).roads@[i].0.i1
                != final(map).roads@[i].0.i2,
        forall|i: int|
            0 <= i < old(map).roads@.len() && (#[trigger] old(map).roads@[i]).0.i1
                != old(map).roads@[i].0.i2 && valid_center_lines@[i] ==> final(map).roads@.contains(
                old(map).roads@[i],
            ),
{
    let mut roads: Vec<(OriginalRoad, RawRoad)> = Vec::new();
    std::mem::swap(&mut roads, &mut map.roads);
    let ghost all = roads@;
    let mut kept: Vec<(OriginalRoad, RawRoad)> = Vec::new();
    let mut i: usize = 0;
    for entry in it: roads.into_iter()
        invariant
            it.seq() == all,
            i == it.index(),
            i <= all.len(),
            valid_center_lines.len() == all.len(),
            kept@ == kept_roads(all.take(i as int), valid_center_lines@),
    {
        let (id, road) = entry;
        proof {
            assert(all.take(i + 1).drop_last() =~= all.take(i as int));
        }
        if id.i1 != id.i2 && valid_center_lines[i] {
            kept.push((id, road));
        }
        i = i + 1;
    }
    proof {
        assert(all.take(i as int) =~= all);
        lemma_kept_roads_no_loops(all, valid_center_lines@);
        lemma_kept_roads_exact(all, valid_center_lines@);
    }
    map.roads = kept;
}

} // verus!
