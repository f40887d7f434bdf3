use abstreet::geometry::{finalize_geometry, OriginalRoad, RawMap, RawRoad};
use abstreet::lane_specs::{DrivingSide, MapConfig};
use abstreet::tags::Tags;

fn road(way: i64, i1: i64, i2: i64) -> (OriginalRoad, RawRoad) {
    (OriginalRoad { osm_way_id: way, i1, i2 }, RawRoad { osm_tags: Tags::new() })
}

#[test]
fn finalize_drops_loops_and_broken_roads() {
    let mut map = RawMap {
        roads: vec![road(1, 10, 11), road(2, 12, 12), road(3, 13, 14), road(4, 15, 16)],
        config: MapConfig { driving_side: DrivingSide::Right, inferred_sidewalks: true },
    };
    finalize_geometry(&mut map, &vec![true, true, false, true]);
    let ids: Vec<i64> = map.roads.iter().map(|(id, _)| id.osm_way_id).collect();
    assert_eq!(ids, vec![1, 4]);
}

#[test]
fn finalize_keeps_good_roads() {
    let mut map = RawMap {
        roads: vec![road(5, 1, 2), road(6, 2, 3)],
        config: MapConfig { driving_side: DrivingSide::Left, inferred_sidewalks: false },
    };
    finalize_geometry(&mut map, &vec![true, true]);
    assert_eq!(map.roads.len(), 2);
    finalize_geometry(&mut map, &vec![true, true]);
    assert_eq!(map.roads.len(), 2);
}
