use abstreet::lane_specs::{
    get_lane_specs_ltr, is_railway, is_supported_lane, transform_lane, transform_tags, Designated, Direction,
    Distance, DrivingSide, LaneSpec, LaneType, MapConfig, OsmDirection, OsmLane, OsmRoad,
    TypicalWidths,
};
use abstreet::tags::Tags;

fn d(n: u64) -> Distance {
    Distance { ten_thousandths: n }
}

fn widths() -> TypicalWidths {
    TypicalWidths {
        driving: d(35000),
        parking: d(25000),
        sidewalk: d(15000),
        shoulder: d(10000),
        biking: d(18000),
        bus: d(36000),
        shared_left_turn: d(30000),
        construction: d(30000),
        light_rail: d(40000),
    }
}

fn tags(pairs: &[(&str, &str)]) -> Tags {
    let mut t = Tags::new();
    for (k, v) in pairs {
        t.insert(k, v);
    }
    t
}

fn right() -> MapConfig {
    MapConfig { driving_side: DrivingSide::Right, inferred_sidewalks: true }
}

fn travel(dir: Option<OsmDirection>, des: Designated) -> OsmLane {
    OsmLane::Travel { direction: dir, designated: des, width: d(30000) }
}

fn spec(lt: LaneType, dir: Direction, w: u64) -> LaneSpec {
    LaneSpec { lt, dir, width: d(w) }
}

#[test]
fn transform_tags_patches_common_issues() {
    let t = tags(&[
        ("sidewalk", "none"),
        ("oneway", "reversible"),
        ("highway", "living_street"),
        ("name", "Main"),
    ]);
    let r = transform_tags(&t, &right());
    assert!(r.is("sidewalk", "no"));
    assert!(r.is("oneway", "yes"));
    assert!(r.is("highway", "residential"));
    assert!(r.is("name", "Main"));
    assert_eq!(r.inner().len(), 4);
}

#[test]
fn transform_tags_guesses_separate_sidewalks() {
    let oneway = tags(&[("sidewalk", "separate"), ("oneway", "yes")]);
    assert!(transform_tags(&oneway, &right()).is("sidewalk", "right"));
    let left = MapConfig { driving_side: DrivingSide::Left, inferred_sidewalks: true };
    assert!(transform_tags(&oneway, &left).is("sidewalk", "left"));
    let twoway = tags(&[("sidewalk", "separate")]);
    assert!(transform_tags(&twoway, &right()).is("sidewalk", "both"));
    let off = MapConfig { driving_side: DrivingSide::Right, inferred_sidewalks: false };
    assert!(transform_tags(&twoway, &off).is("sidewalk", "separate"));
}

#[test]
fn transform_tags_drops_second_bus_schema() {
    let both = tags(&[
        ("bus:lanes:forward", "yes|no"),
        ("lanes:bus:forward", "1"),
        ("lanes:bus:backward", "1"),
    ]);
    let r = transform_tags(&both, &right());
    assert!(r.contains_key("bus:lanes:forward"));
    assert!(!r.contains_key("lanes:bus:forward"));
    assert!(!r.contains_key("lanes:bus:backward"));
    let one = tags(&[("lanes:bus:forward", "1")]);
    assert!(transform_tags(&one, &right()).contains_key("lanes:bus:forward"));
}

#[test]
fn transform_tags_twice_is_once() {
    let t = tags(&[
        ("sidewalk", "separate"),
        ("oneway", "reversible"),
        ("highway", "living_street"),
        ("bus:lanes:backward", "no"),
        ("lanes:bus:backward", "1"),
    ]);
    let once = transform_tags(&t, &right());
    let twice = transform_tags(&once, &right());
    let mut a: Vec<(String, String)> = once.inner().clone();
    let mut b: Vec<(String, String)> = twice.inner().clone();
    a.sort();
    b.sort();
    assert_eq!(a, b);
    assert!(once.is("sidewalk", "right"));
}

#[test]
fn transform_lane_cases() {
    assert_eq!(
        transform_lane(travel(Some(OsmDirection::Backward), Designated::Bus)),
        vec![spec(LaneType::Bus, Direction::Back, 30000)]
    );
    assert_eq!(
        transform_lane(travel(Some(OsmDirection::Both), Designated::Motor)),
        vec![spec(LaneType::SharedLeftTurn, Direction::Fwd, 30000)]
    );
    assert_eq!(
        transform_lane(travel(Some(OsmDirection::Both), Designated::Bicycle)),
        vec![
            spec(LaneType::Biking, Direction::Back, 30000),
            spec(LaneType::Biking, Direction::Fwd, 30000)
        ]
    );
    assert_eq!(
        transform_lane(travel(None, Designated::Foot)),
        vec![spec(LaneType::Sidewalk, Direction::Fwd, 30000)]
    );
    assert_eq!(transform_lane(OsmLane::Separator), vec![]);
    assert_eq!(
        transform_lane(OsmLane::Shoulder { width: d(5000) }),
        vec![spec(LaneType::Shoulder, Direction::Fwd, 5000)]
    );
    assert_eq!(
        transform_lane(OsmLane::Parking {
            direction: OsmDirection::Backward,
            designated: Designated::Motor,
            width: d(20000)
        }),
        vec![spec(LaneType::Parking, Direction::Back, 20000)]
    );
}

fn residential_road() -> OsmRoad {
    OsmRoad {
        lanes: vec![
            travel(Some(OsmDirection::Backward), Designated::Foot),
            OsmLane::Separator,
            OsmLane::Parking {
                direction: OsmDirection::Backward,
                designated: Designated::Motor,
                width: d(20000),
            },
            travel(Some(OsmDirection::Backward), Designated::Motor),
            travel(Some(OsmDirection::Forward), Designated::Motor),
            OsmLane::Shoulder { width: d(5000) },
        ],
        construction: false,
    }
}

#[test]
fn lane_specs_of_residential_road() {
    let t = tags(&[("highway", "residential")]);
    let r = get_lane_specs_ltr(&t, &right(), &widths(), Some(residential_road()));
    assert_eq!(
        r,
        vec![
            spec(LaneType::Sidewalk, Direction::Back, 15000),
            spec(LaneType::Parking, Direction::Back, 25000),
            spec(LaneType::Driving, Direction::Back, 35000),
            spec(LaneType::Driving, Direction::Fwd, 35000),
            spec(LaneType::Shoulder, Direction::Fwd, 10000),
        ]
    );
}

#[test]
fn lane_specs_outer_directions_drive_on_left() {
    let t = tags(&[("highway", "residential")]);
    let cfg = MapConfig { driving_side: DrivingSide::Left, inferred_sidewalks: false };
    let r = get_lane_specs_ltr(&t, &cfg, &widths(), Some(residential_road()));
    assert_eq!(r[0], spec(LaneType::Sidewalk, Direction::Fwd, 15000));
    assert_eq!(r[4], spec(LaneType::Shoulder, Direction::Back, 10000));
}

#[test]
fn lane_specs_no_shoulders_where_nobody_walks() {
    for (k, v) in [
        ("highway", "motorway"),
        ("highway", "motorway_link"),
        ("foot", "no"),
        ("access", "no"),
        ("motorroad", "yes"),
    ] {
        let t = tags(&[(k, v)]);
        let r = get_lane_specs_ltr(&t, &right(), &widths(), Some(residential_road()));
        assert!(r.iter().all(|l| l.lt != LaneType::Shoulder), "{}={}", k, v);
        assert_eq!(r.len(), 4);
    }
}

#[test]
fn lane_specs_construction_site() {
    let t = tags(&[("highway", "construction")]);
    let mut road = residential_road();
    road.construction = true;
    let r = get_lane_specs_ltr(&t, &right(), &widths(), Some(road));
    assert_eq!(r, vec![spec(LaneType::Construction, Direction::Back, 30000); 3]
        .into_iter()
        .enumerate()
        .map(|(i, mut l)| {
            if i == 2 {
                l.dir = Direction::Fwd;
            }
            l
        })
        .collect::<Vec<_>>());
}

#[test]
fn lane_specs_no_parking_without_driving() {
    let t = tags(&[("highway", "cycleway")]);
    let road = OsmRoad {
        lanes: vec![
            OsmLane::Parking {
                direction: OsmDirection::Forward,
                designated: Designated::Motor,
                width: d(20000),
            },
            travel(Some(OsmDirection::Both), Designated::Bicycle),
        ],
        construction: false,
    };
    let r = get_lane_specs_ltr(&t, &right(), &widths(), Some(road));
    assert_eq!(
        r,
        vec![
            spec(LaneType::Biking, Direction::Back, 18000),
            spec(LaneType::Biking, Direction::Fwd, 18000)
        ]
    );
}

#[test]
fn lane_specs_fallback_when_interpreter_fails() {
    let t = tags(&[("highway", "residential")]);
    let r = get_lane_specs_ltr(&t, &right(), &widths(), None);
    assert_eq!(r, vec![spec(LaneType::Driving, Direction::Fwd, 10000)]);
}

#[test]
fn lane_specs_light_rail() {
    let t = tags(&[("railway", "light_rail")]);
    assert!(is_railway(&t));
    let r = get_lane_specs_ltr(&t, &right(), &widths(), None);
    assert_eq!(r, vec![spec(LaneType::LightRail, Direction::Fwd, 40000)]);
    let rail = tags(&[("railway", "rail")]);
    let r2 = get_lane_specs_ltr(&rail, &right(), &widths(), Some(residential_road()));
    assert_eq!(r2, vec![spec(LaneType::LightRail, Direction::Fwd, 40000)]);
    assert!(!is_railway(&tags(&[("railway", "tram")])));
}

#[test]
fn walkable_lane_types() {
    assert!(LaneType::Sidewalk.is_walkable());
    assert!(LaneType::Shoulder.is_walkable());
    assert!(!LaneType::Driving.is_walkable());
    assert_eq!(Distance::one_meter(), d(10000));
    assert_eq!(widths().width(LaneType::Bus), d(36000));
}

#[test]
fn unsupported_lanes() {
    assert!(is_supported_lane(travel(Some(OsmDirection::Both), Designated::Motor)));
    assert!(is_supported_lane(travel(Some(OsmDirection::Both), Designated::Bicycle)));
    assert!(!is_supported_lane(travel(Some(OsmDirection::Both), Designated::Foot)));
    assert!(!is_supported_lane(travel(Some(OsmDirection::Both), Designated::Bus)));
    assert!(is_supported_lane(travel(None, Designated::Bus)));
    assert!(!is_supported_lane(OsmLane::Parking {
        direction: OsmDirection::Both,
        designated: Designated::Motor,
        width: d(1)
    }));
    assert!(!is_supported_lane(OsmLane::Parking {
        direction: OsmDirection::Forward,
        designated: Designated::Bicycle,
        width: d(1)
    }));
    assert!(is_supported_lane(OsmLane::Separator));
}
