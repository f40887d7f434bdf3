//! From the tags of an OpenStreetMap way to the lanes of a road, left to right.
//!
//! The tags are first patched (`transform_tags`); the patched tags go to the lane
//! interpreter `osm2lanes`, whose answer comes back as an `OsmRoad`; the lanes it
//! describes are then turned into `LaneSpec`s and cleaned up (`get_lane_specs_ltr`).
use vstd::prelude::*;

use crate::tags::Tags;

verus! {

/// Which side of the road vehicles drive on.
#[derive(Clone, Copy, Debug, PartialEq, Eq, Structural)]
pub enum DrivingSide {
    Right,
    Left,
}

/// The direction of travel of a lane, relative to the road's own direction.
#[derive(Clone, Copy, Debug, PartialEq, Eq, Structural)]
pub enum Direction {
    Fwd,
    Back,
}

/// What a lane is used for.
#[derive(Clone, Copy, Debug, PartialEq, Eq, Structural)]
pub enum LaneType {
    Driving,
    Parking,
    Sidewalk,
    Shoulder,
    Biking,
    Bus,
    SharedLeftTurn,
    Construction,
    LightRail,
}

impl LaneType {
    pub open spec fn walkable(self) -> bool {
        self == LaneType::Sidewalk || self == LaneType::Shoulder
    }

    /// Whether people walk on this kind of lane.
    pub fn is_walkable(self) -> (r: bool)
        ensures
            r == self.walkable(),
    {
        self == LaneType::Sidewalk || self == LaneType::Shoulder
    }
}

/// A length, counted in ten-thousandths of a metre (the precision that map
/// distances are kept at).
#[derive(Clone, Copy, Debug, PartialEq, Eq, Structural)]
pub struct Distance {
    pub ten_thousandths: u64,
}

impl Distance {
    /// One metre.
    pub fn one_meter() -> (d: Distance)
        ensures
            d.ten_thousandths == 10000,
    {
        Distance { ten_thousandths: 10000 }
    }
}

/// One lane of a road: its use, its direction and its width.
#[derive(Clone, Copy, Debug, PartialEq, Eq, Structural)]
pub struct LaneSpec {
    pub lt: LaneType,
    pub dir: Direction,
    pub width: Distance,
}

/// The settings of a map that the lane rules read.
#[derive(Clone, Copy, Debug, PartialEq, Eq, Structural)]
pub struct MapConfig {
    pub driving_side: DrivingSide,
    /// Whether sidewalks that OpenStreetMap maps as separate ways are guessed onto the road.
    pub inferred_sidewalks: bool,
}

/// The typical width of each kind of lane, for the road at hand.
#[derive(Clone, Copy, Debug, PartialEq, Eq, Structural)]
pub struct TypicalWidths {
    pub driving: Distance,
    pub parking: Distance,
    pub sidewalk: Distance,
    pub shoulder: Distance,
    pub biking: Distance,
    pub bus: Distance,
    pub shared_left_turn: Distance,
    pub construction: Distance,
    pub light_rail: Distance,
}

impl TypicalWidths {
    pub open spec fn of(self, lt: LaneType) -> Distance {
        match lt {
            LaneType::Driving => self.driving,
            LaneType::Parking => self.parking,
            LaneType::Sidewalk => self.sidewalk,
            LaneType::Shoulder => self.shoulder,
            LaneType::Biking => self.biking,
            LaneType::Bus => self.bus,
            LaneType::SharedLeftTurn => self.shared_left_turn,
            LaneType::Construction => self.construction,
            LaneType::LightRail => self.light_rail,
        }
    }

    /// The typical width of lanes of type `lt`.
    pub fn width(&self, lt: LaneType) -> (d: Distance)
        ensures
            d == self.of(lt),
    {
        match lt {
            LaneType::Driving => self.driving,
            LaneType::Parking => self.parking,
            LaneType::Sidewalk => self.sidewalk,
            LaneType::Shoulder => self.shoulder,
            LaneType::Biking => self.biking,
            LaneType::Bus => self.bus,
            LaneType::SharedLeftTurn => self.shared_left_turn,
            LaneType::Construction => self.construction,
            LaneType::LightRail => self.light_rail,
        }
    }
}

// ---------------------------------------------------------------------------
// Patching the tags

/// `m` maps `k` to `v`.
pub open spec fn tag_is(m: Map<Seq<char>, Seq<char>>, k: Seq<char>, v: Seq<char>) -> bool {
    m.contains_key(k) && m[k] == v
}

/// `m` has one of the two keys.
pub open spec fn has_either(m: Map<Seq<char>, Seq<char>>, k1: Seq<char>, k2: Seq<char>) -> bool {
    m.contains_key(k1) || m.contains_key(k2)
}

/// "sidewalk=none" is read as "sidewalk=no".
pub open spec fn patch_sidewalk_none(m: Map<Seq<char>, Seq<char>>) -> Map<Seq<char>, Seq<char>> {
    if tag_is(m, "sidewalk"@, "none"@) {
        m.insert("sidewalk"@, "no"@)
    } else {
        m
    }
}

/// A reversible one-way road is treated as an ordinary one-way road.
pub open spec fn patch_reversible(m: Map<Seq<char>, Seq<char>>) -> Map<Seq<char>, Seq<char>> {
    if tag_is(m, "oneway"@, "reversible"@) {
        m.insert("oneway"@, "yes"@)
    } else {
        m
    }
}

/// A living street is treated as a residential street.
pub open spec fn patch_living_street(m: Map<Seq<char>, Seq<char>>) -> Map<Seq<char>, Seq<char>> {
    if tag_is(m, "highway"@, "living_street"@) {
        m.insert("highway"@, "residential"@)
    } else {
        m
    }
}

/// Where sidewalks are inferred, a sidewalk mapped separately is guessed onto the road:
/// on the driving side of a one-way road, else on both sides.
pub open spec fn patch_separate_sidewalk(
    m: Map<Seq<char>, Seq<char>>,
    cfg: MapConfig,
) -> Map<Seq<char>, Seq<char>> {
    if tag_is(m, "sidewalk"@, "separate"@) && cfg.inferred_sidewalks {
        let value = if tag_is(m, "oneway"@, "yes"@) {
            if cfg.driving_side == DrivingSide::Right {
                "right"@
            } else {
                "left"@
            }
        } else {
            "both"@
        };
        m.insert("sidewalk"@, value)
    } else {
        m
    }
}

/// When bus lanes are tagged in both schemas, the "lanes:bus:*" one is dropped.
pub open spec fn patch_bus_schemas(m: Map<Seq<char>, Seq<char>>) -> Map<Seq<char>, Seq<char>> {
    if has_either(m, "bus:lanes:forward"@, "bus:lanes:backward"@) && has_either(
        m,
        "lanes:bus:forward"@,
        "lanes:bus:backward"@,
    ) {
        m.remove("lanes:bus:forward"@).remove("lanes:bus:backward"@)
    } else {
        m
    }
}

/// The tags handed to the lane interpreter: the original tags with the patches
/// above applied in order.
pub open spec fn transformed_tags(m: Map<Seq<char>, Seq<char>>, cfg: MapConfig) -> Map<
    Seq<char>,
    Seq<char>,
> {
    patch_bus_schemas(
        patch_separate_sidewalk(
            patch_living_street(patch_reversible(patch_sidewalk_none(m))),
            cfg,
        ),
    )
}

/// Patching the tags a second time changes nothing: every patch removes the very
/// condition that triggers it, and no later patch brings any condition back.
pub proof fn lemma_transform_tags_idempotent(m: Map<Seq<char>, Seq<char>>, cfg: MapConfig)
    ensures
        transformed_tags(transformed_tags(m, cfg), cfg) == transformed_tags(m, cfg),
{
    lemma_patch_literals_distinct();
    reveal_strlit("yes");
    reveal_strlit("reversible");
    let m1 = patch_sidewalk_none(m);
    let m2 = patch_reversible(m1);
    let m3 = patch_living_street(m2);
    let m4 = patch_separate_sidewalk(m3, cfg);
    let t = patch_bus_schemas(m4);
    assert(t == transformed_tags(m, cfg));
    assert(!tag_is(m4, "sidewalk"@, "none"@));
    assert(!tag_is(m4, "oneway"@, "reversible"@));
    assert(!tag_is(m4, "highway"@, "living_street"@));
    assert(!tag_is(t, "sidewalk"@, "none"@));
    assert(!tag_is(t, "oneway"@, "reversible"@));
    assert(!tag_is(t, "highway"@, "living_street"@));
    assert(patch_sidewalk_none(t) == t);
    assert(patch_reversible(t) == t);
    assert(patch_living_street(t) == t);
    assert(patch_separate_sidewalk(t, cfg) == t);
    assert(patch_bus_schemas(t) == t);
}

/// The keys and values that the patches read and write are different strings.
proof fn lemma_patch_literals_distinct()
    ensures
        "sidewalk"@ != "oneway"@,
        "sidewalk"@ != "highway"@,
        "sidewalk"@ != "bus:lanes:forward"@,
        "sidewalk"@ != "bus:lanes:backward"@,
        "sidewalk"@ != "lanes:bus:forward"@,
        "sidewalk"@ != "lanes:bus:backward"@,
        "oneway"@ != "highway"@,
        "oneway"@ != "bus:lanes:forward"@,
        "oneway"@ != "bus:lanes:backward"@,
        "oneway"@ != "lanes:bus:forward"@,
        "oneway"@ != "lanes:bus:backward"@,
        "highway"@ != "bus:lanes:forward"@,
        "highway"@ != "bus:lanes:backward"@,
        "highway"@ != "lanes:bus:forward"@,
        "highway"@ != "lanes:bus:backward"@,
        "bus:lanes:forward"@ != "bus:lanes:backward"@,
        "bus:lanes:forward"@ != "lanes:bus:forward"@,
        "bus:lanes:forward"@ != "lanes:bus:backward"@,
        "bus:lanes:backward"@ != "lanes:bus:forward"@,
        "bus:lanes:backward"@ != "lanes:bus:backward"@,
        "lanes:bus:forward"@ != "lanes:bus:backward"@,
        "no"@ != "none"@,
        "yes"@ != "reversible"@,
        "residential"@ != "living_street"@,
        "right"@ != "separate"@,
        "left"@ != "separate"@,
        "both"@ != "separate"@,
        "right"@ != "none"@,
        "left"@ != "none"@,
        "both"@ != "none"@,
        "no"@ != "separate"@,
        "separate"@ != "none"@,
{
    reveal_strlit("both");
    reveal_strlit("bus:lanes:backward");
    reveal_strlit("bus:lanes:forward");
    reveal_strlit("highway");
    reveal_strlit("lanes:bus:backward");
    reveal_strlit("lanes:bus:forward");
    reveal_strlit("left");
    reveal_strlit("living_street");
    reveal_strlit("no");
    reveal_strlit("none");
    reveal_strlit("oneway");
    reveal_strlit("residential");
    reveal_strlit("reversible");
    reveal_strlit("right");
    reveal_strlit("separate");
    reveal_strlit("sidewalk");
    reveal_strlit("yes");
    assert("sidewalk"@.len() != "oneway"@.len() || "sidewalk"@[0] != "oneway"@[0]);
    assert("sidewalk"@.len() != "highway"@.len() || "sidewalk"@[0] != "highway"@[0]);
    assert("sidewalk"@.len() != "bus:lanes:forward"@.len() || "sidewalk"@[0] != "bus:lanes:forward"@[0]);
    assert("sidewalk"@.len() != "bus:lanes:backward"@.len() || "sidewalk"@[0] != "bus:lanes:backward"@[0]);
    assert("sidewalk"@.len() != "lanes:bus:forward"@.len() || "sidewalk"@[0] != "lanes:bus:forward"@[0]);
    assert("sidewalk"@.len() != "lanes:bus:backward"@.len() || "sidewalk"@[0] != "lanes:bus:backward"@[0]);
    assert("oneway"@.len() != "highway"@.len() || "oneway"@[0] != "highway"@[0]);
    assert("oneway"@.len() != "bus:lanes:forward"@.len() || "oneway"@[0] != "bus:lanes:forward"@[0]);
    assert("oneway"@.len() != "bus:lanes:backward"@.len() || "oneway"@[0] != "bus:lanes:backward"@[0]);
    assert("oneway"@.len() != "lanes:bus:forward"@.len() || "oneway"@[0] != "lanes:bus:forward"@[0]);
    assert("oneway"@.len() != "lanes:bus:backward"@.len() || "oneway"@[0] != "lanes:bus:backward"@[0]);
    assert("highway"@.len() != "bus:lanes:forward"@.len() || "highway"@[0] != "bus:lanes:forward"@[0]);
    assert("highway"@.len() != "bus:lanes:backward"@.len() || "highway"@[0] != "bus:lanes:backward"@[0]);
    assert("highway"@.len() != "lanes:bus:forward"@.len() || "highway"@[0] != "lanes:bus:forward"@[0]);
    assert("highway"@.len() != "lanes:bus:backward"@.len() || "highway"@[0] != "lanes:bus:backward"@[0]);
    assert("bus:lanes:forward"@.len() != "bus:lanes:backward"@.len() || "bus:lanes:forward"@[0] != "bus:lanes:backward"@[0]);
    assert("bus:lanes:forward"@.len() != "lanes:bus:forward"@.len() || "bus:lanes:forward"@[0] != "lanes:bus:forward"@[0]);
    assert("bus:lanes:forward"@.len() != "lanes:bus:backward"@.len() || "bus:lanes:forward"@[0] != "lanes:bus:backward"@[0]);
    assert("bus:lanes:backward"@.len() != "lanes:bus:forward"@.len() || "bus:lanes:backward"@[0] != "lanes:bus:forward"@[0]);
    assert("bus:lanes:backward"@.len() != "lanes:bus:backward"@.len() || "bus:lanes:backward"@[0] != "lanes:bus:backward"@[0]);
    assert("lanes:bus:forward"@.len() != "lanes:bus:backward"@.len() || "lanes:bus:forward"@[0] != "lanes:bus:backward"@[0]);
    assert("no"@.len() != "none"@.len() || "no"@[0] != "none"@[0]);
    assert("yes"@.len() != "reversible"@.len() || "yes"@[0] != "reversible"@[0]);
    assert("residential"@.len() != "living_street"@.len() || "residential"@[0] != "living_street"@[0]);
    assert("right"@.len() != "separate"@.len() || "right"@[0] != "separate"@[0]);
    assert("left"@.len() != "separate"@.len() || "left"@[0] != "separate"@[0]);
    assert("both"@.len() != "separate"@.len() || "both"@[0] != "separate"@[0]);
    assert("right"@.len() != "none"@.len() || "right"@[0] != "none"@[0]);
    assert("left"@.len() != "none"@.len() || "left"@[0] != "none"@[0]);
    assert("both"@.len() != "none"@.len() || "both"@[0] != "none"@[0]);
}

/// What patching the tags does, key by key:
/// - "sidewalk=none" becomes "sidewalk=no";
/// - "oneway=reversible" becomes "oneway=yes";
/// - "highway=living_street" becomes "highway=residential";
/// - where sidewalks are inferred, "sidewalk=separate" becomes "right" or "left"
///   (the driving side) on a one-way road, else "both"; where they are not, it stays;
/// - the result never holds keys of both bus lane schemas: when the original
///   has a "bus:lanes:*" key, the "lanes:bus:*" keys go; the "bus:lanes:*" keys
///   always stay as they are, and so do the "lanes:bus:*" keys when there is no
///   "bus:lanes:*" key;
/// - every other key, and every value not named above, stays as it was.
pub proof fn lemma_transform_tags_laws(m: Map<Seq<char>, Seq<char>>, cfg: MapConfig)
    ensures
        ({
            let r = transformed_tags(m, cfg);
            let sidewalk = "sidewalk"@;
            let oneway = "oneway"@;
            let highway = "highway"@;
            let bus_f = "bus:lanes:forward"@;
            let bus_b = "bus:lanes:backward"@;
            let lanes_f = "lanes:bus:forward"@;
            let lanes_b = "lanes:bus:backward"@;
            &&& tag_is(m, sidewalk, "none"@) ==> tag_is(r, sidewalk, "no"@)
            &&& tag_is(m, oneway, "reversible"@) ==> tag_is(r, oneway, "yes"@)
            &&& !tag_is(m, oneway, "reversible"@) ==> (r.contains_key(oneway) == m.contains_key(
                oneway,
            ) && (m.contains_key(oneway) ==> r[oneway] == m[oneway]))
            &&& tag_is(m, highway, "living_street"@) ==> tag_is(r, highway, "residential"@)
            &&& !tag_is(m, highway, "living_street"@) ==> (r.contains_key(highway)
                == m.contains_key(highway) && (m.contains_key(highway) ==> r[highway]
                == m[highway]))
            &&& (tag_is(m, sidewalk, "separate"@) && cfg.inferred_sidewalks) ==> (if tag_is(
                m,
                oneway,
                "yes"@,
            ) || tag_is(m, oneway, "reversible"@) {
                if cfg.driving_side == DrivingSide::Right {
                    tag_is(r, sidewalk, "right"@)
                } else {
                    tag_is(r, sidewalk, "left"@)
                }
            } else {
                tag_is(r, sidewalk, "both"@)
            })
            &&& (!tag_is(m, sidewalk, "none"@) && !(tag_is(m, sidewalk, "separate"@)
                && cfg.inferred_sidewalks)) ==> (r.contains_key(sidewalk) == m.contains_key(
                sidewalk,
            ) && (m.contains_key(sidewalk) ==> r[sidewalk] == m[sidewalk]))
            &&& !((r.contains_key(bus_f) || r.contains_key(bus_b)) && (r.contains_key(lanes_f)
                || r.contains_key(lanes_b)))
            &&& r.contains_key(bus_f) == m.contains_key(bus_f)
            &&& r.contains_key(bus_b) == m.contains_key(bus_b)
            &&& m.contains_key(bus_f) ==> r[bus_f] == m[bus_f]
            &&& m.contains_key(bus_b) ==> r[bus_b] == m[bus_b]
            &&& !(m.contains_key(bus_f) || m.contains_key(bus_b)) ==> {
                &&& r.contains_key(lanes_f) == m.contains_key(lanes_f)
                &&& r.contains_key(lanes_b) == m.contains_key(lanes_b)
                &&& m.contains_key(lanes_f) ==> r[lanes_f] == m[lanes_f]
                &&& m.contains_key(lanes_b) ==> r[lanes_b] == m[lanes_b]
            }
            &&& forall|k: Seq<char>|
                k != sidewalk && k != oneway && k != highway && k != lanes_f && k != lanes_b ==> {
                    &&& #[trigger] r.contains_key(k) == m.contains_key(k)
                    &&& m.contains_key(k) ==> r[k] == m[k]
                }
        }),
{
    lemma_patch_literals_distinct();
    let m1 = patch_sidewalk_none(m);
    let m2 = patch_reversible(m1);
    let m3 = patch_living_street(m2);
    let m4 = patch_separate_sidewalk(m3, cfg);
    let r = patch_bus_schemas(m4);
    assert(r == transformed_tags(m, cfg));
}

/// Patches around common tagging issues before the tags are interpreted.
pub fn transform_tags(tags: &Tags, cfg: &MapConfig) -> (r: Tags)
    requires
        tags.wf(),
    ensures
        r.wf(),
        r@ == transformed_tags(tags@, *cfg),
{
    let mut tags = tags.clone();
    if tags.is("sidewalk", "none") {
        tags.insert("sidewalk", "no");
    }
    if tags.is("oneway", "reversible") {
        tags.insert("oneway", "yes");
    }
    if tags.is("highway", "living_street") {
        tags.insert("highway", "residential");
    }
    if tags.is("sidewalk", "separate") && cfg.inferred_sidewalks {
        let value = if tags.is("oneway", "yes") {
            if cfg.driving_side == DrivingSide::Right {
                "right"
            } else {
                "left"
            }
        } else {
            "both"
        };
        tags.insert("sidewalk", value);
    }
    if tags.has_any(vec!["bus:lanes:forward", "bus:lanes:backward"]) && tags.has_any(
        vec!["lanes:bus:forward", "lanes:bus:backward"],
    ) {
        tags.remove("lanes:bus:forward");
        tags.remove("lanes:bus:backward");
    }
    tags
}

// ---------------------------------------------------------------------------
// What the lane interpreter answers

/// Direction of a lane as the lane interpreter gives it.
#[derive(Clone, Copy, Debug, PartialEq, Eq, Structural)]
pub enum OsmDirection {
    Forward,
    Backward,
    Both,
}

/// Who a lane is designated for, as the lane interpreter gives it.
#[derive(Clone, Copy, Debug, PartialEq, Eq, Structural)]
pub enum Designated {
    Foot,
    Motor,
    Bicycle,
    Bus,
}

/// One lane as the lane interpreter describes it; `width` is the lane's width
/// in the interpreter's locale.
#[derive(Clone, Copy, Debug, PartialEq, Eq, Structural)]
pub enum OsmLane {
    Travel { direction: Option<OsmDirection>, designated: Designated, width: Distance },
    Parking { direction: OsmDirection, designated: Designated, width: Distance },
    Shoulder { width: Distance },
    Separator,
}

/// The road as the lane interpreter describes it: its lanes from left to right,
/// and whether its highway is under construction.
pub struct OsmRoad {
    pub lanes: Vec<OsmLane>,
    pub construction: bool,
}

/// The lanes that are turned into lane specs without trouble. Bidirectional
/// sidewalks and bus lanes, parking in both directions and parking not meant
/// for motor vehicles have no lane spec.
pub open spec fn lane_supported(lane: OsmLane) -> bool {
    match lane {
        OsmLane::Travel { direction, designated, .. } => direction == Some(OsmDirection::Both)
            ==> (designated == Designated::Motor || designated == Designated::Bicycle),
        OsmLane::Parking { direction, designated, .. } => designated == Designated::Motor
            && direction != OsmDirection::Both,
        _ => true,
    }
}

/// Whether an interpreted lane has a lane spec.
pub fn is_supported_lane(lane: OsmLane) -> (r: bool)
    ensures
        r == lane_supported(lane),
{
    match lane {
        OsmLane::Travel { direction, designated, .. } => match direction {
            Some(OsmDirection::Both) => designated == Designated::Motor || designated
                == Designated::Bicycle,
            _ => true,
        },
        OsmLane::Parking { direction, designated, .. } => designated == Designated::Motor
            && direction != OsmDirection::Both,
        _ => true,
    }
}

pub open spec fn designated_type(designated: Designated) -> LaneType {
    match designated {
        Designated::Foot => LaneType::Sidewalk,
        Designated::Motor => LaneType::Driving,
        Designated::Bicycle => LaneType::Biking,
        Designated::Bus => LaneType::Bus,
    }
}

/// The lane specs that one interpreted lane becomes.
pub open spec fn lane_specs_of(lane: OsmLane) -> Seq<LaneSpec> {
    match lane {
        OsmLane::Travel { direction, designated, width } => match direction {
            Some(OsmDirection::Forward) => seq![
                LaneSpec { lt: designated_type(designated), dir: Direction::Fwd, width },
            ],
            Some(OsmDirection::Backward) => seq![
                LaneSpec { lt: designated_type(designated), dir: Direction::Back, width },
            ],
            Some(OsmDirection::Both) => if designated == Designated::Motor {
                seq![LaneSpec { lt: LaneType::SharedLeftTurn, dir: Direction::Fwd, width }]
            } else {
                seq![
                    LaneSpec { lt: LaneType::Biking, dir: Direction::Back, width },
                    LaneSpec { lt: LaneType::Biking, dir: Direction::Fwd, width },
                ]
            },
            None => seq![LaneSpec { lt: designated_type(designated), dir: Direction::Fwd, width }],
        },
        OsmLane::Shoulder { width } => seq![
            LaneSpec { lt: LaneType::Shoulder, dir: Direction::Fwd, width },
        ],
        OsmLane::Separator => seq![],
        OsmLane::Parking { direction, width, .. } => seq![
            LaneSpec {
                lt: LaneType::Parking,
                dir: if direction == OsmDirection::Forward {
                    Direction::Fwd
                } else {
                    Direction::Back
                },
                width,
            },
        ],
    }
}

/// Turns one interpreted lane into lane specs. A bidirectional cycle track
/// becomes two lanes, one each way; separators become none.
pub fn transform_lane(lane: OsmLane) -> (r: Vec<LaneSpec>)
    requires
        lane_supported(lane),
    ensures
        r@ == lane_specs_of(lane),
{
    let lt;
    let dir;
    let width;
    match lane {
        OsmLane::Travel { direction, designated, width: w } => {
            width = w;
            let base = match designated {
                Designated::Foot => LaneType::Sidewalk,
                Designated::Motor => LaneType::Driving,
                Designated::Bicycle => LaneType::Biking,
                Designated::Bus => LaneType::Bus,
            };
            match direction {
                Some(OsmDirection::Forward) => {
                    lt = base;
                    dir = Direction::Fwd;
                },
                Some(OsmDirection::Backward) => {
                    lt = base;
                    dir = Direction::Back;
                },
                Some(OsmDirection::Both) => {
                    if designated == Designated::Motor {
                        lt = LaneType::SharedLeftTurn;
                        dir = Direction::Fwd;
                    } else {
                        let r = vec![
                            LaneSpec { lt: LaneType::Biking, dir: Direction::Back, width },
                            LaneSpec { lt: LaneType::Biking, dir: Direction::Fwd, width },
                        ];
                        assert(r@ =~= lane_specs_of(lane));
                        return r;
                    }
                },
                None => {
                    lt = base;
                    dir = Direction::Fwd;
                },
            }
        },
        OsmLane::Shoulder { width: w } => {
            width = w;
            lt = LaneType::Shoulder;
            dir = Direction::Fwd;
        },
        OsmLane::Separator => {
            let r = Vec::new();
            assert(r@ =~= lane_specs_of(lane));
            return r;
        },
        OsmLane::Parking { direction, width: w, .. } => {
            width = w;
            lt = LaneType::Parking;
            dir = match direction {
                OsmDirection::Forward => Direction::Fwd,
                _ => Direction::Back,
            };
        },
    }
    let r = vec![LaneSpec { lt, dir, width }];
    assert(r@ =~= lane_specs_of(lane));
    r
}

/// What each interpreted lane becomes:
/// - a one-way (or undirected) travel lane becomes one lane of its width, a
///   sidewalk, driving, cycle or bus lane for foot, motor, bicycle or bus
///   traffic, running backward exactly when the interpreter says so;
/// - a bidirectional motor lane becomes one shared left-turn lane, running forward;
/// - a bidirectional cycle track becomes two cycle lanes of its width, the
///   backward one first;
/// - a parking lane becomes one parking lane of its width and direction;
/// - a shoulder becomes one shoulder of its width, running forward;
/// - a separator becomes nothing.
pub proof fn lemma_lane_specs_of_laws(lane: OsmLane)
    ensures
        ({
            let r = lane_specs_of(lane);
            match lane {
                OsmLane::Travel { direction, designated, width } => if direction != Some(
                    OsmDirection::Both,
                ) {
                    &&& r.len() == 1
                    &&& r[0].width == width
                    &&& designated == Designated::Foot ==> r[0].lt == LaneType::Sidewalk
                    &&& designated == Designated::Motor ==> r[0].lt == LaneType::Driving
                    &&& designated == Designated::Bicycle ==> r[0].lt == LaneType::Biking
                    &&& designated == Designated::Bus ==> r[0].lt == LaneType::Bus
                    &&& (r[0].dir == Direction::Back) == (direction == Some(OsmDirection::Backward))
                } else if designated == Designated::Motor {
                    &&& r.len() == 1
                    &&& r[0].width == width
                    &&& r[0].lt == LaneType::SharedLeftTurn
                    &&& r[0].dir == Direction::Fwd
                } else {
                    designated == Designated::Bicycle ==> {
                        &&& r.len() == 2
                        &&& r[0].lt == LaneType::Biking && r[1].lt == LaneType::Biking
                        &&& r[0].dir == Direction::Back && r[1].dir == Direction::Fwd
                        &&& r[0].width == width && r[1].width == width
                    }
                },
                OsmLane::Parking { direction, designated, width } => (designated
                    == Designated::Motor && direction != OsmDirection::Both) ==> {
                    &&& r.len() == 1
                    &&& r[0].lt == LaneType::Parking
                    &&& r[0].width == width
                    &&& (r[0].dir == Direction::Back) == (direction == OsmDirection::Backward)
                },
                OsmLane::Shoulder { width } => {
                    &&& r.len() == 1
                    &&& r[0].lt == LaneType::Shoulder
                    &&& r[0].dir == Direction::Fwd
                    &&& r[0].width == width
                },
                OsmLane::Separator => r.len() == 0,
            }
        }),
{
}

// ---------------------------------------------------------------------------
// Cleaning up the interpreted lanes

/// Light rail is tagged on the way itself and needs no interpretation.
pub open spec fn railway(m: Map<Seq<char>, Seq<char>>) -> bool {
    tag_is(m, "railway"@, "light_rail"@) || tag_is(m, "railway"@, "rail"@)
}

/// Roads where nobody walks: motorways, their links, construction sites, and
/// roads closed to pedestrians or to everyone.
pub open spec fn unwalkable_road(m: Map<Seq<char>, Seq<char>>) -> bool {
    ||| tag_is(m, "highway"@, "motorway"@)
    ||| tag_is(m, "highway"@, "motorway_link"@)
    ||| tag_is(m, "highway"@, "construction"@)
    ||| tag_is(m, "foot"@, "no"@)
    ||| tag_is(m, "access"@, "no"@)
    ||| tag_is(m, "motorroad"@, "yes"@)
}

/// All lane specs of the interpreted lanes, in order.
pub open spec fn interpreted_lanes(lanes: Seq<OsmLane>) -> Seq<LaneSpec> {
    lanes.flat_map(|l: OsmLane| lane_specs_of(l))
}

/// The lanes whose type is not `lt`, in order.
pub open spec fn without_type(s: Seq<LaneSpec>, lt: LaneType) -> Seq<LaneSpec> {
    s.filter(|l: LaneSpec| l.lt != lt)
}

/// Some lane has type `lt`.
pub open spec fn has_type(s: Seq<LaneSpec>, lt: LaneType) -> bool {
    exists|i: int| 0 <= i < s.len() && #[trigger] s[i].lt == lt
}

pub open spec fn as_construction(l: LaneSpec) -> LaneSpec {
    LaneSpec { lt: LaneType::Construction, dir: l.dir, width: l.width }
}

/// On a construction site the walkable lanes go, and every other lane becomes a
/// construction lane.
pub open spec fn under_construction(s: Seq<LaneSpec>) -> Seq<LaneSpec> {
    s.filter(|l: LaneSpec| !l.lt.walkable()).map_values(|l: LaneSpec| as_construction(l))
}

/// The direction of a sidewalk or shoulder: the first lane is on the left edge,
/// any other on the right edge, and people on each edge walk with the traffic
/// next to them.
pub open spec fn outer_direction(first: bool, side: DrivingSide) -> Direction {
    if first == (side == DrivingSide::Right) {
        Direction::Back
    } else {
        Direction::Fwd
    }
}

/// A lane with its typical width, and, for a sidewalk or shoulder, the direction
/// of its edge of the road.
pub open spec fn finished_lane(l: LaneSpec, i: int, widths: TypicalWidths, side: DrivingSide) -> LaneSpec {
    LaneSpec {
        lt: l.lt,
        dir: if l.lt == LaneType::Sidewalk || l.lt == LaneType::Shoulder {
            outer_direction(i == 0, side)
        } else {
            l.dir
        },
        width: widths.of(l.lt),
    }
}

pub open spec fn finished_lanes(s: Seq<LaneSpec>, widths: TypicalWidths, side: DrivingSide) -> Seq<LaneSpec> {
    Seq::new(s.len(), |i: int| finished_lane(s[i], i, widths, side))
}

/// Finishing the lanes keeps their number, order and types; every lane takes
/// the typical width of its type; a lane that is neither a sidewalk nor a
/// shoulder keeps its direction; a sidewalk or shoulder runs backward exactly
/// when it is the first lane on a right-hand-driving road or a later lane on a
/// left-hand-driving road.
pub proof fn lemma_finished_lanes_laws(s: Seq<LaneSpec>, widths: TypicalWidths, side: DrivingSide)
    ensures
        finished_lanes(s, widths, side).len() == s.len(),
        forall|i: int|
            0 <= i < s.len() ==> {
                let r = #[trigger] finished_lanes(s, widths, side)[i];
                &&& r.lt == s[i].lt
                &&& r.width == widths.of(s[i].lt)
                &&& (s[i].lt != LaneType::Sidewalk && s[i].lt != LaneType::Shoulder) ==> r.dir
                    == s[i].dir
                &&& (s[i].lt == LaneType::Sidewalk || s[i].lt == LaneType::Shoulder) ==> ((r.dir
                    == Direction::Back) == ((i == 0) == (side == DrivingSide::Right)))
            },
{
}

/// The lanes of a road that the interpreter described as `lanes`.
pub open spec fn cleaned_lanes(
    orig: Map<Seq<char>, Seq<char>>,
    cfg: MapConfig,
    widths: TypicalWidths,
    lanes: Seq<OsmLane>,
    construction: bool,
) -> Seq<LaneSpec> {
    let l0 = interpreted_lanes(lanes);
    let l1 = if unwalkable_road(orig) {
        without_type(l0, LaneType::Shoulder)
    } else {
        l0
    };
    let l2 = if construction {
        under_construction(l1)
    } else {
        l1
    };
    let l3 = if !has_type(l2, LaneType::Driving) {
        without_type(l2, LaneType::Parking)
    } else {
        l2
    };
    finished_lanes(l3, widths, cfg.driving_side)
}

/// The single lane of a light rail way.
pub open spec fn light_rail_lane(widths: TypicalWidths) -> LaneSpec {
    LaneSpec { lt: LaneType::LightRail, dir: Direction::Fwd, width: widths.of(LaneType::LightRail) }
}

/// The single lane that stands in for a road the interpreter could not read.
pub open spec fn fallback_lane() -> LaneSpec {
    LaneSpec { lt: LaneType::Driving, dir: Direction::Fwd, width: Distance { ten_thousandths: 10000 } }
}

/// Whether a way is light rail.
pub fn is_railway(tags: &Tags) -> (r: bool)
    requires
        tags.wf(),
    ensures
        r == railway(tags@),
{
    let values = vec!["light_rail", "rail"];
    let r = tags.is_any("railway", values);
    proof {
        if r {
            let i = choose|i: int| 0 <= i < values@.len() && #[trigger] values@[i]@ == tags@["railway"@];
            assert(i == 0 || i == 1);
        }
        if railway(tags@) {
            if tag_is(tags@, "railway"@, "light_rail"@) {
                assert(values@[0]@ == tags@["railway"@]);
            } else {
                assert(values@[1]@ == tags@["railway"@]);
            }
        }
    }
    r
}

fn interpret_all(lanes: &Vec<OsmLane>) -> (r: Vec<LaneSpec>)
    requires
        forall|i: int| 0 <= i < lanes@.len() ==> lane_supported(#[trigger] lanes@[i]),
    ensures
        r@ == interpreted_lanes(lanes@),
{
    let mut r: Vec<LaneSpec> = Vec::new();
    let n = lanes.len();
    for i in 0..n
        invariant
            n == lanes@.len(),
            forall|j: int| 0 <= j < lanes@.len() ==> lane_supported(#[trigger] lanes@[j]),
            r@ == interpreted_lanes(lanes@.take(i as int)),
    {
        let mut more = transform_lane(lanes[i]);
        r.append(&mut more);
        proof {
            lanes@.lemma_flat_map_take_append(|l: OsmLane| lane_specs_of(l), i as int);
        }
    }
    proof {
        assert(lanes@.take(n as int) =~= lanes@);
    }
    r
}

fn without_lane_type(lanes: Vec<LaneSpec>, lt: LaneType) -> (r: Vec<LaneSpec>)
    ensures
        r@ == without_type(lanes@, lt),
{
    let mut r: Vec<LaneSpec> = Vec::new();
    let n = lanes.len();
    for i in 0..n
        invariant
            n == lanes@.len(),
            r@ == without_type(lanes@.take(i as int), lt),
    {
        if lanes[i].lt != lt {
            r.push(lanes[i]);
        }
        proof {
            reveal_with_fuel(Seq::filter, 1);
            assert(lanes@.take(i + 1).drop_last() =~= lanes@.take(i as int));
        }
    }
    proof {
        assert(lanes@.take(n as int) =~= lanes@);
    }
    r
}

fn to_construction(lanes: Vec<LaneSpec>) -> (r: Vec<LaneSpec>)
    ensures
        r@ == under_construction(lanes@),
{
    let mut r: Vec<LaneSpec> = Vec::new();
    let n = lanes.len();
    for i in 0..n
        invariant
            n == lanes@.len(),
            r@ == under_construction(lanes@.take(i as int)),
    {
        let lane = lanes[i];
        proof {
            reveal_with_fuel(Seq::filter, 1);
            assert(lanes@.take(i + 1).drop_last() =~= lanes@.take(i as int));
        }
        if !lane.lt.is_walkable() {
            r.push(LaneSpec { lt: LaneType::Construction, dir: lane.dir, width: lane.width });
            proof {
                let p = |l: LaneSpec| !l.lt.walkable();
                let f = |l: LaneSpec| as_construction(l);
                lanes@.take(i as int).filter(p).lemma_push_map_commute(f, lane);
            }
        }
    }
    proof {
        assert(lanes@.take(n as int) =~= lanes@);
    }
    r
}

fn any_driving(lanes: &Vec<LaneSpec>) -> (r: bool)
    ensures
        r == has_type(lanes@, LaneType::Driving),
{
    let n = lanes.len();
    for i in 0..n
        invariant
            n == lanes@.len(),
            forall|j: int| 0 <= j < i ==> #[trigger] lanes@[j].lt != LaneType::Driving,
    {
        if lanes[i].lt == LaneType::Driving {
            return true;
        }
    }
    false
}

fn finish(lanes: Vec<LaneSpec>, widths: &TypicalWidths, side: DrivingSide) -> (r: Vec<LaneSpec>)
    ensures
        r@ == finished_lanes(lanes@, *widths, side),
{
    let mut r: Vec<LaneSpec> = Vec::new();
    let n = lanes.len();
    for i in 0..n
        invariant
            n == lanes@.len(),
            r@ == finished_lanes(lanes@, *widths, side).take(i as int),
    {
        let lane = lanes[i];
        let dir = if lane.lt == LaneType::Sidewalk || lane.lt == LaneType::Shoulder {
            if i == 0 {
                if side == DrivingSide::Right {
                    Direction::Back
                } else {
                    Direction::Fwd
                }
            } else {
                if side == DrivingSide::Right {
                    Direction::Fwd
                } else {
                    Direction::Back
                }
            }
        } else {
            lane.dir
        };
        r.push(LaneSpec { lt: lane.lt, dir, width: widths.width(lane.lt) });
        proof {
            assert(r@ =~= finished_lanes(lanes@, *widths, side).take(i + 1));
        }
    }
    proof {
        assert(r@ =~= finished_lanes(lanes@, *widths, side));
    }
    r
}

/// The lanes of a way, left to right, from its tags.
///
/// `interpreted` is what the lane interpreter made of `transform_tags(orig_tags, cfg)`
/// in a locale driving on `cfg.driving_side`, or `None` where it failed. A light rail
/// way needs no interpretation: its lanes do not depend on `interpreted`.
pub open spec fn lane_specs(
    orig: Map<Seq<char>, Seq<char>>,
    cfg: MapConfig,
    widths: TypicalWidths,
    interpreted: Option<(Seq<OsmLane>, bool)>,
) -> Seq<LaneSpec> {
    if railway(orig) {
        seq![light_rail_lane(widths)]
    } else {
        match interpreted {
            Some((lanes, construction)) => cleaned_lanes(orig, cfg, widths, lanes, construction),
            None => seq![fallback_lane()],
        }
    }
}

pub open spec fn road_view(road: Option<OsmRoad>) -> Option<(Seq<OsmLane>, bool)> {
    match road {
        Some(r) => Some((r.lanes@, r.construction)),
        None => None,
    }
}

/// Every lane of the interpreted road has a lane spec.
pub open spec fn road_supported(road: Option<OsmRoad>) -> bool {
    road matches Some(r) ==> forall|i: int|
        0 <= i < r.lanes@.len() ==> lane_supported(#[trigger] r.lanes@[i])
}

/// What holds of every element of `s` holds of every element of a filter of `s`.
proof fn lemma_filter_keeps(s: Seq<LaneSpec>, pred: spec_fn(LaneSpec) -> bool, q: spec_fn(LaneSpec) -> bool)
    requires
        forall|i: int| 0 <= i < s.len() ==> q(#[trigger] s[i]),
    ensures
        forall|i: int| 0 <= i < s.filter(pred).len() ==> q(#[trigger] s.filter(pred)[i]),
    decreases s.len(),
{
    reveal_with_fuel(Seq::filter, 1);
    if s.len() > 0 {
        let rest = s.drop_last();
        assert forall|i: int| 0 <= i < rest.len() implies q(#[trigger] rest[i]) by {
            assert(rest[i] == s[i]);
        }
        lemma_filter_keeps(rest, pred, q);
        let f = rest.filter(pred);
        assert forall|i: int| 0 <= i < s.filter(pred).len() implies q(#[trigger] s.filter(pred)[i]) by {
            if i < f.len() {
                assert(s.filter(pred)[i] == f[i]);
            } else {
                assert(s.filter(pred)[i] == s.last());
            }
        }
    }
}

/// A filter that every element passes changes nothing.
proof fn lemma_filter_all_pass(s: Seq<LaneSpec>, pred: spec_fn(LaneSpec) -> bool)
    requires
        forall|i: int| 0 <= i < s.len() ==> pred(#[trigger] s[i]),
    ensures
        s.filter(pred) == s,
    decreases s.len(),
{
    reveal_with_fuel(Seq::filter, 1);
    if s.len() > 0 {
        let rest = s.drop_last();
        assert forall|i: int| 0 <= i < rest.len() implies pred(#[trigger] rest[i]) by {
            assert(rest[i] == s[i]);
        }
        lemma_filter_all_pass(rest, pred);
        assert(s.last() == s[s.len() - 1]);
        assert(rest.push(s.last()) =~= s);
    }
}

/// Dropping the lanes of one type: no lane of that type is left, every lane
/// left is one of the input's, every lane of another type stays, and a road
/// without lanes of that type is left as it is.
pub proof fn lemma_without_type_laws(s: Seq<LaneSpec>, lt: LaneType)
    ensures
        without_type(s, lt).len() <= s.len(),
        forall|i: int|
            0 <= i < without_type(s, lt).len() ==> #[trigger] without_type(s, lt)[i].lt != lt
                && s.contains(without_type(s, lt)[i]),
        forall|i: int| 0 <= i < s.len() && s[i].lt != lt ==> without_type(s, lt).contains(#[trigger] s[i]),
        !has_type(s, lt) ==> without_type(s, lt) == s,
{
    let pred = |l: LaneSpec| l.lt != lt;
    let r = s.filter(pred);
    s.lemma_filter_len(pred);
    assert forall|i: int| 0 <= i < r.len() implies #[trigger] r[i].lt != lt && s.contains(r[i]) by {
        s.lemma_filter_pred(pred, i);
        assert(r.contains(r[i]));
        s.lemma_filter_contains_rev(pred, r[i]);
    }
    assert forall|i: int| 0 <= i < s.len() && s[i].lt != lt implies r.contains(#[trigger] s[i]) by {
        s.lemma_filter_contains(pred, i);
    }
    if !has_type(s, lt) {
        assert forall|i: int| 0 <= i < s.len() implies pred(#[trigger] s[i]) by {
            if s[i].lt == lt {
                assert(has_type(s, lt));
            }
        }
        lemma_filter_all_pass(s, pred);
    }
}

/// On a construction site: every lane left is a construction lane; every lane
/// that is not walkable stays, as a construction lane of the same direction
/// and width; every lane left comes from such a lane; where no lane is
/// walkable, the lanes keep their number and order.
pub proof fn lemma_under_construction_laws(s: Seq<LaneSpec>)
    ensures
        under_construction(s).len() <= s.len(),
        forall|i: int|
            0 <= i < under_construction(s).len() ==> (#[trigger] under_construction(s)[i]).lt
                == LaneType::Construction,
        forall|i: int|
            0 <= i < s.len() && s[i].lt != LaneType::Sidewalk && s[i].lt != LaneType::Shoulder
                ==> under_construction(s).contains(
                LaneSpec { lt: LaneType::Construction, dir: (#[trigger] s[i]).dir, width: s[i].width },
            ),
        forall|i: int|
            0 <= i < under_construction(s).len() ==> exists|j: int|
                0 <= j < s.len() && s[j].lt != LaneType::Sidewalk && s[j].lt != LaneType::Shoulder
                    && (#[trigger] under_construction(s)[i]).dir == #[trigger] s[j].dir
                    && under_construction(s)[i].width == s[j].width,
        (forall|i: int| 0 <= i < s.len() ==> !(#[trigger] s[i]).lt.walkable()) ==> {
            &&& under_construction(s).len() == s.len()
            &&& forall|i: int|
                0 <= i < s.len() ==> #[trigger] under_construction(s)[i] == LaneSpec {
                    lt: LaneType::Construction,
                    dir: s[i].dir,
                    width: s[i].width,
                }
        },
{
    let pred = |l: LaneSpec| !l.lt.walkable();
    let f = |l: LaneSpec| as_construction(l);
    let kept = s.filter(pred);
    let r = under_construction(s);
    assert(r == kept.map_values(f));
    s.lemma_filter_len(pred);
    assert forall|i: int|
        0 <= i < s.len() && s[i].lt != LaneType::Sidewalk && s[i].lt != LaneType::Shoulder implies r.contains(
        LaneSpec { lt: LaneType::Construction, dir: (#[trigger] s[i]).dir, width: s[i].width },
    ) by {
        s.lemma_filter_contains(pred, i);
        let j = choose|j: int| 0 <= j < kept.len() && kept[j] == s[i];
        assert(r[j] == f(kept[j]));
    }
    assert forall|i: int| 0 <= i < r.len() implies exists|j: int|
        0 <= j < s.len() && s[j].lt != LaneType::Sidewalk && s[j].lt != LaneType::Shoulder
            && (#[trigger] r[i]).dir == #[trigger] s[j].dir && r[i].width == s[j].width by {
        s.lemma_filter_pred(pred, i);
        assert(kept.contains(kept[i]));
        s.lemma_filter_contains_rev(pred, kept[i]);
        let j = choose|j: int| 0 <= j < s.len() && s[j] == kept[i];
        assert(s[j].dir == r[i].dir);
    }
    if forall|i: int| 0 <= i < s.len() ==> !(#[trigger] s[i]).lt.walkable() {
        assert forall|i: int| 0 <= i < s.len() implies pred(#[trigger] s[i]) by {}
        lemma_filter_all_pass(s, pred);
    }
}

/// The lane specs of the interpreted lanes are those of each lane in turn, left
/// to right: none for no lanes, and those of the lanes so far followed by those
/// of the next lane.
pub proof fn lemma_interpreted_lanes_laws(lanes: Seq<OsmLane>, next: OsmLane)
    ensures
        interpreted_lanes(Seq::<OsmLane>::empty()) == Seq::<LaneSpec>::empty(),
        interpreted_lanes(lanes.push(next)) == interpreted_lanes(lanes) + lane_specs_of(next),
{
    let f = |l: OsmLane| lane_specs_of(l);
    assert(Seq::<OsmLane>::empty().map_values(f) =~= Seq::<Seq<LaneSpec>>::empty());
    let all = lanes.push(next);
    all.lemma_flat_map_take_append(f, lanes.len() as int);
    assert(all.take(lanes.len() + 1int) =~= all);
    assert(all.take(lanes.len() as int) =~= lanes);
}

/// On an ordinary interpreted road (not light rail, not a construction site,
/// where people may walk, with a driving lane) cleaning up drops no lane:
/// every lane keeps its place and type, and every lane that is neither a
/// sidewalk nor a shoulder keeps its direction.
pub proof fn lemma_ordinary_road_keeps_lanes(
    orig: Map<Seq<char>, Seq<char>>,
    cfg: MapConfig,
    widths: TypicalWidths,
    lanes: Seq<OsmLane>,
)
    requires
        !railway(orig),
        !unwalkable_road(orig),
        has_type(interpreted_lanes(lanes), LaneType::Driving),
    ensures
        ({
            let l = interpreted_lanes(lanes);
            let r = lane_specs(orig, cfg, widths, Some((lanes, false)));
            &&& r.len() == l.len()
            &&& forall|i: int|
                0 <= i < l.len() ==> {
                    &&& (#[trigger] r[i]).lt == l[i].lt
                    &&& (l[i].lt != LaneType::Sidewalk && l[i].lt != LaneType::Shoulder) ==> r[i].dir
                        == l[i].dir
                }
        }),
{
    let l = interpreted_lanes(lanes);
    lemma_finished_lanes_laws(l, widths, cfg.driving_side);
}

/// The tag rules of the lanes of a way, stated on the tags themselves:
/// - a way tagged railway=light_rail or railway=rail is one forward light rail
///   lane of the typical light rail width;
/// - any other way that the interpreter could not read is one forward driving
///   lane one metre wide;
/// - a motorway, motorway link or construction site, or a road tagged foot=no,
///   access=no or motorroad=yes, has no shoulder;
/// - a sidewalk or shoulder runs backward exactly when it is the first lane on
///   a right-hand-driving road or a later lane on a left-hand-driving road.
pub proof fn lemma_lane_specs_tag_rules(
    orig: Map<Seq<char>, Seq<char>>,
    cfg: MapConfig,
    widths: TypicalWidths,
    interpreted: Option<(Seq<OsmLane>, bool)>,
)
    ensures
        ({
            let r = lane_specs(orig, cfg, widths, interpreted);
            let rail = (orig.contains_key("railway"@) && (orig["railway"@] == "light_rail"@
                || orig["railway"@] == "rail"@));
            &&& rail ==> r == seq![
                LaneSpec { lt: LaneType::LightRail, dir: Direction::Fwd, width: widths.light_rail },
            ]
            &&& (!rail && interpreted is None) ==> r == seq![
                LaneSpec {
                    lt: LaneType::Driving,
                    dir: Direction::Fwd,
                    width: Distance { ten_thousandths: 10000 },
                },
            ]
            &&& ((orig.contains_key("highway"@) && (orig["highway"@] == "motorway"@
                || orig["highway"@] == "motorway_link"@ || orig["highway"@] == "construction"@))
                || (orig.contains_key("foot"@) && orig["foot"@] == "no"@) || (orig.contains_key(
                "access"@,
            ) && orig["access"@] == "no"@) || (orig.contains_key("motorroad"@)
                && orig["motorroad"@] == "yes"@)) ==> forall|i: int|
                0 <= i < r.len() ==> (#[trigger] r[i]).lt != LaneType::Shoulder
            &&& forall|i: int|
                0 <= i < r.len() && (r[i].lt == LaneType::Sidewalk || r[i].lt == LaneType::Shoulder)
                    ==> ((#[trigger] r[i].dir == Direction::Back) == ((i == 0) == (cfg.driving_side
                    == DrivingSide::Right)))
        }),
{
    lemma_lane_specs_laws(orig, cfg, widths, interpreted);
    let r = lane_specs(orig, cfg, widths, interpreted);
    if unwalkable_road(orig) {
        assert forall|i: int| 0 <= i < r.len() implies (#[trigger] r[i]).lt != LaneType::Shoulder by {
            if r[i].lt == LaneType::Shoulder {
                assert(has_type(r, LaneType::Shoulder));
            }
        }
    }
}

/// Laws of the lanes of a way, whatever the interpreter answered:
/// - every sidewalk and shoulder runs the way of its edge of the road;
/// - a road with a parking lane has a driving lane;
/// - a road where nobody walks has no shoulder;
/// - every lane of an interpreted construction site is a construction lane;
/// - unless the interpreter failed, every lane has the typical width of its type.
pub proof fn lemma_lane_specs_laws(
    orig: Map<Seq<char>, Seq<char>>,
    cfg: MapConfig,
    widths: TypicalWidths,
    interpreted: Option<(Seq<OsmLane>, bool)>,
)
    ensures
        ({
            let r = lane_specs(orig, cfg, widths, interpreted);
            &&& forall|i: int|
                0 <= i < r.len() && (r[i].lt == LaneType::Sidewalk || r[i].lt == LaneType::Shoulder)
                    ==> #[trigger] r[i].dir == outer_direction(i == 0, cfg.driving_side)
            &&& has_type(r, LaneType::Parking) ==> has_type(r, LaneType::Driving)
            &&& unwalkable_road(orig) ==> !has_type(r, LaneType::Shoulder)
            &&& (!railway(orig) && interpreted matches Some((_, true))) ==> forall|i: int|
                0 <= i < r.len() ==> #[trigger] r[i].lt == LaneType::Construction
            &&& (railway(orig) || interpreted is Some) ==> forall|i: int|
                0 <= i < r.len() ==> #[trigger] r[i].width == widths.of(r[i].lt)
        }),
{
    let r = lane_specs(orig, cfg, widths, interpreted);
    if railway(orig) {
        assert(r[0].lt == LaneType::LightRail);
        return;
    }
    match interpreted {
        None => {
            assert(r[0].lt == LaneType::Driving);
        },
        Some((lanes, construction)) => {
            let l0 = interpreted_lanes(lanes);
            let l1 = if unwalkable_road(orig) {
                without_type(l0, LaneType::Shoulder)
            } else {
                l0
            };
            let l2 = if construction {
                under_construction(l1)
            } else {
                l1
            };
            let l3 = if !has_type(l2, LaneType::Driving) {
                without_type(l2, LaneType::Parking)
            } else {
                l2
            };
            assert(r == finished_lanes(l3, widths, cfg.driving_side));
            assert(forall|i: int| 0 <= i < r.len() ==> #[trigger] r[i].lt == l3[i].lt);
            let not_shoulder = |l: LaneSpec| l.lt != LaneType::Shoulder;
            let not_parking = |l: LaneSpec| l.lt != LaneType::Parking;
            let is_construction = |l: LaneSpec| l.lt == LaneType::Construction;
            if unwalkable_road(orig) {
                assert forall|i: int| 0 <= i < l1.len() implies not_shoulder(#[trigger] l1[i]) by {
                    l0.lemma_filter_pred(not_shoulder, i);
                }
                if !construction {
                    assert(forall|i: int| 0 <= i < l2.len() ==> not_shoulder(#[trigger] l2[i]));
                } else {
                    assert(forall|i: int| 0 <= i < l2.len() ==> not_shoulder(#[trigger] l2[i]));
                }
                if !has_type(l2, LaneType::Driving) {
                    lemma_filter_keeps(l2, not_parking, not_shoulder);
                }
                assert(forall|i: int| 0 <= i < l3.len() ==> not_shoulder(#[trigger] l3[i]));
            }
            if construction {
                assert(forall|i: int| 0 <= i < l2.len() ==> is_construction(#[trigger] l2[i]));
                if !has_type(l2, LaneType::Driving) {
                    lemma_filter_keeps(l2, not_parking, is_construction);
                }
                assert(forall|i: int| 0 <= i < l3.len() ==> is_construction(#[trigger] l3[i]));
            }
            if !has_type(l2, LaneType::Driving) {
                assert forall|i: int| 0 <= i < l3.len() implies not_parking(#[trigger] l3[i]) by {
                    l2.lemma_filter_pred(not_parking, i);
                }
            } else {
                let j = choose|j: int| 0 <= j < l2.len() && #[trigger] l2[j].lt == LaneType::Driving;
                assert(r[j].lt == LaneType::Driving);
            }
        },
    }
}

/// The lanes of a way, left to right. See `lane_specs` for what `interpreted` is.
///
/// After the lanes that the interpreter found are turned into lane specs:
/// roads where nobody walks lose their shoulders; on a construction site the
/// walkable lanes go and every other lane becomes a construction lane; where no
/// lane is for driving, parking lanes go; every lane takes its typical width;
/// sidewalks and shoulders take the direction of their edge of the road.
pub fn get_lane_specs_ltr(
    orig_tags: &Tags,
    cfg: &MapConfig,
    widths: &TypicalWidths,
    interpreted: Option<OsmRoad>,
) -> (r: Vec<LaneSpec>)
    requires
        orig_tags.wf(),
        !railway(orig_tags@) ==> road_supported(interpreted),
    ensures
        r@ == lane_specs(orig_tags@, *cfg, *widths, road_view(interpreted)),
{
    if is_railway(orig_tags) {
        let r = vec![LaneSpec {
            lt: LaneType::LightRail,
            dir: Direction::Fwd,
            width: widths.width(LaneType::LightRail),
        }];
        assert(r@ =~= seq![light_rail_lane(*widths)]);
        return r;
    }
    match interpreted {
        Some(road) => {
            let mut result = interpret_all(&road.lanes);
            let unwalkable = orig_tags.is_any(
                "highway",
                vec!["motorway", "motorway_link", "construction"],
            ) || orig_tags.is("foot", "no") || orig_tags.is("access", "no") || orig_tags.is(
                "motorroad",
                "yes",
            );
            if unwalkable {
                result = without_lane_type(result, LaneType::Shoulder);
            }
            if road.construction {
                result = to_construction(result);
            }
            if !any_driving(&result) {
                result = without_lane_type(result, LaneType::Parking);
            }
            finish(result, widths, cfg.driving_side)
        },
        None => {
            let r = vec![LaneSpec {
                lt: LaneType::Driving,
                dir: Direction::Fwd,
                width: Distance::one_meter(),
            }];
            assert(r@ =~= seq![fallback_lane()]);
            r
        },
    }
}

} // verus!
