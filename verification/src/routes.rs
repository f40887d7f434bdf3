//! The decisions of the route explorer: a screen that previews the path from a
//! start to whatever border or building the mouse hovers over, under a routing
//! profile picked in its panel.
use vstd::prelude::*;

use crate::tags::str_eq;

verus! {

/// How a trip is made.
#[derive(Clone, Copy, Debug, PartialEq, Eq, Structural)]
pub enum TripMode {
    Walk,
    Bike,
    Drive,
}

/// How paths are found. The biking penalties are counted in tenths.
#[derive(Clone, Copy, Debug, PartialEq, Eq, Structural)]
pub enum RoutingProfile {
    Driving,
    Biking { bike_lane_penalty: isize, bus_lane_penalty: isize, driving_lane_penalty: isize },
    Walking,
}

impl RoutingProfile {
    /// The profile the explorer starts with: biking, with penalties 1.0 on bike
    /// lanes, 1.1 on bus lanes and 1.5 on driving lanes.
    pub fn default_biking() -> (p: RoutingProfile)
        ensures
            p == (RoutingProfile::Biking {
                bike_lane_penalty: 10,
                bus_lane_penalty: 11,
                driving_lane_penalty: 15,
            }),
    {
        RoutingProfile::Biking { bike_lane_penalty: 10, bus_lane_penalty: 11, driving_lane_penalty: 15 }
    }
}

/// The mode of trip that paths are found for under `profile`.
pub open spec fn mode_of(profile: RoutingProfile) -> TripMode {
    match profile {
        RoutingProfile::Driving => TripMode::Drive,
        RoutingProfile::Walking => TripMode::Walk,
        RoutingProfile::Biking { .. } => TripMode::Bike,
    }
}

/// The mode of trip that paths are found for under `profile`.
pub fn profile_mode(profile: RoutingProfile) -> (m: TripMode)
    ensures
        m == mode_of(profile),
{
    match profile {
        RoutingProfile::Driving => TripMode::Drive,
        RoutingProfile::Walking => TripMode::Walk,
        RoutingProfile::Biking { .. } => TripMode::Bike,
    }
}

/// The three penalty spinners, in tenths, each running from 0 to 20.
#[derive(Clone, Copy, Debug, PartialEq, Eq, Structural)]
pub struct PenaltySpinners {
    pub bike_lane: isize,
    pub bus_lane: isize,
    pub driving_lane: isize,
}

/// The state of the panel's profile controls: one button per profile, the
/// button of the current profile disabled, and the penalty spinners while
/// biking.
#[derive(Clone, Copy, Debug, PartialEq, Eq, Structural)]
pub struct ProfileControls {
    pub bikes_enabled: bool,
    pub cars_enabled: bool,
    pub pedestrians_enabled: bool,
    pub spinners: Option<PenaltySpinners>,
}

pub open spec fn controls_for(profile: RoutingProfile) -> ProfileControls {
    ProfileControls {
        bikes_enabled: !(profile is Biking),
        cars_enabled: !(profile is Driving),
        pedestrians_enabled: !(profile is Walking),
        spinners: match profile {
            RoutingProfile::Biking { bike_lane_penalty, bus_lane_penalty, driving_lane_penalty } =>
                Some(
                PenaltySpinners {
                    bike_lane: bike_lane_penalty,
                    bus_lane: bus_lane_penalty,
                    driving_lane: driving_lane_penalty,
                },
            ),
            _ => None,
        },
    }
}

/// The controls disable exactly the button of the current profile, and show
/// the penalty spinners, set to the profile's penalties, exactly while biking.
pub proof fn lemma_controls_for_laws(profile: RoutingProfile)
    ensures
        controls_for(profile).bikes_enabled == !(profile is Biking),
        controls_for(profile).cars_enabled == !(profile is Driving),
        controls_for(profile).pedestrians_enabled == !(profile is Walking),
        controls_for(profile).spinners is Some == profile is Biking,
        match profile {
            RoutingProfile::Biking { bike_lane_penalty, bus_lane_penalty, driving_lane_penalty } => {
                let sp = controls_for(profile).spinners->0;
                &&& sp.bike_lane == bike_lane_penalty
                &&& sp.bus_lane == bus_lane_penalty
                &&& sp.driving_lane == driving_lane_penalty
            },
            _ => true,
        },
{
}

/// The controls that show `profile`.
pub fn profile_to_controls(profile: &RoutingProfile) -> (c: ProfileControls)
    ensures
        c == controls_for(*profile),
        c.bikes_enabled == !(*profile is Biking),
        c.cars_enabled == !(*profile is Driving),
        c.pedestrians_enabled == !(*profile is Walking),
        c.spinners is Some == *profile is Biking,
{
    let spinners = match *profile {
        RoutingProfile::Biking { bike_lane_penalty, bus_lane_penalty, driving_lane_penalty } => Some(
            PenaltySpinners {
                bike_lane: bike_lane_penalty,
                bus_lane: bus_lane_penalty,
                driving_lane: driving_lane_penalty,
            },
        ),
        _ => None,
    };
    ProfileControls {
        bikes_enabled: !matches!(*profile, RoutingProfile::Biking { .. }),
        cars_enabled: !matches!(*profile, RoutingProfile::Driving),
        pedestrians_enabled: !matches!(*profile, RoutingProfile::Walking),
        spinners,
    }
}

pub open spec fn profile_shown(c: ProfileControls) -> RoutingProfile {
    if !c.cars_enabled {
        RoutingProfile::Driving
    } else if !c.pedestrians_enabled {
        RoutingProfile::Walking
    } else {
        let s = c.spinners->0;
        RoutingProfile::Biking {
            bike_lane_penalty: s.bike_lane,
            bus_lane_penalty: s.bus_lane,
            driving_lane_penalty: s.driving_lane,
        }
    }
}

/// The profile that the controls show: driving where the cars button is
/// disabled, else walking where the pedestrians button is, else biking with the
/// spinners' penalties.
pub fn controls_to_profile(c: &ProfileControls) -> (p: RoutingProfile)
    requires
        c.cars_enabled && c.pedestrians_enabled ==> c.spinners is Some,
    ensures
        p == profile_shown(*c),
{
    if !c.cars_enabled {
        return RoutingProfile::Driving;
    }
    if !c.pedestrians_enabled {
        return RoutingProfile::Walking;
    }
    match c.spinners {
        Some(s) => RoutingProfile::Biking {
            bike_lane_penalty: s.bike_lane,
            bus_lane_penalty: s.bus_lane,
            driving_lane_penalty: s.driving_lane,
        },
        None => RoutingProfile::Driving,
    }
}

/// The panel reads back the profile it was built to show.
pub proof fn lemma_controls_round_trip(profile: RoutingProfile)
    ensures
        ({
            let c = controls_for(profile);
            &&& c.cars_enabled && c.pedestrians_enabled ==> c.spinners is Some
            &&& profile_shown(c) == profile
        }),
{
}

/// What the explorer does about its panel.
#[derive(Clone, Copy, Debug, PartialEq, Eq, Structural)]
pub enum PanelAction {
    /// Nothing happened in the panel.
    Nothing,
    /// "close" was clicked: leave the screen.
    Close,
    /// A profile button was clicked: show the controls of this profile, then
    /// find the path again.
    ShowProfile(RoutingProfile),
    /// A control changed: find the path again.
    Recalculate,
}

/// The buttons of the explorer's panel.
pub open spec fn explorer_button(name: Seq<char>) -> bool {
    name == "close"@ || name == "bikes"@ || name == "cars"@ || name == "pedestrians"@
}

pub open spec fn panel_action_for(clicked: Option<Seq<char>>, changed: bool) -> PanelAction {
    match clicked {
        Some(name) => if name == "close"@ {
            PanelAction::Close
        } else if name == "bikes"@ {
            PanelAction::ShowProfile(
                RoutingProfile::Biking {
                    bike_lane_penalty: 10,
                    bus_lane_penalty: 11,
                    driving_lane_penalty: 15,
                },
            )
        } else if name == "cars"@ {
            PanelAction::ShowProfile(RoutingProfile::Driving)
        } else {
            PanelAction::ShowProfile(RoutingProfile::Walking)
        },
        None => if changed {
            PanelAction::Recalculate
        } else {
            PanelAction::Nothing
        },
    }
}

/// The explorer's answer to a click on the button named `clicked`, to a change
/// of a control, or to neither.
pub fn panel_action(clicked: Option<&str>, changed: bool) -> (a: PanelAction)
    requires
        clicked matches Some(name) ==> explorer_button(name@),
    ensures
        a == panel_action_for(
            match clicked {
                Some(name) => Some(name@),
                None => None,
            },
            changed,
        ),
{
    match clicked {
        Some(name) => {
            if str_eq(name, "close") {
                PanelAction::Close
            } else if str_eq(name, "bikes") {
                PanelAction::ShowProfile(RoutingProfile::default_biking())
            } else if str_eq(name, "cars") {
                PanelAction::ShowProfile(RoutingProfile::Driving)
            } else {
                PanelAction::ShowProfile(RoutingProfile::Walking)
            }
        },
        None => {
            if changed {
                PanelAction::Recalculate
            } else {
                PanelAction::Nothing
            }
        },
    }
}

/// Where a trip starts or ends.
#[derive(Clone, Copy, Debug, PartialEq, Eq, Structural)]
pub enum TripEndpoint {
    /// An intersection at the border of the map.
    Border(usize),
    /// A building.
    Bldg(usize),
    /// Somewhere along a lane.
    SuddenlyAppear(usize),
}

/// What the mouse selects on the map.
#[derive(Clone, Copy, Debug, PartialEq, Eq, Structural)]
pub enum Selection {
    Intersection(usize),
    Building(usize),
    /// Any other kind of object.
    Other,
}

pub open spec fn selection_kept(sel: Option<Selection>, at_border: bool) -> Option<Selection> {
    match sel {
        Some(Selection::Intersection(_)) => if at_border {
            sel
        } else {
            None
        },
        Some(Selection::Building(_)) => sel,
        _ => None,
    }
}

/// Only border intersections and buildings can be selected as a goal;
/// `at_border` tells whether the selected intersection lies at the border.
pub fn filter_selection(sel: Option<Selection>, at_border: bool) -> (r: Option<Selection>)
    ensures
        r == selection_kept(sel, at_border),
        !(r matches Some(Selection::Other)),
{
    let drop = match sel {
        Some(Selection::Intersection(_)) => !at_border,
        Some(Selection::Building(_)) => false,
        _ => true,
    };
    if drop {
        None
    } else {
        sel
    }
}

pub open spec fn endpoint_of(sel: Option<Selection>) -> Option<TripEndpoint> {
    match sel {
        Some(Selection::Intersection(i)) => Some(TripEndpoint::Border(i)),
        Some(Selection::Building(b)) => Some(TripEndpoint::Bldg(b)),
        _ => None,
    }
}

/// The endpoint that the selection stands for.
pub fn hovered_endpoint(sel: Option<Selection>) -> (r: Option<TripEndpoint>)
    requires
        !(sel matches Some(Selection::Other)),
    ensures
        r == endpoint_of(sel),
{
    match sel {
        Some(Selection::Intersection(i)) => Some(TripEndpoint::Border(i)),
        Some(Selection::Building(b)) => Some(TripEndpoint::Bldg(b)),
        _ => None,
    }
}

/// The goal of the explored route, and whether the user fixed it by clicking.
#[derive(Clone, Copy, Debug, PartialEq, Eq, Structural)]
pub struct RouteGoal {
    pub endpoint: TripEndpoint,
    pub confirmed: bool,
}

/// The route explorer's choice of start and goal.
#[derive(Clone, Copy, Debug, PartialEq, Eq, Structural)]
pub struct RouteExplorer {
    pub start: TripEndpoint,
    pub goal: Option<RouteGoal>,
}

pub open spec fn hovered_goal(e: RouteExplorer, hovering: Option<TripEndpoint>) -> (
    RouteExplorer,
    bool,
) {
    if e.goal matches Some(g) && g.confirmed {
        (e, false)
    } else {
        match hovering {
            Some(h) => if e.start != h {
                if e.goal matches Some(g) && g.endpoint == h {
                    (e, false)
                } else {
                    (RouteExplorer { goal: Some(RouteGoal { endpoint: h, confirmed: false }), ..e }, true)
                }
            } else {
                (RouteExplorer { goal: None, ..e }, false)
            },
            None => (RouteExplorer { goal: None, ..e }, false),
        }
    }
}

impl RouteExplorer {
    /// The goal is never the start.
    pub open spec fn wf(self) -> bool {
        self.goal matches Some(g) ==> g.endpoint != self.start
    }

    /// An explorer from `start`, with no goal yet.
    pub fn new(start: TripEndpoint) -> (e: RouteExplorer)
        ensures
            e.wf(),
            e.start == start,
            e.goal is None,
    {
        RouteExplorer { start, goal: None }
    }

    /// Whether the user has fixed the goal.
    pub fn goal_confirmed(&self) -> (r: bool)
        ensures
            r == (self.goal matches Some(g) && g.confirmed),
    {
        match self.goal {
            Some(g) => g.confirmed,
            None => false,
        }
    }

    /// Follows the mouse to a new goal. A confirmed goal stays. Hovering over
    /// the start, or over nothing, clears the goal; hovering over anything else
    /// makes it the unconfirmed goal. Answers whether the goal changed, so that
    /// the path has to be found again.
    pub fn hover(&mut self, hovering: Option<TripEndpoint>) -> (recalc: bool)
        ensures
            (*final(self), recalc) == hovered_goal(*old(self), hovering),
    {
        if self.goal_confirmed() {
            return false;
        }
        match hovering {
            Some(h) => {
                if self.start != h {
                    let same = match self.goal {
                        Some(g) => g.endpoint == h,
                        None => false,
                    };
                    if !same {
                        self.goal = Some(RouteGoal { endpoint: h, confirmed: false });
                        return true;
                    }
                    false
                } else {
                    self.goal = None;
                    false
                }
            },
            None => {
                self.goal = None;
                false
            },
        }
    }

    /// The user clicked "end here": the goal, if there is one, is fixed.
    /// Answers whether there was a goal to fix.
    pub fn confirm_goal(&mut self) -> (fixed: bool)
        ensures
            fixed == (old(self).goal is Some),
            final(self).start == old(self).start,
            final(self).goal == (match old(self).goal {
                Some(g) => Some(RouteGoal { endpoint: g.endpoint, confirmed: true }),
                None => None,
            }),
    {
        match self.goal {
            Some(g) => {
                self.goal = Some(RouteGoal { endpoint: g.endpoint, confirmed: true });
                true
            },
            None => false,
        }
    }
}

/// Laws of the explorer's goal:
/// - following the mouse and confirming never make the start the goal;
/// - a confirmed goal stays whatever the mouse does;
/// - hovering twice over the same thing changes nothing the second time.
pub proof fn lemma_goal_laws(e: RouteExplorer, hovering: Option<TripEndpoint>)
    requires
        e.wf(),
    ensures
        hovered_goal(e, hovering).0.wf(),
        hovered_goal(e, hovering).0.start == e.start,
        (e.goal matches Some(g) && g.confirmed) ==> hovered_goal(e, hovering) == (e, false),
        hovered_goal(hovered_goal(e, hovering).0, hovering) == (hovered_goal(e, hovering).0, false),
{
}

/// Following the mouse while the goal is not confirmed: hovering over anything
/// but the start makes it the goal, unconfirmed; hovering over the start or over
/// nothing leaves no goal; the path is found again exactly when the goal
/// changed to something new.
pub proof fn lemma_hover_sets_goal(e: RouteExplorer, hovering: Option<TripEndpoint>)
    requires
        !(e.goal matches Some(g) && g.confirmed),
    ensures
        ({
            let (after, recalc) = hovered_goal(e, hovering);
            &&& after.start == e.start
            &&& forall|h: TripEndpoint|
                hovering == Some(h) && h != e.start ==> #[trigger] after.goal == Some(
                    RouteGoal { endpoint: h, confirmed: false },
                )
            &&& (hovering is None || hovering == Some(e.start)) ==> after.goal is None
            &&& recalc == (after.goal is Some && after.goal != e.goal)
        }),
{
}

/// Only border intersections and buildings are kept as a selection, and each
/// kept selection stands for the endpoint at the same object.
pub proof fn lemma_selection_laws(sel: Option<Selection>, at_border: bool)
    ensures
        (sel matches Some(Selection::Building(_))) ==> selection_kept(sel, at_border) == sel,
        (sel matches Some(Selection::Intersection(_))) ==> (selection_kept(sel, at_border) == sel
            <==> at_border),
        (sel matches Some(Selection::Intersection(_))) && !at_border ==> selection_kept(
            sel,
            at_border,
        ) is None,
        (sel is None || sel == Some(Selection::Other)) ==> selection_kept(sel, at_border) is None,
        forall|i: usize|
            endpoint_of(Some(Selection::Intersection(i))) == Some(TripEndpoint::Border(i))
                && #[trigger] endpoint_of(Some(Selection::Building(i))) == Some(
                TripEndpoint::Bldg(i),
            ),
        endpoint_of(None) is None,
{
}

/// Each profile button shows a profile of its own trip mode: "bikes" biking,
/// "cars" driving, "pedestrians" walking; "close" closes, and a changed control
/// asks for the path again.
pub proof fn lemma_panel_buttons(changed: bool)
    ensures
        panel_action_for(Some("close"@), changed) == PanelAction::Close,
        panel_action_for(Some("bikes"@), changed) matches PanelAction::ShowProfile(p) && mode_of(p)
            == TripMode::Bike,
        panel_action_for(Some("cars"@), changed) matches PanelAction::ShowProfile(p) && mode_of(p)
            == TripMode::Drive,
        panel_action_for(Some("pedestrians"@), changed) matches PanelAction::ShowProfile(p)
            && mode_of(p) == TripMode::Walk,
        panel_action_for(None, true) == PanelAction::Recalculate,
        panel_action_for(None, false) == PanelAction::Nothing,
{
    reveal_strlit("close");
    reveal_strlit("bikes");
    reveal_strlit("cars");
    reveal_strlit("pedestrians");
    assert("bikes"@ != "close"@) by {
        assert("bikes"@[0] != "close"@[0]);
    }
    assert("cars"@ != "close"@) by {
        assert("cars"@.len() != "close"@.len());
    }
    assert("cars"@ != "bikes"@) by {
        assert("cars"@.len() != "bikes"@.len());
    }
    assert("pedestrians"@ != "close"@) by {
        assert("pedestrians"@.len() != "close"@.len());
    }
    assert("pedestrians"@ != "bikes"@) by {
        assert("pedestrians"@.len() != "bikes"@.len());
    }
    assert("pedestrians"@ != "cars"@) by {
        assert("pedestrians"@.len() != "cars"@.len());
    }
}

} // verus!
