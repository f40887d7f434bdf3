use abstreet::routes::{
    controls_to_profile, filter_selection, hovered_endpoint, panel_action, profile_mode,
    profile_to_controls, PanelAction, PenaltySpinners, RouteExplorer, RouteGoal,
    RoutingProfile, Selection, TripEndpoint, TripMode,
};

#[test]
fn default_biking_penalties() {
    assert_eq!(
        RoutingProfile::default_biking(),
        RoutingProfile::Biking { bike_lane_penalty: 10, bus_lane_penalty: 11, driving_lane_penalty: 15 }
    );
}

#[test]
fn modes_of_profiles() {
    assert_eq!(profile_mode(RoutingProfile::Driving), TripMode::Drive);
    assert_eq!(profile_mode(RoutingProfile::Walking), TripMode::Walk);
    assert_eq!(profile_mode(RoutingProfile::default_biking()), TripMode::Bike);
}

#[test]
fn controls_show_profile() {
    let c = profile_to_controls(&RoutingProfile::default_biking());
    assert!(!c.bikes_enabled && c.cars_enabled && c.pedestrians_enabled);
    assert_eq!(c.spinners, Some(PenaltySpinners { bike_lane: 10, bus_lane: 11, driving_lane: 15 }));
    let d = profile_to_controls(&RoutingProfile::Driving);
    assert!(d.bikes_enabled && !d.cars_enabled && d.pedestrians_enabled);
    assert_eq!(d.spinners, None);
}

#[test]
fn controls_round_trip() {
    for p in [
        RoutingProfile::Driving,
        RoutingProfile::Walking,
        RoutingProfile::default_biking(),
        RoutingProfile::Biking { bike_lane_penalty: 0, bus_lane_penalty: 20, driving_lane_penalty: 3 },
    ] {
        assert_eq!(controls_to_profile(&profile_to_controls(&p)), p);
    }
}

#[test]
fn panel_clicks() {
    assert_eq!(panel_action(Some("close"), false), PanelAction::Close);
    assert_eq!(
        panel_action(Some("bikes"), false),
        PanelAction::ShowProfile(RoutingProfile::default_biking())
    );
    assert_eq!(panel_action(Some("cars"), false), PanelAction::ShowProfile(RoutingProfile::Driving));
    assert_eq!(
        panel_action(Some("pedestrians"), false),
        PanelAction::ShowProfile(RoutingProfile::Walking)
    );
    assert_eq!(panel_action(None, true), PanelAction::Recalculate);
    assert_eq!(panel_action(None, false), PanelAction::Nothing);
}

#[test]
fn selection_filter() {
    assert_eq!(filter_selection(Some(Selection::Intersection(3)), true), Some(Selection::Intersection(3)));
    assert_eq!(filter_selection(Some(Selection::Intersection(3)), false), None);
    assert_eq!(filter_selection(Some(Selection::Building(4)), false), Some(Selection::Building(4)));
    assert_eq!(filter_selection(Some(Selection::Other), true), None);
    assert_eq!(filter_selection(None, true), None);
    assert_eq!(hovered_endpoint(Some(Selection::Intersection(3))), Some(TripEndpoint::Border(3)));
    assert_eq!(hovered_endpoint(Some(Selection::Building(4))), Some(TripEndpoint::Bldg(4)));
    assert_eq!(hovered_endpoint(None), None);
}

#[test]
fn hovering_sets_and_clears_goal() {
    let mut e = RouteExplorer::new(TripEndpoint::Bldg(1));
    assert!(e.hover(Some(TripEndpoint::Bldg(2))));
    assert_eq!(e.goal, Some(RouteGoal { endpoint: TripEndpoint::Bldg(2), confirmed: false }));
    assert!(!e.hover(Some(TripEndpoint::Bldg(2))));
    assert!(e.hover(Some(TripEndpoint::Border(7))));
    assert!(!e.hover(Some(TripEndpoint::Bldg(1))));
    assert_eq!(e.goal, None);
    assert!(e.hover(Some(TripEndpoint::Border(7))));
    assert!(!e.hover(None));
    assert_eq!(e.goal, None);
}

#[test]
fn confirmed_goal_stays() {
    let mut e = RouteExplorer::new(TripEndpoint::Border(1));
    assert!(!e.confirm_goal());
    e.hover(Some(TripEndpoint::Bldg(5)));
    assert!(e.confirm_goal());
    assert!(e.goal_confirmed());
    assert!(!e.hover(Some(TripEndpoint::Bldg(6))));
    assert!(!e.hover(None));
    assert_eq!(e.goal, Some(RouteGoal { endpoint: TripEndpoint::Bldg(5), confirmed: true }));
    assert_eq!(e.start, TripEndpoint::Border(1));
}
