use abstreet::warp::{
    debug_warp_step, invalid_id_message, parse_warp_id, warping_step, DebugWarpStep,
    WarpTarget, WarpingStep,
};

#[test]
fn road_example_from_help_text() {
    assert_eq!(parse_warp_id("r42"), Some(WarpTarget::Road(42)));
}

#[test]
fn every_prefix_letter() {
    assert_eq!(parse_warp_id("R1"), Some(WarpTarget::TransitRoute(1)));
    assert_eq!(parse_warp_id("l7"), Some(WarpTarget::Lane(7)));
    assert_eq!(parse_warp_id("L8"), Some(WarpTarget::ParkingLot(8)));
    assert_eq!(parse_warp_id("i9"), Some(WarpTarget::Intersection(9)));
    assert_eq!(parse_warp_id("b10"), Some(WarpTarget::Building(10)));
    assert_eq!(parse_warp_id("a11"), Some(WarpTarget::Area(11)));
    assert_eq!(parse_warp_id("p12"), Some(WarpTarget::Pedestrian(12)));
    assert_eq!(parse_warp_id("P13"), Some(WarpTarget::Person(13)));
    assert_eq!(parse_warp_id("c14"), Some(WarpTarget::Car(14)));
    assert_eq!(parse_warp_id("t15"), Some(WarpTarget::Trip(15)));
}

#[test]
fn jump_back_and_empty() {
    assert_eq!(parse_warp_id("j"), Some(WarpTarget::JumpBack));
    assert_eq!(parse_warp_id(""), None);
    assert_eq!(parse_warp_id("j1"), None);
}

#[test]
fn numbers_are_read_like_std_parse() {
    assert_eq!(parse_warp_id("r+5"), Some(WarpTarget::Road(5)));
    assert_eq!(parse_warp_id("r007"), Some(WarpTarget::Road(7)));
    assert_eq!(parse_warp_id("r"), None);
    assert_eq!(parse_warp_id("r+"), None);
    assert_eq!(parse_warp_id("r-5"), None);
    assert_eq!(parse_warp_id("r 5"), None);
    assert_eq!(parse_warp_id("r5x"), None);
    assert_eq!(parse_warp_id("r5é"), None);
    assert_eq!(parse_warp_id("x5"), None);
    let max = format!("r{}", usize::MAX);
    assert_eq!(parse_warp_id(&max), Some(WarpTarget::Road(usize::MAX)));
    let over = format!("r{}0", usize::MAX);
    assert_eq!(parse_warp_id(&over), None);
    for s in ["r+5", "r007", "r", "r-5", "r5x", "r 5", "x5"] {
        let ours = parse_warp_id(s).is_some();
        let std_ok = s[1..].parse::<usize>().is_ok() && s.starts_with('r');
        assert_eq!(ours, std_ok, "{}", s);
    }
}

#[test]
fn lane_numbers_wrap_to_32_bits() {
    let s = format!("l{}", (1u64 << 32) + 3);
    assert_eq!(parse_warp_id(&s), Some(WarpTarget::Lane(3)));
}

#[test]
fn round_trip_of_written_ids() {
    for n in [0usize, 1, 9, 10, 99, 100, 12345, usize::MAX] {
        assert_eq!(parse_warp_id(&format!("b{}", n)), Some(WarpTarget::Building(n)));
        assert_eq!(parse_warp_id(&format!("t{}", n)), Some(WarpTarget::Trip(n)));
    }
}

#[test]
fn invalid_message_text() {
    assert_eq!(invalid_id_message("zz9"), "zz9 isn't a valid ID");
}

#[test]
fn warping_screen_steps() {
    assert_eq!(warping_step(true, true), WarpingStep::Keep);
    assert_eq!(warping_step(false, true), WarpingStep::PopAndShowInfo);
    assert_eq!(warping_step(false, false), WarpingStep::Pop);
}

#[test]
fn debug_warp_screen_steps() {
    assert_eq!(debug_warp_step(None), DebugWarpStep::Keep);
    assert_eq!(debug_warp_step(Some("close")), DebugWarpStep::Close);
    assert_eq!(debug_warp_step(Some("Go!")), DebugWarpStep::Go);
}
