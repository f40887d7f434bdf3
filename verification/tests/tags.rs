use abstreet::tags::Tags;

fn sample() -> Tags {
    let mut t = Tags::new();
    t.insert("highway", "residential");
    t.insert("sidewalk", "both");
    t
}

#[test]
fn get_returns_inserted_value() {
    let t = sample();
    assert_eq!(t.get("highway").map(|s| s.as_str()), Some("residential"));
    assert_eq!(t.get("oneway"), None);
}

#[test]
fn insert_replaces_existing_value() {
    let mut t = sample();
    t.insert("highway", "primary");
    assert!(t.is("highway", "primary"));
    assert!(!t.is("highway", "residential"));
    assert_eq!(t.inner().len(), 2);
}

#[test]
fn remove_takes_out_value() {
    let mut t = sample();
    assert_eq!(t.remove("sidewalk"), Some("both".to_string()));
    assert_eq!(t.remove("sidewalk"), None);
    assert!(!t.contains_key("sidewalk"));
    assert!(t.contains_key("highway"));
}

#[test]
fn is_any_and_has_any() {
    let t = sample();
    assert!(t.is_any("highway", vec!["primary", "residential"]));
    assert!(!t.is_any("highway", vec!["primary", "motorway"]));
    assert!(!t.is_any("railway", vec!["rail"]));
    assert!(t.has_any(vec!["oneway", "sidewalk"]));
    assert!(!t.has_any(vec!["oneway", "lanes"]));
}

#[test]
fn clone_keeps_entries() {
    let t = sample();
    let c = t.clone();
    assert!(c.is("highway", "residential"));
    assert!(c.is("sidewalk", "both"));
    assert_eq!(c.inner().len(), 2);
}
