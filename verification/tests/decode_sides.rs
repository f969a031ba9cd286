use celeste_stats::document::Node;
use celeste_stats::error::DecodeError;
use celeste_stats::stats::SideStatsCommon;

fn node(name: &str) -> Node {
    Node { name: name.to_string(), attrs: vec![], children: vec![], text: String::new() }
}

fn with_attr(mut n: Node, k: &str, v: &str) -> Node {
    n.attrs.push((k.to_string(), v.to_string()));
    n
}

fn strawberries(keys: &[&str]) -> Node {
    let mut sb = node("Strawberries");
    for k in keys {
        sb.children.push(with_attr(node("EntityID"), "Key", k));
    }
    sb
}

fn side(completed: &str, single: Option<(&str, &str, &str)>, keys: &[&str]) -> Node {
    let mut e = with_attr(node("AreaModeStats"), "Completed", completed);
    if let Some((t, da, de)) = single {
        e = with_attr(e, "SingleRunCompleted", "true");
        e = with_attr(e, "BestTime", t);
        e = with_attr(e, "BestDashes", da);
        e = with_attr(e, "BestDeaths", de);
    }
    e.children.push(strawberries(keys));
    e
}

#[test]
fn single_run_fields_all_present_together() {
    let s = SideStatsCommon::from_save(&side("true", Some(("1000", "3", "7")), &[])).unwrap();
    assert!(s.single_run.is_some());
    assert!(s.fewest_dashes.is_some());
    assert!(s.fewest_deaths.is_some());

    let s = SideStatsCommon::from_save(&side("true", None, &[])).unwrap();
    assert!(s.single_run.is_none());
    assert!(s.fewest_dashes.is_none());
    assert!(s.fewest_deaths.is_none());
}

#[test]
fn tick_conversion_is_exact() {
    let s = SideStatsCommon::from_save(&side("true", Some(("12345678", "0", "0")), &[])).unwrap();
    assert_eq!(s.single_run.unwrap().nanos, 1234567800u128);
}

#[test]
fn completed_without_single_run_marker_is_not_an_error() {
    let s = SideStatsCommon::from_save(&side("true", None, &[])).unwrap();
    assert!(s.completed);
    assert!(s.single_run.is_none());
    assert!(s.fewest_dashes.is_none());
    assert!(s.fewest_deaths.is_none());
}

#[test]
fn single_run_marker_must_match_exactly() {
    let mut e = with_attr(node("AreaModeStats"), "Completed", "true");
    e = with_attr(e, "SingleRunCompleted", "True");
    e.children.push(strawberries(&[]));
    let s = SideStatsCommon::from_save(&e).unwrap();
    assert!(s.single_run.is_none());
}

#[test]
fn missing_completed_is_structure_error() {
    let mut e = node("AreaModeStats");
    e.children.push(strawberries(&[]));
    match SideStatsCommon::from_save(&e) {
        Err(DecodeError::Structure) => {},
        _ => panic!("expected a structure error"),
    }
}

#[test]
fn unparseable_completed_is_format_error() {
    let e = {
        let mut e = with_attr(node("AreaModeStats"), "Completed", "yes");
        e.children.push(strawberries(&[]));
        e
    };
    match SideStatsCommon::from_save(&e) {
        Err(DecodeError::Format) => {},
        _ => panic!("expected a format error"),
    }
}

#[test]
fn missing_best_time_is_structure_error() {
    let mut e = with_attr(node("AreaModeStats"), "Completed", "true");
    e = with_attr(e, "SingleRunCompleted", "true");
    e.children.push(strawberries(&[]));
    match SideStatsCommon::from_save(&e) {
        Err(DecodeError::Structure) => {},
        _ => panic!("expected a structure error"),
    }
}

#[test]
fn duplicate_collectible_list_is_structure_error() {
    let mut e = with_attr(node("AreaModeStats"), "Completed", "false");
    e.children.push(strawberries(&[]));
    e.children.push(strawberries(&[]));
    match SideStatsCommon::from_save(&e) {
        Err(DecodeError::Structure) => {},
        _ => panic!("expected a structure error"),
    }
}

#[test]
fn missing_key_is_structure_error() {
    let mut e = with_attr(node("AreaModeStats"), "Completed", "false");
    let mut sb = node("Strawberries");
    sb.children.push(node("EntityID"));
    e.children.push(sb);
    match SideStatsCommon::from_save(&e) {
        Err(DecodeError::Structure) => {},
        _ => panic!("expected a structure error"),
    }
}

#[test]
fn duplicate_keys_count_once() {
    let s = SideStatsCommon::from_save(&side("false", None, &["a:1", "b:2", "a:1"])).unwrap();
    assert_eq!(s.berry_count(), 2);
    assert_eq!(s.berries, vec!["a:1".to_string(), "b:2".to_string()]);
}

#[test]
fn wrong_side_element_name_is_structure_error() {
    let e = with_attr(node("ModeStats"), "Completed", "true");
    match SideStatsCommon::from_save(&e) {
        Err(DecodeError::Structure) => {},
        _ => panic!("expected a structure error"),
    }
}
