use celeste_stats::document::Node;
use celeste_stats::error::DecodeError;
use celeste_stats::stats::Stats;
use celeste_stats::world::World;

fn node(name: &str) -> Node {
    Node { name: name.to_string(), attrs: vec![], children: vec![], text: String::new() }
}

fn with_attr(mut n: Node, k: &str, v: &str) -> Node {
    n.attrs.push((k.to_string(), v.to_string()));
    n
}

fn text_child(name: &str, text: &str) -> Node {
    let mut n = node(name);
    n.text = text.to_string();
    n
}

fn side(completed: &str, single: Option<(&str, &str, &str)>, n_keys: usize, tag: &str) -> Node {
    let mut e = with_attr(node("AreaModeStats"), "Completed", completed);
    if let Some((t, da, de)) = single {
        e = with_attr(e, "SingleRunCompleted", "true");
        e = with_attr(e, "BestTime", t);
        e = with_attr(e, "BestDashes", da);
        e = with_attr(e, "BestDeaths", de);
    }
    let mut sb = node("Strawberries");
    for i in 0..n_keys {
        sb.children.push(with_attr(node("EntityID"), "Key", &format!("{}-{}", tag, i)));
    }
    e.children.push(sb);
    e
}

/// An area whose three sides are all completed in a single run, with the
/// given full-clear ticks (0 for none) and A-side berry count.
fn area(id: u32, full_clear_ticks: &str, a_keys: usize) -> Node {
    let mut e = with_attr(node("AreaStats"), "ID", &id.to_string());
    e = with_attr(e, "Cassette", "true");
    let mut modes = node("Modes");
    let mut m0 = side("true", Some(("1000", "2", "3")), a_keys, &format!("a{}", id));
    m0 = with_attr(m0, "HeartGem", "true");
    m0 = with_attr(m0, "BestFullClearTime", full_clear_ticks);
    modes.children.push(m0);
    modes.children.push(side("true", Some(("2000", "4", "5")), 0, "b"));
    modes.children.push(side("true", Some(("3000", "6", "7")), 0, "c"));
    e.children.push(modes);
    e
}

fn save_doc(areas: Vec<Node>, gems: Option<Node>) -> Node {
    let mut doc = node("SaveData");
    doc.children.push(text_child("Version", "1.4.0.0"));
    doc.children.push(text_child("Name", "Madeline"));
    if let Some(g) = gems {
        doc.children.push(g);
    }
    doc.children.push(text_child("CheatMode", "false"));
    doc.children.push(text_child("AssistMode", "false"));
    doc.children.push(text_child("VariantMode", "true"));
    doc.children.push(text_child("TotalStrawberries", "57"));
    let mut area_list = node("Areas");
    area_list.children = areas;
    doc.children.push(area_list);
    doc
}

#[test]
fn wrong_root_is_structure_error() {
    let mut doc = save_doc(vec![], None);
    doc.name = "NotSaveData".to_string();
    match Stats::from_save(&doc) {
        Err(DecodeError::Structure) => {},
        _ => panic!("expected a structure error"),
    }
}

#[test]
fn header_fields_are_extracted() {
    let s = Stats::from_save(&save_doc(vec![], None)).unwrap();
    assert_eq!(s.version, "1.4.0.0");
    assert_eq!(s.name, "Madeline");
    assert!(!s.cheat_mode);
    assert!(!s.assist_mode);
    assert!(s.variant_mode);
    assert_eq!(s.total_berries, 57);
}

#[test]
fn missing_total_is_structure_error() {
    let mut doc = save_doc(vec![], None);
    doc.children.retain(|c| c.name != "TotalStrawberries");
    match Stats::from_save(&doc) {
        Err(DecodeError::Structure) => {},
        _ => panic!("expected a structure error"),
    }
}

#[test]
fn missing_summit_gems_means_zero() {
    let s = Stats::from_save(&save_doc(vec![], None)).unwrap();
    assert_eq!(s.gems, 0);
}

#[test]
fn summit_gems_count_true_children() {
    let mut g = node("SummitGems");
    for v in ["true", "true", "false", "true", "false", "true"] {
        g.children.push(text_child("boolean", v));
    }
    let s = Stats::from_save(&save_doc(vec![], Some(g))).unwrap();
    assert_eq!(s.gems, 4);
}

#[test]
fn duplicate_version_child_is_structure_error() {
    let mut doc = save_doc(vec![], None);
    doc.children.push(text_child("Version", "1.4.0.0"));
    match Stats::from_save(&doc) {
        Err(DecodeError::Structure) => {},
        _ => panic!("expected a structure error"),
    }
}

#[test]
fn oversized_summit_gem_section_is_format_error() {
    let mut g = node("SummitGems");
    for _ in 0..300 {
        g.children.push(text_child("b", "true"));
    }
    match Stats::from_save(&save_doc(vec![], Some(g))) {
        Err(DecodeError::Format) => {},
        _ => panic!("expected a format error"),
    }
}

#[test]
fn only_the_first_summit_gem_section_counts() {
    let mut g = node("SummitGems");
    g.children.push(text_child("b", "true"));
    let mut doc = save_doc(vec![], Some(g));
    let mut g2 = node("SummitGems");
    for _ in 0..5 {
        g2.children.push(text_child("b", "true"));
    }
    doc.children.push(g2);
    let s = Stats::from_save(&doc).unwrap();
    assert_eq!(s.gems, 1);
}

#[test]
fn aggregate_full_clear_is_the_exact_sum() {
    // 60 s, 90 s and 120 s in 100 ns ticks.
    let areas = vec![
        area(1, "600000000", 0),
        area(2, "900000000", 0),
        area(3, "1200000000", 0),
    ];
    let s = Stats::from_save(&save_doc(areas, None)).unwrap();
    let agg = s.worlds.last().unwrap();
    assert_eq!(agg.world, World::SumOfBests);
    assert_eq!(agg.a_side.full_clear.unwrap().nanos, 270_000_000_000u128);
}

#[test]
fn aggregate_full_clear_absent_when_any_area_lacks_one() {
    let areas = vec![
        area(1, "600000000", 0),
        area(2, "0", 0),
        area(3, "1200000000", 0),
    ];
    let s = Stats::from_save(&save_doc(areas, None)).unwrap();
    let agg = s.worlds.last().unwrap();
    assert!(agg.a_side.full_clear.is_none());
}

#[test]
fn aggregate_sums_dashes_deaths_and_times() {
    let areas = vec![area(1, "1", 0), area(2, "1", 0)];
    let s = Stats::from_save(&save_doc(areas, None)).unwrap();
    let agg = s.worlds.last().unwrap();
    assert_eq!(agg.a_side.common.fewest_dashes, Some(4));
    assert_eq!(agg.a_side.common.fewest_deaths, Some(6));
    assert_eq!(agg.a_side.common.single_run.unwrap().nanos, 200_000u128);
    assert_eq!(agg.b_side.common.fewest_dashes, Some(8));
    assert_eq!(agg.c_side.common.fewest_deaths, Some(14));
    assert!(agg.a_side.common.completed);
}

#[test]
fn aggregate_fields_absent_when_an_eligible_area_lacks_them() {
    let mut a2 = area(2, "1", 0);
    // Rebuild the second area's B side without a single run.
    let modes = a2.children.iter_mut().find(|c| c.name == "Modes").unwrap();
    modes.children[1] = side("true", None, 0, "b");
    let areas = vec![area(1, "1", 0), a2];
    let s = Stats::from_save(&save_doc(areas, None)).unwrap();
    let agg = s.worlds.last().unwrap();
    assert_eq!(agg.b_side.common.fewest_dashes, None);
    assert_eq!(agg.b_side.common.single_run, None);
    // The A side is unaffected.
    assert_eq!(agg.a_side.common.fewest_dashes, Some(4));
}

#[test]
fn epilogue_is_decoded_but_dropped() {
    let areas = vec![area(8, "0", 0)];
    let s = Stats::from_save(&save_doc(areas, None)).unwrap();
    assert_eq!(s.worlds.len(), 1);
    assert_eq!(s.worlds[0].world, World::SumOfBests);
}

#[test]
fn prologue_is_kept_but_not_aggregated() {
    // The prologue has no unlockables, so an absent full clear there does
    // not hide the aggregate sum.
    let areas = vec![area(0, "0", 0), area(1, "600000000", 0)];
    let s = Stats::from_save(&save_doc(areas, None)).unwrap();
    assert_eq!(s.worlds.len(), 3);
    assert_eq!(s.worlds[0].world, World::Prologue);
    let agg = s.worlds.last().unwrap();
    assert_eq!(agg.a_side.full_clear.unwrap().nanos, 60_000_000_000u128);
}

#[test]
fn aggregate_berry_tokens_count_effective_berries() {
    // Forsaken City: 21 collected of 20 counts 20; Core: 3 of 5 counts 3.
    let areas = vec![area(1, "1", 21), area(9, "1", 3)];
    let s = Stats::from_save(&save_doc(areas, None)).unwrap();
    let agg = s.worlds.last().unwrap();
    assert_eq!(agg.a_side.common.berry_count(), 23);
    assert!(agg.b_side.common.berries.is_empty());
    assert!(agg.c_side.common.berries.is_empty());
}

#[test]
fn aggregate_heart_ranges_over_all_areas_cassette_over_eligible() {
    // The prologue cannot hold a heart: its record says false, and the
    // heart aggregation — unlike every other field — still counts it.
    let mut prologue = area(0, "0", 0);
    {
        let modes = prologue.children.iter_mut().find(|c| c.name == "Modes").unwrap();
        for a in modes.children[0].attrs.iter_mut() {
            if a.0 == "HeartGem" {
                a.1 = "false".to_string();
            }
        }
    }
    let areas = vec![prologue, area(1, "1", 0)];
    let s = Stats::from_save(&save_doc(areas, None)).unwrap();
    let agg = s.worlds.last().unwrap();
    assert!(!agg.a_side.heart);
    assert!(agg.a_side.cassette);
}
