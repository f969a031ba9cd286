use celeste_stats::error::DecodeError;
use celeste_stats::stats::Stats;
use celeste_stats::world::World;

fn minimal_save(root: &str) -> String {
    let mut s = String::new();
    s.push_str("<?xml version=\"1.0\" encoding=\"utf-8\"?>\n");
    s.push('<');
    s.push_str(root);
    s.push_str(">\n");
    s.push_str("  <Version>1.4.0.0</Version>\n");
    s.push_str("  <Name>Madeline</Name>\n");
    s.push_str("  <CheatMode>false</CheatMode>\n");
    s.push_str("  <AssistMode>false</AssistMode>\n");
    s.push_str("  <VariantMode>false</VariantMode>\n");
    s.push_str("  <TotalStrawberries>23</TotalStrawberries>\n");
    s.push_str("  <SummitGems><b>true</b><b>false</b><b>true</b></SummitGems>\n");
    s.push_str("  <Areas>\n");
    s.push_str("    <AreaStats ID=\"9\" Cassette=\"true\">\n");
    s.push_str("      <Modes>\n");
    s.push_str(
        "        <AreaModeStats Completed=\"true\" SingleRunCompleted=\"true\" BestTime=\"12345678\" BestDashes=\"41\" BestDeaths=\"7\" HeartGem=\"true\" BestFullClearTime=\"600000000\">\n",
    );
    s.push_str("          <Strawberries><EntityID Key=\"a:1\"/><EntityID Key=\"a:2\"/></Strawberries>\n");
    s.push_str("        </AreaModeStats>\n");
    s.push_str("        <AreaModeStats Completed=\"true\"><Strawberries/></AreaModeStats>\n");
    s.push_str("        <AreaModeStats Completed=\"false\"><Strawberries/></AreaModeStats>\n");
    s.push_str("      </Modes>\n");
    s.push_str("    </AreaStats>\n");
    s.push_str("  </Areas>\n");
    s.push_str("</");
    s.push_str(root);
    s.push('>');
    s
}

#[test]
fn save_text_decodes_end_to_end() {
    let s = Stats::from_save_str(&minimal_save("SaveData")).unwrap();
    assert_eq!(s.version, "1.4.0.0");
    assert_eq!(s.name, "Madeline");
    assert_eq!(s.total_berries, 23);
    assert_eq!(s.gems, 2);
    assert_eq!(s.worlds.len(), 2);
    let core = &s.worlds[0];
    assert_eq!(core.world, World::Core);
    assert!(core.a_side.cassette);
    assert!(core.a_side.heart);
    assert_eq!(core.a_side.full_clear.unwrap().nanos, 60_000_000_000);
    assert_eq!(core.a_side.common.single_run.unwrap().nanos, 1_234_567_800);
    assert_eq!(core.a_side.common.fewest_dashes, Some(41));
    assert_eq!(core.a_side.common.fewest_deaths, Some(7));
    assert_eq!(core.a_side.common.berry_count(), 2);
    assert!(core.b_side.common.completed);
    assert!(core.b_side.common.single_run.is_none());
    assert!(!core.c_side.common.completed);
    let agg = &s.worlds[1];
    assert_eq!(agg.world, World::SumOfBests);
    assert_eq!(agg.a_side.full_clear.unwrap().nanos, 60_000_000_000);
    assert_eq!(agg.a_side.common.berry_count(), 2);
}

#[test]
fn wrong_root_in_text_is_structure_error() {
    match Stats::from_save_str(&minimal_save("Settings")) {
        Err(DecodeError::Structure) => {},
        _ => panic!("expected a structure error"),
    }
}

#[test]
fn malformed_text_is_structure_error() {
    match Stats::from_save_str("<SaveData><unclosed>") {
        Err(DecodeError::Structure) => {},
        _ => panic!("expected a structure error"),
    }
}

#[test]
fn attribute_order_in_text_does_not_matter() {
    // The parser stores attributes in its own order; lookups go by name.
    let text = minimal_save("SaveData");
    let swapped = text.replace(
        "ID=\"9\" Cassette=\"true\"",
        "Cassette=\"true\" ID=\"9\"",
    );
    let s = Stats::from_save_str(&swapped).unwrap();
    assert_eq!(s.worlds[0].world, World::Core);
}
