use celeste_stats::world::World;

const ALL: [World; 12] = [
    World::Prologue,
    World::ForsakenCity,
    World::OldSite,
    World::CelestialResort,
    World::GoldenRidge,
    World::MirrorTemple,
    World::Reflection,
    World::TheSummit,
    World::Epilogue,
    World::Core,
    World::Farewell,
    World::SumOfBests,
];

#[test]
fn ids_round_trip() {
    for w in ALL {
        assert_eq!(World::from_id(w.id()), Some(w));
    }
    assert_eq!(World::from_id(11), None);
    assert_eq!(World::from_id(99), None);
    assert_eq!(World::from_id(100), Some(World::SumOfBests));
}

#[test]
fn red_berry_maxima_match_the_game() {
    assert_eq!(World::ForsakenCity.red_berries(), 20);
    assert_eq!(World::OldSite.red_berries(), 18);
    assert_eq!(World::CelestialResort.red_berries(), 25);
    assert_eq!(World::GoldenRidge.red_berries(), 29);
    assert_eq!(World::MirrorTemple.red_berries(), 31);
    assert_eq!(World::TheSummit.red_berries(), 47);
    assert_eq!(World::Core.red_berries(), 5);
    assert_eq!(World::Reflection.red_berries(), 0);
    assert_eq!(World::Farewell.red_berries(), 0);
    // The synthetic area's maximum is the sum of the others'.
    assert_eq!(World::SumOfBests.red_berries(), 20 + 18 + 25 + 29 + 31 + 47 + 5);
}

#[test]
fn only_prologue_and_epilogue_lack_unlockables() {
    for w in ALL {
        let expected = !(w == World::Prologue || w == World::Epilogue);
        assert_eq!(w.has_unlockables(), expected);
    }
}

#[test]
fn names_are_the_display_strings() {
    assert_eq!(World::ForsakenCity.name(), "1.  Forsaken City");
    assert_eq!(World::TheSummit.name(), "7.  The Summit");
    assert_eq!(World::SumOfBests.name(), "    Sum of Bests");
}
