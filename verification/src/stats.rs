//! The statistics model and the decoders that build it from a document.
//!
//! Decoding follows the save schema exactly: a root element holds text-valued
//! children (version, player name, mode flags, total collectible count), an
//! optional summit-gem section, and an area list; each area holds exactly
//! three difficulty variants; each variant holds its completion fields and
//! collected-item keys. Every decoder has a specification-level mirror, and
//! the executable code is proved to return precisely what the mirror says,
//! errors included.

use vstd::prelude::*;

use crate::aggregate::{spec_aggregate, sum_of_bests, views_of};
use crate::document::{attr_of, first_named, spec_child_bool, spec_child_u32, str_eq, unique_child,
    Node};
use crate::duration::Duration;
use crate::error::DecodeError;
use crate::textparse::{parse_bool, parse_u32, parse_u64, spec_parse_bool, spec_parse_u32,
    spec_parse_u64};
use crate::world::World;

verus! {

/// Statistics of one difficulty variant (side) of one area.
pub struct SideStatsCommon {
    pub completed: bool,
    pub single_run: Option<Duration>,
    pub fewest_dashes: Option<u32>,
    pub fewest_deaths: Option<u32>,
    /// Distinct identifiers of collectibles found on this side, in first
    /// occurrence order.
    pub berries: Vec<String>,
}

/// The mathematical value of a `SideStatsCommon`.
pub struct SideView {
    pub completed: bool,
    pub single_run: Option<Duration>,
    pub fewest_dashes: Option<u32>,
    pub fewest_deaths: Option<u32>,
    pub berries: Seq<Seq<char>>,
}

impl View for SideStatsCommon {
    type V = SideView;

    open spec fn view(&self) -> SideView {
        SideView {
            completed: self.completed,
            single_run: self.single_run,
            fewest_dashes: self.fewest_dashes,
            fewest_deaths: self.fewest_deaths,
            berries: self.berries@.map_values(|b: String| b@),
        }
    }
}

/// The A-side record: the shared fields plus the A-side extras.
pub struct ASideStats {
    pub cassette: bool,
    pub heart: bool,
    pub full_clear: Option<Duration>,
    pub common: SideStatsCommon,
}

/// The mathematical value of an `ASideStats`.
pub struct ASideView {
    pub cassette: bool,
    pub heart: bool,
    pub full_clear: Option<Duration>,
    pub common: SideView,
}

impl View for ASideStats {
    type V = ASideView;

    open spec fn view(&self) -> ASideView {
        ASideView {
            cassette: self.cassette,
            heart: self.heart,
            full_clear: self.full_clear,
            common: self.common@,
        }
    }
}

/// The B-side record.
pub struct BSideStats {
    pub common: SideStatsCommon,
}

impl View for BSideStats {
    type V = SideView;

    open spec fn view(&self) -> SideView {
        self.common@
    }
}

/// The C-side record.
pub struct CSideStats {
    pub common: SideStatsCommon,
}

impl View for CSideStats {
    type V = SideView;

    open spec fn view(&self) -> SideView {
        self.common@
    }
}

/// Statistics of one area: its identity and its three sides.
pub struct WorldStats {
    pub world: World,
    pub a_side: ASideStats,
    pub b_side: BSideStats,
    pub c_side: CSideStats,
}

/// The mathematical value of a `WorldStats`.
pub struct WorldView {
    pub world: World,
    pub a_side: ASideView,
    pub b_side: SideView,
    pub c_side: SideView,
}

impl View for WorldStats {
    type V = WorldView;

    open spec fn view(&self) -> WorldView {
        WorldView {
            world: self.world,
            a_side: self.a_side@,
            b_side: self.b_side@,
            c_side: self.c_side@,
        }
    }
}

/// The whole decoded report.
pub struct Stats {
    pub version: String,
    pub cheat_mode: bool,
    pub assist_mode: bool,
    pub variant_mode: bool,
    pub name: String,
    /// Decoded areas in document order, epilogue removed, with the synthetic
    /// sum-of-bests record appended last.
    pub worlds: Vec<WorldStats>,
    pub total_berries: u32,
    pub gems: u8,
}

/// The mathematical value of a `Stats`.
pub struct StatsView {
    pub version: Seq<char>,
    pub cheat_mode: bool,
    pub assist_mode: bool,
    pub variant_mode: bool,
    pub name: Seq<char>,
    pub worlds: Seq<WorldView>,
    pub total_berries: u32,
    pub gems: u8,
}

impl View for Stats {
    type V = StatsView;

    open spec fn view(&self) -> StatsView {
        StatsView {
            version: self.version@,
            cheat_mode: self.cheat_mode,
            assist_mode: self.assist_mode,
            variant_mode: self.variant_mode,
            name: self.name@,
            worlds: self.worlds@.map_values(|w: WorldStats| w@),
            total_berries: self.total_berries,
            gems: self.gems,
        }
    }
}

/// A decode result, seen through the view of its payload.
pub open spec fn view_result<T: View>(r: Result<T, DecodeError>) -> Result<T::V, DecodeError> {
    match r {
        Ok(v) => Ok(v@),
        Err(e) => Err(e),
    }
}

impl SideStatsCommon {
    /// How many distinct collectibles this side holds.
    pub fn berry_count(&self) -> (r: usize)
        ensures
            r == self@.berries.len(),
    {
        self.berries.len()
    }
}

impl WorldView {
    /// The number of distinct A-side collectibles.
    pub open spec fn spec_berry_count(self) -> nat {
        self.a_side.common.berries.len()
    }

    /// Whether the A-side collectible count respects the per-area tolerance:
    /// at most one over the red-berry maximum, or exactly two over it for the
    /// single area with the bonus winged collectible.
    pub open spec fn berries_ok(self) -> bool {
        self.spec_berry_count() <= self.world.spec_red_berries() + 1 || (self.world
            is ForsakenCity && self.spec_berry_count() == self.world.spec_red_berries() + 2)
    }

    /// The effective red-berry count: the collected count capped at the
    /// area's maximum.
    pub open spec fn spec_red_berries(self) -> nat {
        if self.spec_berry_count() <= self.world.spec_red_berries() {
            self.spec_berry_count()
        } else {
            self.world.spec_red_berries() as nat
        }
    }

    pub open spec fn spec_has_golden_a(self) -> bool {
        self.spec_berry_count() > self.world.spec_red_berries()
    }

    pub open spec fn spec_has_golden_b(self) -> bool {
        self.b_side.berries.len() > 0
    }

    pub open spec fn spec_has_golden_c(self) -> bool {
        self.c_side.berries.len() > 0
    }

    pub open spec fn spec_has_winged_golden(self) -> bool {
        self.world is ForsakenCity && self.spec_berry_count() > self.world.spec_red_berries() + 1
    }
}

impl WorldStats {
    /// The effective red-berry count of this area.
    ///
    /// The collected count may legitimately exceed the area maximum by one
    /// (the golden berry) or, for the one area with a winged golden, by two;
    /// in both cases the effective count stays capped at the maximum. Any
    /// larger count cannot come out of a successful decode, so it is ruled
    /// out here rather than reported.
    pub fn red_berries(&self) -> (r: u32)
        requires
            self@.berries_ok(),
        ensures
            r == self@.spec_red_berries(),
    {
        let actual = self.a_side.common.berry_count();
        let max = self.world.red_berries();
        if actual <= max as usize {
            actual as u32
        } else {
            max
        }
    }

    /// Whether the A-side golden berry was collected.
    pub fn has_golden_a(&self) -> (r: bool)
        ensures
            r == self@.spec_has_golden_a(),
    {
        self.a_side.common.berry_count() > self.world.red_berries() as usize
    }

    /// Whether the B-side golden berry was collected.
    pub fn has_golden_b(&self) -> (r: bool)
        ensures
            r == self@.spec_has_golden_b(),
    {
        self.b_side.common.berry_count() > 0
    }

    /// Whether the C-side golden berry was collected.
    pub fn has_golden_c(&self) -> (r: bool)
        ensures
            r == self@.spec_has_golden_c(),
    {
        self.c_side.common.berry_count() > 0
    }

    /// Whether the bonus winged golden berry was collected; only one area
    /// supports it.
    pub fn has_winged_golden(&self) -> (r: bool)
        ensures
            r == self@.spec_has_winged_golden(),
    {
        matches!(self.world, World::ForsakenCity) && self.a_side.common.berry_count()
            > self.world.red_berries() as usize + 1
    }
}

/// The distinct collectible keys of the children of a collectible list, in
/// first-occurrence order; a structure error when a child lacks its key.
pub open spec fn spec_keys(cs: Seq<Node>) -> Result<Seq<Seq<char>>, DecodeError>
    decreases cs.len(),
{
    if cs.len() == 0 {
        Ok(Seq::empty())
    } else {
        match spec_keys(cs.drop_last()) {
            Err(er) => Err(er),
            Ok(ks) => match attr_of(cs.last(), "Key"@) {
                None => Err(DecodeError::Structure),
                Some(k) => Ok(
                    if ks.contains(k) {
                        ks
                    } else {
                        ks.push(k)
                    },
                ),
            },
        }
    }
}

/// Once a prefix of the key scan fails, the whole scan fails the same way.
proof fn lemma_keys_err(cs: Seq<Node>, j: int)
    requires
        0 <= j <= cs.len(),
        spec_keys(cs.take(j)) is Err,
    ensures
        spec_keys(cs) == spec_keys(cs.take(j)),
    decreases cs.len() - j,
{
    if j == cs.len() {
        assert(cs.take(j) =~= cs);
    } else {
        assert(cs.take(j + 1).drop_last() =~= cs.take(j));
        lemma_keys_err(cs, j + 1);
    }
}

/// The last step of side decoding: the collectible list and the record.
pub open spec fn spec_side_finish(
    e: Node,
    completed: bool,
    single_run: Option<Duration>,
    fewest_dashes: Option<u32>,
    fewest_deaths: Option<u32>,
) -> Result<SideView, DecodeError> {
    match unique_child(e, "Strawberries"@) {
        None => Err(DecodeError::Structure),
        Some(sb) => match spec_keys(sb.children@) {
            Err(er) => Err(er),
            Ok(ks) => Ok(
                SideView { completed, single_run, fewest_dashes, fewest_deaths, berries: ks },
            ),
        },
    }
}

/// What decoding one variant subtree yields.
///
/// The element must be a variant record with a parseable `Completed` flag.
/// The single-run marker is compared against the literal completion marker;
/// absence or any other value means no single run, which is not an error.
/// With a single run, the best time (in 100 ns ticks), dash count and death
/// count are all required; without one, all three fields are absent. The
/// collectible list child must be unique and every entry must carry its key.
pub open spec fn spec_side_from(e: Node) -> Result<SideView, DecodeError> {
    if e.name@ != "AreaModeStats"@ {
        Err(DecodeError::Structure)
    } else {
        match attr_of(e, "Completed"@) {
            None => Err(DecodeError::Structure),
            Some(cs) => match spec_parse_bool(cs) {
                None => Err(DecodeError::Format),
                Some(completed) => {
                    if attr_of(e, "SingleRunCompleted"@) == Some("true"@) {
                        match attr_of(e, "BestTime"@) {
                            None => Err(DecodeError::Structure),
                            Some(ts) => match spec_parse_u64(ts) {
                                None => Err(DecodeError::Format),
                                Some(ticks) => match attr_of(e, "BestDashes"@) {
                                    None => Err(DecodeError::Structure),
                                    Some(ds) => match spec_parse_u32(ds) {
                                        None => Err(DecodeError::Format),
                                        Some(dashes) => match attr_of(e, "BestDeaths"@) {
                                            None => Err(DecodeError::Structure),
                                            Some(dts) => match spec_parse_u32(dts) {
                                                None => Err(DecodeError::Format),
                                                Some(deaths) => spec_side_finish(
                                                    e,
                                                    completed,
                                                    Some(
                                                        Duration {
                                                            nanos: (ticks * 100) as u128,
                                                        },
                                                    ),
                                                    Some(dashes),
                                                    Some(deaths),
                                                ),
                                            },
                                        },
                                    },
                                },
                            },
                        }
                    } else {
                        spec_side_finish(e, completed, None, None, None)
                    }
                },
            },
        }
    }
}

/// Whether some string of `v` has the characters of `s`.
fn contains_string(v: &Vec<String>, s: &str) -> (r: bool)
    ensures
        r == v@.map_values(|b: String| b@).contains(s@),
{
    let n = v.len();
    let mut i: usize = 0;
    while i < n
        invariant
            i <= n,
            n == v@.len(),
            forall|k: int| 0 <= k < i ==> v@[k]@ != s@,
        decreases n - i,
    {
        if str_eq(v[i].as_str(), s) {
            proof {
                assert(v@.map_values(|b: String| b@)[i as int] == s@);
            }
            return true;
        }
        i = i + 1;
    }
    proof {
        let m = v@.map_values(|b: String| b@);
        assert forall|k: int| 0 <= k < m.len() implies #[trigger] m[k] != s@ by {
            assert(m[k] == v@[k]@);
        }
        assert(!m.contains(s@));
    }
    false
}

impl SideStatsCommon {
    /// Decodes one variant subtree.
    #[verifier::loop_isolation(false)]
    pub fn from_save(e: &Node) -> (r: Result<SideStatsCommon, DecodeError>)
        ensures
            view_result(r) == spec_side_from(*e),
    {
        if !str_eq(e.name.as_str(), "AreaModeStats") {
            return Err(DecodeError::Structure);
        }
        let completed = match e.attr("Completed") {
            None => {
                return Err(DecodeError::Structure);
            },
            Some(v) => match parse_bool(v.as_str()) {
                None => {
                    return Err(DecodeError::Format);
                },
                Some(b) => b,
            },
        };
        let single_run_completed = match e.attr("SingleRunCompleted") {
            Some(v) => str_eq(v.as_str(), "true"),
            None => false,
        };
        let single_run: Option<Duration>;
        let fewest_dashes: Option<u32>;
        let fewest_deaths: Option<u32>;
        if single_run_completed {
            let ticks = match e.attr("BestTime") {
                None => {
                    return Err(DecodeError::Structure);
                },
                Some(v) => match parse_u64(v.as_str()) {
                    None => {
                        return Err(DecodeError::Format);
                    },
                    Some(t) => t,
                },
            };
            let dashes = match e.attr("BestDashes") {
                None => {
                    return Err(DecodeError::Structure);
                },
                Some(v) => match parse_u32(v.as_str()) {
                    None => {
                        return Err(DecodeError::Format);
                    },
                    Some(d) => d,
                },
            };
            let deaths = match e.attr("BestDeaths") {
                None => {
                    return Err(DecodeError::Structure);
                },
                Some(v) => match parse_u32(v.as_str()) {
                    None => {
                        return Err(DecodeError::Format);
                    },
                    Some(d) => d,
                },
            };
            single_run = Some(Duration::from_ticks(ticks));
            fewest_dashes = Some(dashes);
            fewest_deaths = Some(deaths);
        } else {
            single_run = None;
            fewest_dashes = None;
            fewest_deaths = None;
        }
        let sb = match e.expect_child("Strawberries") {
            Err(er) => {
                return Err(er);
            },
            Ok(c) => c,
        };
        let n = sb.children.len();
        let mut berries: Vec<String> = Vec::new();
        let mut i: usize = 0;
        proof {
            assert(sb.children@.take(0) =~= Seq::<Node>::empty());
            assert(berries@.map_values(|b: String| b@) =~= Seq::<Seq<char>>::empty());
        }
        while i < n
            invariant
                i <= n,
                n == sb.children@.len(),
                unique_child(*e, "Strawberries"@) == Some(*sb),
                spec_keys(sb.children@.take(i as int)) == Ok::<Seq<Seq<char>>, DecodeError>(
                    berries@.map_values(|b: String| b@),
                ),
            decreases n - i,
        {
            proof {
                assert(sb.children@.take(i as int + 1).drop_last() =~= sb.children@.take(i as int));
                assert(sb.children@.take(i as int + 1).last() == sb.children@[i as int]);
            }
            let child = &sb.children[i];
            let key = match child.attr("Key") {
                None => {
                    proof {
                        lemma_keys_err(sb.children@, i as int + 1);
                    }
                    return Err(DecodeError::Structure);
                },
                Some(v) => v,
            };
            if !contains_string(&berries, key.as_str()) {
                let ghost old_map = berries@.map_values(|b: String| b@);
                berries.push(key.clone());
                proof {
                    assert(berries@.map_values(|b: String| b@) =~= old_map.push(key@));
                }
            }
            i = i + 1;
        }
        proof {
            assert(sb.children@.take(n as int) =~= sb.children@);
        }
        let result = SideStatsCommon { completed, single_run, fewest_dashes, fewest_deaths, berries };
        Ok(result)
    }
}

/// The tail of area decoding: the A-side extras and the tolerance check on
/// the collected count.
pub open spec fn spec_world_finish(
    e: Node,
    mode0: Node,
    world: World,
    s0: SideView,
    s1: SideView,
    s2: SideView,
) -> Result<WorldView, DecodeError> {
    match attr_of(e, "Cassette"@) {
        None => Err(DecodeError::Structure),
        Some(cv) => match spec_parse_bool(cv) {
            None => Err(DecodeError::Format),
            Some(cassette) => match attr_of(mode0, "HeartGem"@) {
                None => Err(DecodeError::Structure),
                Some(hv) => match spec_parse_bool(hv) {
                    None => Err(DecodeError::Format),
                    Some(heart) => match attr_of(mode0, "BestFullClearTime"@) {
                        None => Err(DecodeError::Structure),
                        Some(fv) => match spec_parse_u64(fv) {
                            None => Err(DecodeError::Format),
                            Some(t) => {
                                let full_clear = if t == 0 {
                                    None
                                } else {
                                    Some(Duration { nanos: (t * 100) as u128 })
                                };
                                let w = WorldView {
                                    world,
                                    a_side: ASideView { cassette, heart, full_clear, common: s0 },
                                    b_side: s1,
                                    c_side: s2,
                                };
                                if w.berries_ok() {
                                    Ok(w)
                                } else {
                                    Err(DecodeError::Format)
                                }
                            },
                        },
                    },
                },
            },
        },
    }
}

/// What decoding one area subtree yields.
///
/// The element must be an area record whose numeric ID names a known area;
/// it must hold exactly one variant list with exactly three variants, in
/// A, B, C order. The A-side extras come from the area attributes and the
/// first variant. A collected count beyond the area's tolerance is a fatal
/// format error.
pub open spec fn spec_world_from(e: Node) -> Result<WorldView, DecodeError> {
    if e.name@ != "AreaStats"@ {
        Err(DecodeError::Structure)
    } else {
        match attr_of(e, "ID"@) {
            None => Err(DecodeError::Structure),
            Some(ids) => match spec_parse_u32(ids) {
                None => Err(DecodeError::Format),
                Some(id) => match World::spec_from_id(id) {
                    None => Err(DecodeError::Format),
                    Some(world) => match unique_child(e, "Modes"@) {
                        None => Err(DecodeError::Structure),
                        Some(modes) => if modes.children@.len() != 3 {
                            Err(DecodeError::Structure)
                        } else {
                            match spec_side_from(modes.children@[0]) {
                                Err(er) => Err(er),
                                Ok(s0) => match spec_side_from(modes.children@[1]) {
                                    Err(er) => Err(er),
                                    Ok(s1) => match spec_side_from(modes.children@[2]) {
                                        Err(er) => Err(er),
                                        Ok(s2) => spec_world_finish(
                                            e,
                                            modes.children@[0],
                                            world,
                                            s0,
                                            s1,
                                            s2,
                                        ),
                                    },
                                },
                            }
                        },
                    },
                },
            },
        }
    }
}

impl WorldStats {
    /// Decodes one area subtree.
    pub fn from_save(e: &Node) -> (r: Result<WorldStats, DecodeError>)
        ensures
            view_result(r) == spec_world_from(*e),
    {
        if !str_eq(e.name.as_str(), "AreaStats") {
            return Err(DecodeError::Structure);
        }
        let id = match e.attr("ID") {
            None => {
                return Err(DecodeError::Structure);
            },
            Some(v) => match parse_u32(v.as_str()) {
                None => {
                    return Err(DecodeError::Format);
                },
                Some(x) => x,
            },
        };
        let world = match World::from_id(id) {
            None => {
                return Err(DecodeError::Format);
            },
            Some(w) => w,
        };
        let modes = match e.expect_child("Modes") {
            Err(er) => {
                return Err(er);
            },
            Ok(m) => m,
        };
        if modes.children.len() != 3 {
            return Err(DecodeError::Structure);
        }
        let s0 = match SideStatsCommon::from_save(&modes.children[0]) {
            Err(er) => {
                return Err(er);
            },
            Ok(s) => s,
        };
        let s1 = match SideStatsCommon::from_save(&modes.children[1]) {
            Err(er) => {
                return Err(er);
            },
            Ok(s) => s,
        };
        let s2 = match SideStatsCommon::from_save(&modes.children[2]) {
            Err(er) => {
                return Err(er);
            },
            Ok(s) => s,
        };
        let cassette = match e.attr("Cassette") {
            None => {
                return Err(DecodeError::Structure);
            },
            Some(v) => match parse_bool(v.as_str()) {
                None => {
                    return Err(DecodeError::Format);
                },
                Some(b) => b,
            },
        };
        let heart = match modes.children[0].attr("HeartGem") {
            None => {
                return Err(DecodeError::Structure);
            },
            Some(v) => match parse_bool(v.as_str()) {
                None => {
                    return Err(DecodeError::Format);
                },
                Some(b) => b,
            },
        };
        let ticks = match modes.children[0].attr("BestFullClearTime") {
            None => {
                return Err(DecodeError::Structure);
            },
            Some(v) => match parse_u64(v.as_str()) {
                None => {
                    return Err(DecodeError::Format);
                },
                Some(t) => t,
            },
        };
        let full_clear = if ticks == 0 {
            None
        } else {
            Some(Duration::from_ticks(ticks))
        };
        let w = WorldStats {
            world,
            a_side: ASideStats { cassette, heart, full_clear, common: s0 },
            b_side: BSideStats { common: s1 },
            c_side: CSideStats { common: s2 },
        };
        let count = w.a_side.common.berry_count();
        let max = w.world.red_berries();
        proof {
            assert(max <= 175);
        }
        let tolerated = count <= max as usize + 1 || (matches!(w.world, World::ForsakenCity)
            && count == max as usize + 2);
        if tolerated {
            Ok(w)
        } else {
            Err(DecodeError::Format)
        }
    }
}

/// How many of these elements hold the text `true`.
pub open spec fn spec_count_true(cs: Seq<Node>) -> nat
    decreases cs.len(),
{
    if cs.len() == 0 {
        0
    } else {
        spec_count_true(cs.drop_last()) + (if cs.last().text@ == "true"@ {
            1nat
        } else {
            0nat
        })
    }
}

/// The summit-gem count: zero without the section — never an error — and
/// otherwise the count of true-valued children, which must fit its field.
pub open spec fn spec_gems(doc: Node) -> Result<u8, DecodeError> {
    match first_named(doc.children@, "SummitGems"@) {
        None => Ok(0u8),
        Some(el) => if spec_count_true(el.children@) <= u8::MAX {
            Ok(spec_count_true(el.children@) as u8)
        } else {
            Err(DecodeError::Format)
        },
    }
}

/// The decoded areas of an area list, in document order, epilogue entries
/// decoded but removed.
pub open spec fn spec_worlds_from(cs: Seq<Node>) -> Result<Seq<WorldView>, DecodeError>
    decreases cs.len(),
{
    if cs.len() == 0 {
        Ok(Seq::empty())
    } else {
        match spec_worlds_from(cs.drop_last()) {
            Err(er) => Err(er),
            Ok(ws) => match spec_world_from(cs.last()) {
                Err(er) => Err(er),
                Ok(w) => Ok(
                    if w.world is Epilogue {
                        ws
                    } else {
                        ws.push(w)
                    },
                ),
            },
        }
    }
}

/// Once a prefix of the area scan fails, the whole scan fails the same way.
proof fn lemma_worlds_err(cs: Seq<Node>, j: int)
    requires
        0 <= j <= cs.len(),
        spec_worlds_from(cs.take(j)) is Err,
    ensures
        spec_worlds_from(cs) == spec_worlds_from(cs.take(j)),
    decreases cs.len() - j,
{
    if j == cs.len() {
        assert(cs.take(j) =~= cs);
    } else {
        assert(cs.take(j + 1).drop_last() =~= cs.take(j));
        lemma_worlds_err(cs, j + 1);
    }
}

/// What decoding a whole save document yields.
///
/// The root must be the save-data element; the version, player name, mode
/// flags, and total collectible count are required; the summit-gem section
/// may be absent; the area list is decoded in order, the epilogue entry is
/// dropped, and the synthetic sum-of-bests record is appended last.
pub open spec fn spec_stats_from(doc: Node) -> Result<StatsView, DecodeError> {
    if doc.name@ != "SaveData"@ {
        Err(DecodeError::Structure)
    } else {
        match unique_child(doc, "Version"@) {
            None => Err(DecodeError::Structure),
            Some(vc) => match unique_child(doc, "Name"@) {
                None => Err(DecodeError::Structure),
                Some(nc) => match spec_gems(doc) {
                    Err(er) => Err(er),
                    Ok(gems) => match spec_child_bool(doc, "CheatMode"@) {
                        Err(er) => Err(er),
                        Ok(cheat_mode) => match spec_child_bool(doc, "AssistMode"@) {
                            Err(er) => Err(er),
                            Ok(assist_mode) => match spec_child_bool(doc, "VariantMode"@) {
                                Err(er) => Err(er),
                                Ok(variant_mode) => match spec_child_u32(
                                    doc,
                                    "TotalStrawberries"@,
                                ) {
                                    Err(er) => Err(er),
                                    Ok(total_berries) => match unique_child(doc, "Areas"@) {
                                        None => Err(DecodeError::Structure),
                                        Some(areas) => match spec_worlds_from(areas.children@) {
                                            Err(er) => Err(er),
                                            Ok(ws) => match spec_aggregate(ws) {
                                                Err(er) => Err(er),
                                                Ok(agg) => Ok(
                                                    StatsView {
                                                        version: vc.text@,
                                                        cheat_mode,
                                                        assist_mode,
                                                        variant_mode,
                                                        name: nc.text@,
                                                        worlds: ws.push(agg),
                                                        total_berries,
                                                        gems,
                                                    },
                                                ),
                                            },
                                        },
                                    },
                                },
                            },
                        },
                    },
                },
            },
        }
    }
}

impl Stats {
    /// Decodes a whole save document into the report model.
    #[verifier::loop_isolation(false)]
    pub fn from_save(doc: &Node) -> (r: Result<Stats, DecodeError>)
        ensures
            view_result(r) == spec_stats_from(*doc),
    {
        if !str_eq(doc.name.as_str(), "SaveData") {
            return Err(DecodeError::Structure);
        }
        let version = match doc.expect_child("Version") {
            Err(er) => {
                return Err(er);
            },
            Ok(c) => c.text.clone(),
        };
        let name = match doc.expect_child("Name") {
            Err(er) => {
                return Err(er);
            },
            Ok(c) => c.text.clone(),
        };
        let gems: u8 = match doc.first_child("SummitGems") {
            None => 0,
            Some(el) => {
                let n = el.children.len();
                let mut count: usize = 0;
                let mut i: usize = 0;
                proof {
                    assert(el.children@.take(0) =~= Seq::<Node>::empty());
                }
                while i < n
                    invariant
                        i <= n,
                        count <= i,
                        count == spec_count_true(el.children@.take(i as int)),
                    decreases n - i,
                {
                    proof {
                        assert(el.children@.take(i as int + 1).drop_last() =~= el.children@.take(
                            i as int,
                        ));
                        assert(el.children@.take(i as int + 1).last() == el.children@[i as int]);
                    }
                    if str_eq(el.children[i].text.as_str(), "true") {
                        count = count + 1;
                    }
                    i = i + 1;
                }
                proof {
                    assert(el.children@.take(n as int) =~= el.children@);
                }
                if count <= u8::MAX as usize {
                    count as u8
                } else {
                    return Err(DecodeError::Format);
                }
            },
        };
        let cheat_mode = match doc.expect_parse_child_bool("CheatMode") {
            Err(er) => {
                return Err(er);
            },
            Ok(b) => b,
        };
        let assist_mode = match doc.expect_parse_child_bool("AssistMode") {
            Err(er) => {
                return Err(er);
            },
            Ok(b) => b,
        };
        let variant_mode = match doc.expect_parse_child_bool("VariantMode") {
            Err(er) => {
                return Err(er);
            },
            Ok(b) => b,
        };
        let total_berries = match doc.expect_parse_child_u32("TotalStrawberries") {
            Err(er) => {
                return Err(er);
            },
            Ok(v) => v,
        };
        let areas = match doc.expect_child("Areas") {
            Err(er) => {
                return Err(er);
            },
            Ok(a) => a,
        };
        let n = areas.children.len();
        let mut worlds: Vec<WorldStats> = Vec::new();
        let mut i: usize = 0;
        proof {
            assert(areas.children@.take(0) =~= Seq::<Node>::empty());
            assert(views_of(worlds@) =~= Seq::<WorldView>::empty());
        }
        while i < n
            invariant
                i <= n,
                spec_worlds_from(areas.children@.take(i as int)) == Ok::<
                    Seq<WorldView>,
                    DecodeError,
                >(views_of(worlds@)),
                forall|j: int| 0 <= j < worlds@.len() ==> (#[trigger] worlds@[j]@).berries_ok(),
            decreases n - i,
        {
            proof {
                assert(areas.children@.take(i as int + 1).drop_last() =~= areas.children@.take(
                    i as int,
                ));
                assert(areas.children@.take(i as int + 1).last() == areas.children@[i as int]);
            }
            match WorldStats::from_save(&areas.children[i]) {
                Err(er) => {
                    proof {
                        lemma_worlds_err(areas.children@, i as int + 1);
                    }
                    return Err(er);
                },
                Ok(w) => {
                    proof {
                        crate::laws::lemma_decoded_area_tolerates_berries(
                            areas.children@[i as int],
                        );
                    }
                    if !matches!(w.world, World::Epilogue) {
                        let ghost old_views = views_of(worlds@);
                        worlds.push(w);
                        proof {
                            assert(views_of(worlds@) =~= old_views.push(
                                worlds@[worlds@.len() - 1]@,
                            ));
                        }
                    }
                },
            }
            i = i + 1;
        }
        proof {
            assert(areas.children@.take(n as int) =~= areas.children@);
        }
        let agg = match sum_of_bests(&worlds) {
            Err(er) => {
                return Err(er);
            },
            Ok(w) => w,
        };
        let ghost decoded_views = views_of(worlds@);
        worlds.push(agg);
        proof {
            assert(views_of(worlds@) =~= decoded_views.push(worlds@[worlds@.len() - 1]@));
        }
        let result = Stats {
            version,
            cheat_mode,
            assist_mode,
            variant_mode,
            name,
            worlds,
            total_berries,
            gems,
        };
        Ok(result)
    }
}

} // verus!
