//! The "sum of bests" aggregator.
//!
//! From the decoded areas it synthesizes one more record: a hypothetical run
//! combining the best recorded performance of every unlockable-eligible
//! area. A numeric field of the synthetic record is present exactly when
//! every eligible area has it; booleans are conjunctions. One asymmetry of
//! the save layout is preserved deliberately: the bonus heart is aggregated
//! over all areas, while every other field ranges over eligible areas only.
//! The synthetic collectible list holds placeholder tokens; only its length
//! is meaningful, and it equals the sum of the areas' effective red-berry
//! counts.

use vstd::prelude::*;

use crate::duration::Duration;
use crate::error::DecodeError;
use crate::stats::{view_result, ASideStats, ASideView, BSideStats, CSideStats, SideStatsCommon,
    SideView, WorldStats, WorldView};
use crate::textparse::{decimal_string, spec_decimal};
use crate::world::World;

verus! {

/// The views of a sequence of area records.
pub open spec fn views_of(s: Seq<WorldStats>) -> Seq<WorldView> {
    s.map_values(|w: WorldStats| w@)
}

/// Whether an area contributes to the aggregate.
pub open spec fn eligible(w: WorldView) -> bool {
    w.world.spec_has_unlockables()
}

/// The side record selected by index: A, B or C.
pub open spec fn side_of(w: WorldView, side: int) -> SideView {
    if side == 0 {
        w.a_side.common
    } else if side == 1 {
        w.b_side
    } else {
        w.c_side
    }
}

/// Whether every eligible area completed the given side.
pub open spec fn all_side_completed(ws: Seq<WorldView>, side: int) -> bool
    decreases ws.len(),
{
    if ws.len() == 0 {
        true
    } else {
        all_side_completed(ws.drop_last(), side) && (eligible(ws.last()) ==> side_of(
            ws.last(),
            side,
        ).completed)
    }
}

/// Whether every eligible area has a dash count on the given side.
pub open spec fn all_dashes_some(ws: Seq<WorldView>, side: int) -> bool
    decreases ws.len(),
{
    if ws.len() == 0 {
        true
    } else {
        all_dashes_some(ws.drop_last(), side) && (eligible(ws.last()) ==> side_of(
            ws.last(),
            side,
        ).fewest_dashes is Some)
    }
}

/// The sum of the eligible areas' dash counts on the given side.
pub open spec fn sum_dashes(ws: Seq<WorldView>, side: int) -> nat
    decreases ws.len(),
{
    if ws.len() == 0 {
        0
    } else {
        sum_dashes(ws.drop_last(), side) + (if eligible(ws.last()) {
            match side_of(ws.last(), side).fewest_dashes {
                Some(d) => d as nat,
                None => 0nat,
            }
        } else {
            0nat
        })
    }
}

/// Whether every eligible area has a death count on the given side.
pub open spec fn all_deaths_some(ws: Seq<WorldView>, side: int) -> bool
    decreases ws.len(),
{
    if ws.len() == 0 {
        true
    } else {
        all_deaths_some(ws.drop_last(), side) && (eligible(ws.last()) ==> side_of(
            ws.last(),
            side,
        ).fewest_deaths is Some)
    }
}

/// The sum of the eligible areas' death counts on the given side.
pub open spec fn sum_deaths(ws: Seq<WorldView>, side: int) -> nat
    decreases ws.len(),
{
    if ws.len() == 0 {
        0
    } else {
        sum_deaths(ws.drop_last(), side) + (if eligible(ws.last()) {
            match side_of(ws.last(), side).fewest_deaths {
                Some(d) => d as nat,
                None => 0nat,
            }
        } else {
            0nat
        })
    }
}

/// Whether every eligible area has a single-run time on the given side.
pub open spec fn all_run_some(ws: Seq<WorldView>, side: int) -> bool
    decreases ws.len(),
{
    if ws.len() == 0 {
        true
    } else {
        all_run_some(ws.drop_last(), side) && (eligible(ws.last()) ==> side_of(
            ws.last(),
            side,
        ).single_run is Some)
    }
}

/// The summed single-run nanoseconds of the eligible areas on the given side.
pub open spec fn sum_run(ws: Seq<WorldView>, side: int) -> nat
    decreases ws.len(),
{
    if ws.len() == 0 {
        0
    } else {
        sum_run(ws.drop_last(), side) + (if eligible(ws.last()) {
            match side_of(ws.last(), side).single_run {
                Some(d) => d.nanos as nat,
                None => 0nat,
            }
        } else {
            0nat
        })
    }
}

/// Whether every eligible area has a full-clear time.
pub open spec fn all_fc_some(ws: Seq<WorldView>) -> bool
    decreases ws.len(),
{
    if ws.len() == 0 {
        true
    } else {
        all_fc_some(ws.drop_last()) && (eligible(ws.last()) ==> ws.last().a_side.full_clear
            is Some)
    }
}

/// The summed full-clear nanoseconds of the eligible areas.
pub open spec fn sum_fc(ws: Seq<WorldView>) -> nat
    decreases ws.len(),
{
    if ws.len() == 0 {
        0
    } else {
        sum_fc(ws.drop_last()) + (if eligible(ws.last()) {
            match ws.last().a_side.full_clear {
                Some(d) => d.nanos as nat,
                None => 0nat,
            }
        } else {
            0nat
        })
    }
}

/// Whether every eligible area has its cassette.
pub open spec fn all_cassette(ws: Seq<WorldView>) -> bool
    decreases ws.len(),
{
    if ws.len() == 0 {
        true
    } else {
        all_cassette(ws.drop_last()) && (eligible(ws.last()) ==> ws.last().a_side.cassette)
    }
}

/// Whether every area, eligible or not, has its crystal heart.
pub open spec fn all_heart(ws: Seq<WorldView>) -> bool
    decreases ws.len(),
{
    if ws.len() == 0 {
        true
    } else {
        all_heart(ws.drop_last()) && ws.last().a_side.heart
    }
}

/// The aggregated dash count of one side: present exactly when every
/// eligible area has one; a format error when the sum cannot be represented.
pub open spec fn spec_agg_dashes(ws: Seq<WorldView>, side: int) -> Result<
    Option<u32>,
    DecodeError,
> {
    if all_dashes_some(ws, side) {
        if sum_dashes(ws, side) <= u32::MAX {
            Ok(Some(sum_dashes(ws, side) as u32))
        } else {
            Err(DecodeError::Format)
        }
    } else {
        Ok(None)
    }
}

/// The aggregated death count of one side.
pub open spec fn spec_agg_deaths(ws: Seq<WorldView>, side: int) -> Result<
    Option<u32>,
    DecodeError,
> {
    if all_deaths_some(ws, side) {
        if sum_deaths(ws, side) <= u32::MAX {
            Ok(Some(sum_deaths(ws, side) as u32))
        } else {
            Err(DecodeError::Format)
        }
    } else {
        Ok(None)
    }
}

/// The aggregated single-run time of one side.
pub open spec fn spec_agg_run(ws: Seq<WorldView>, side: int) -> Result<
    Option<Duration>,
    DecodeError,
> {
    if all_run_some(ws, side) {
        if sum_run(ws, side) <= u128::MAX {
            Ok(Some(Duration { nanos: sum_run(ws, side) as u128 }))
        } else {
            Err(DecodeError::Format)
        }
    } else {
        Ok(None)
    }
}

/// The aggregated full-clear time.
pub open spec fn spec_agg_fc(ws: Seq<WorldView>) -> Result<Option<Duration>, DecodeError> {
    if all_fc_some(ws) {
        if sum_fc(ws) <= u128::MAX {
            Ok(Some(Duration { nanos: sum_fc(ws) as u128 }))
        } else {
            Err(DecodeError::Format)
        }
    } else {
        Ok(None)
    }
}

/// A placeholder collectible token: an index qualified by its area's name.
pub open spec fn spec_token(n: nat, world: World) -> Seq<char> {
    spec_decimal(n) + ":"@ + world.spec_name()
}

/// The placeholder tokens one eligible area contributes: one per effective
/// red berry.
pub open spec fn world_tokens(w: WorldView) -> Seq<Seq<char>> {
    Seq::new(w.spec_red_berries(), |k: int| spec_token(k as nat, w.world))
}

/// All placeholder tokens of the aggregate record, in area order.
pub open spec fn agg_berries(ws: Seq<WorldView>) -> Seq<Seq<char>>
    decreases ws.len(),
{
    if ws.len() == 0 {
        Seq::empty()
    } else {
        agg_berries(ws.drop_last()) + (if eligible(ws.last()) {
            world_tokens(ws.last())
        } else {
            Seq::empty()
        })
    }
}

/// What the synthetic sum-of-bests record holds, or which overflow made it
/// undecodable. Field order follows the record layout, so the first
/// unrepresentable sum names the error.
pub open spec fn spec_aggregate(ws: Seq<WorldView>) -> Result<WorldView, DecodeError> {
    match spec_agg_fc(ws) {
        Err(er) => Err(er),
        Ok(fc) => match spec_agg_dashes(ws, 0) {
            Err(er) => Err(er),
            Ok(d0) => match spec_agg_deaths(ws, 0) {
                Err(er) => Err(er),
                Ok(dd0) => match spec_agg_run(ws, 0) {
                    Err(er) => Err(er),
                    Ok(r0) => match spec_agg_dashes(ws, 1) {
                        Err(er) => Err(er),
                        Ok(d1) => match spec_agg_deaths(ws, 1) {
                            Err(er) => Err(er),
                            Ok(dd1) => match spec_agg_run(ws, 1) {
                                Err(er) => Err(er),
                                Ok(r1) => match spec_agg_dashes(ws, 2) {
                                    Err(er) => Err(er),
                                    Ok(d2) => match spec_agg_deaths(ws, 2) {
                                        Err(er) => Err(er),
                                        Ok(dd2) => match spec_agg_run(ws, 2) {
                                            Err(er) => Err(er),
                                            Ok(r2) => Ok(
                                                WorldView {
                                                    world: World::SumOfBests,
                                                    a_side: ASideView {
                                                        cassette: all_cassette(ws),
                                                        heart: all_heart(ws),
                                                        full_clear: fc,
                                                        common: SideView {
                                                            completed: all_side_completed(ws, 0),
                                                            single_run: r0,
                                                            fewest_dashes: d0,
                                                            fewest_deaths: dd0,
                                                            berries: agg_berries(ws),
                                                        },
                                                    },
                                                    b_side: SideView {
                                                        completed: all_side_completed(ws, 1),
                                                        single_run: r1,
                                                        fewest_dashes: d1,
                                                        fewest_deaths: dd1,
                                                        berries: Seq::empty(),
                                                    },
                                                    c_side: SideView {
                                                        completed: all_side_completed(ws, 2),
                                                        single_run: r2,
                                                        fewest_dashes: d2,
                                                        fewest_deaths: dd2,
                                                        berries: Seq::empty(),
                                                    },
                                                },
                                            ),
                                        },
                                    },
                                },
                            },
                        },
                    },
                },
            },
        },
    }
}

/// A sum never falls below the sum of a prefix.
proof fn lemma_sum_dashes_prefix(ws: Seq<WorldView>, side: int, j: int)
    requires
        0 <= j <= ws.len(),
    ensures
        sum_dashes(ws, side) >= sum_dashes(ws.take(j), side),
    decreases ws.len() - j,
{
    if j == ws.len() {
        assert(ws.take(j) =~= ws);
    } else {
        assert(ws.take(j + 1).drop_last() =~= ws.take(j));
        lemma_sum_dashes_prefix(ws, side, j + 1);
    }
}

proof fn lemma_sum_deaths_prefix(ws: Seq<WorldView>, side: int, j: int)
    requires
        0 <= j <= ws.len(),
    ensures
        sum_deaths(ws, side) >= sum_deaths(ws.take(j), side),
    decreases ws.len() - j,
{
    if j == ws.len() {
        assert(ws.take(j) =~= ws);
    } else {
        assert(ws.take(j + 1).drop_last() =~= ws.take(j));
        lemma_sum_deaths_prefix(ws, side, j + 1);
    }
}

proof fn lemma_sum_run_prefix(ws: Seq<WorldView>, side: int, j: int)
    requires
        0 <= j <= ws.len(),
    ensures
        sum_run(ws, side) >= sum_run(ws.take(j), side),
    decreases ws.len() - j,
{
    if j == ws.len() {
        assert(ws.take(j) =~= ws);
    } else {
        assert(ws.take(j + 1).drop_last() =~= ws.take(j));
        lemma_sum_run_prefix(ws, side, j + 1);
    }
}

proof fn lemma_sum_fc_prefix(ws: Seq<WorldView>, j: int)
    requires
        0 <= j <= ws.len(),
    ensures
        sum_fc(ws) >= sum_fc(ws.take(j)),
    decreases ws.len() - j,
{
    if j == ws.len() {
        assert(ws.take(j) =~= ws);
    } else {
        assert(ws.take(j + 1).drop_last() =~= ws.take(j));
        lemma_sum_fc_prefix(ws, j + 1);
    }
}

/// An all-present fact specializes to each eligible index.
proof fn lemma_all_dashes_at(ws: Seq<WorldView>, side: int, i: int)
    requires
        all_dashes_some(ws, side),
        0 <= i < ws.len(),
        eligible(ws[i]),
    ensures
        side_of(ws[i], side).fewest_dashes is Some,
    decreases ws.len(),
{
    if i < ws.len() - 1 {
        assert(ws.drop_last()[i] == ws[i]);
        lemma_all_dashes_at(ws.drop_last(), side, i);
    }
}

proof fn lemma_all_deaths_at(ws: Seq<WorldView>, side: int, i: int)
    requires
        all_deaths_some(ws, side),
        0 <= i < ws.len(),
        eligible(ws[i]),
    ensures
        side_of(ws[i], side).fewest_deaths is Some,
    decreases ws.len(),
{
    if i < ws.len() - 1 {
        assert(ws.drop_last()[i] == ws[i]);
        lemma_all_deaths_at(ws.drop_last(), side, i);
    }
}

proof fn lemma_all_run_at(ws: Seq<WorldView>, side: int, i: int)
    requires
        all_run_some(ws, side),
        0 <= i < ws.len(),
        eligible(ws[i]),
    ensures
        side_of(ws[i], side).single_run is Some,
    decreases ws.len(),
{
    if i < ws.len() - 1 {
        assert(ws.drop_last()[i] == ws[i]);
        lemma_all_run_at(ws.drop_last(), side, i);
    }
}

proof fn lemma_all_fc_at(ws: Seq<WorldView>, i: int)
    requires
        all_fc_some(ws),
        0 <= i < ws.len(),
        eligible(ws[i]),
    ensures
        ws[i].a_side.full_clear is Some,
    decreases ws.len(),
{
    if i < ws.len() - 1 {
        assert(ws.drop_last()[i] == ws[i]);
        lemma_all_fc_at(ws.drop_last(), i);
    }
}

/// The side record of an area record selected by index.
fn side_ref<'a>(w: &'a WorldStats, side: u8) -> (r: &'a SideStatsCommon)
    requires
        side <= 2,
    ensures
        r@ == side_of(w@, side as int),
{
    if side == 0 {
        &w.a_side.common
    } else if side == 1 {
        &w.b_side.common
    } else {
        &w.c_side.common
    }
}

#[verifier::loop_isolation(false)]
fn completed_exec(worlds: &Vec<WorldStats>, side: u8) -> (r: bool)
    requires
        side <= 2,
    ensures
        r == all_side_completed(views_of(worlds@), side as int),
{
    let ghost vs = views_of(worlds@);
    let n = worlds.len();
    let mut i: usize = 0;
    let mut acc = true;
    proof {
        assert(vs.take(0) =~= Seq::<WorldView>::empty());
    }
    while i < n
        invariant
            i <= n,
            acc == all_side_completed(vs.take(i as int), side as int),
        decreases n - i,
    {
        proof {
            assert(vs.take(i as int + 1).drop_last() =~= vs.take(i as int));
            assert(vs.take(i as int + 1).last() == worlds@[i as int]@);
        }
        let el = worlds[i].world.has_unlockables();
        let c = side_ref(&worlds[i], side).completed;
        acc = acc && (!el || c);
        i = i + 1;
    }
    proof {
        assert(vs.take(n as int) =~= vs);
    }
    acc
}

#[verifier::loop_isolation(false)]
fn cassette_exec(worlds: &Vec<WorldStats>) -> (r: bool)
    ensures
        r == all_cassette(views_of(worlds@)),
{
    let ghost vs = views_of(worlds@);
    let n = worlds.len();
    let mut i: usize = 0;
    let mut acc = true;
    proof {
        assert(vs.take(0) =~= Seq::<WorldView>::empty());
    }
    while i < n
        invariant
            i <= n,
            acc == all_cassette(vs.take(i as int)),
        decreases n - i,
    {
        proof {
            assert(vs.take(i as int + 1).drop_last() =~= vs.take(i as int));
            assert(vs.take(i as int + 1).last() == worlds@[i as int]@);
        }
        let el = worlds[i].world.has_unlockables();
        acc = acc && (!el || worlds[i].a_side.cassette);
        i = i + 1;
    }
    proof {
        assert(vs.take(n as int) =~= vs);
    }
    acc
}

#[verifier::loop_isolation(false)]
fn heart_exec(worlds: &Vec<WorldStats>) -> (r: bool)
    ensures
        r == all_heart(views_of(worlds@)),
{
    let ghost vs = views_of(worlds@);
    let n = worlds.len();
    let mut i: usize = 0;
    let mut acc = true;
    proof {
        assert(vs.take(0) =~= Seq::<WorldView>::empty());
    }
    while i < n
        invariant
            i <= n,
            acc == all_heart(vs.take(i as int)),
        decreases n - i,
    {
        proof {
            assert(vs.take(i as int + 1).drop_last() =~= vs.take(i as int));
            assert(vs.take(i as int + 1).last() == worlds@[i as int]@);
        }
        acc = acc && worlds[i].a_side.heart;
        i = i + 1;
    }
    proof {
        assert(vs.take(n as int) =~= vs);
    }
    acc
}

#[verifier::loop_isolation(false)]
fn agg_dashes_exec(worlds: &Vec<WorldStats>, side: u8) -> (r: Result<Option<u32>, DecodeError>)
    requires
        side <= 2,
    ensures
        r == spec_agg_dashes(views_of(worlds@), side as int),
{
    let ghost vs = views_of(worlds@);
    let n = worlds.len();
    let mut i: usize = 0;
    let mut all_some = true;
    proof {
        assert(vs.take(0) =~= Seq::<WorldView>::empty());
    }
    while i < n
        invariant
            i <= n,
            all_some == all_dashes_some(vs.take(i as int), side as int),
        decreases n - i,
    {
        proof {
            assert(vs.take(i as int + 1).drop_last() =~= vs.take(i as int));
            assert(vs.take(i as int + 1).last() == worlds@[i as int]@);
        }
        let el = worlds[i].world.has_unlockables();
        let has = side_ref(&worlds[i], side).fewest_dashes.is_some();
        all_some = all_some && (!el || has);
        i = i + 1;
    }
    proof {
        assert(vs.take(n as int) =~= vs);
    }
    if !all_some {
        return Ok(None);
    }
    let mut sum: u32 = 0;
    i = 0;
    proof {
        assert(vs.take(0) =~= Seq::<WorldView>::empty());
    }
    while i < n
        invariant
            i <= n,
            sum == sum_dashes(vs.take(i as int), side as int),
        decreases n - i,
    {
        proof {
            assert(vs.take(i as int + 1).drop_last() =~= vs.take(i as int));
            assert(vs.take(i as int + 1).last() == worlds@[i as int]@);
        }
        let el = worlds[i].world.has_unlockables();
        if el {
            let d = match side_ref(&worlds[i], side).fewest_dashes {
                Some(d) => d,
                None => {
                    proof {
                        lemma_all_dashes_at(vs, side as int, i as int);
                    }
                    0
                },
            };
            if sum > u32::MAX - d {
                proof {
                    lemma_sum_dashes_prefix(vs, side as int, i as int + 1);
                }
                return Err(DecodeError::Format);
            }
            sum = sum + d;
        }
        i = i + 1;
    }
    proof {
        assert(vs.take(n as int) =~= vs);
    }
    Ok(Some(sum))
}

#[verifier::loop_isolation(false)]
fn agg_deaths_exec(worlds: &Vec<WorldStats>, side: u8) -> (r: Result<Option<u32>, DecodeError>)
    requires
        side <= 2,
    ensures
        r == spec_agg_deaths(views_of(worlds@), side as int),
{
    let ghost vs = views_of(worlds@);
    let n = worlds.len();
    let mut i: usize = 0;
    let mut all_some = true;
    proof {
        assert(vs.take(0) =~= Seq::<WorldView>::empty());
    }
    while i < n
        invariant
            i <= n,
            all_some == all_deaths_some(vs.take(i as int), side as int),
        decreases n - i,
    {
        proof {
            assert(vs.take(i as int + 1).drop_last() =~= vs.take(i as int));
            assert(vs.take(i as int + 1).last() == worlds@[i as int]@);
        }
        let el = worlds[i].world.has_unlockables();
        let has = side_ref(&worlds[i], side).fewest_deaths.is_some();
        all_some = all_some && (!el || has);
        i = i + 1;
    }
    proof {
        assert(vs.take(n as int) =~= vs);
    }
    if !all_some {
        return Ok(None);
    }
    let mut sum: u32 = 0;
    i = 0;
    proof {
        assert(vs.take(0) =~= Seq::<WorldView>::empty());
    }
    while i < n
        invariant
            i <= n,
            sum == sum_deaths(vs.take(i as int), side as int),
        decreases n - i,
    {
        proof {
            assert(vs.take(i as int + 1).drop_last() =~= vs.take(i as int));
            assert(vs.take(i as int + 1).last() == worlds@[i as int]@);
        }
        let el = worlds[i].world.has_unlockables();
        if el {
            let d = match side_ref(&worlds[i], side).fewest_deaths {
                Some(d) => d,
                None => {
                    proof {
                        lemma_all_deaths_at(vs, side as int, i as int);
                    }
                    0
                },
            };
            if sum > u32::MAX - d {
                proof {
                    lemma_sum_deaths_prefix(vs, side as int, i as int + 1);
                }
                return Err(DecodeError::Format);
            }
            sum = sum + d;
        }
        i = i + 1;
    }
    proof {
        assert(vs.take(n as int) =~= vs);
    }
    Ok(Some(sum))
}

#[verifier::loop_isolation(false)]
fn agg_run_exec(worlds: &Vec<WorldStats>, side: u8) -> (r: Result<Option<Duration>, DecodeError>)
    requires
        side <= 2,
    ensures
        r == spec_agg_run(views_of(worlds@), side as int),
{
    let ghost vs = views_of(worlds@);
    let n = worlds.len();
    let mut i: usize = 0;
    let mut all_some = true;
    proof {
        assert(vs.take(0) =~= Seq::<WorldView>::empty());
    }
    while i < n
        invariant
            i <= n,
            all_some == all_run_some(vs.take(i as int), side as int),
        decreases n - i,
    {
        proof {
            assert(vs.take(i as int + 1).drop_last() =~= vs.take(i as int));
            assert(vs.take(i as int + 1).last() == worlds@[i as int]@);
        }
        let el = worlds[i].world.has_unlockables();
        let has = side_ref(&worlds[i], side).single_run.is_some();
        all_some = all_some && (!el || has);
        i = i + 1;
    }
    proof {
        assert(vs.take(n as int) =~= vs);
    }
    if !all_some {
        return Ok(None);
    }
    let mut sum = Duration::from_nanos(0);
    i = 0;
    proof {
        assert(vs.take(0) =~= Seq::<WorldView>::empty());
    }
    while i < n
        invariant
            i <= n,
            sum.nanos == sum_run(vs.take(i as int), side as int),
        decreases n - i,
    {
        proof {
            assert(vs.take(i as int + 1).drop_last() =~= vs.take(i as int));
            assert(vs.take(i as int + 1).last() == worlds@[i as int]@);
        }
        let el = worlds[i].world.has_unlockables();
        if el {
            let d = match side_ref(&worlds[i], side).single_run {
                Some(d) => d,
                None => {
                    proof {
                        lemma_all_run_at(vs, side as int, i as int);
                    }
                    Duration::from_nanos(0)
                },
            };
            sum = match sum.checked_add(d) {
                Some(s) => s,
                None => {
                    proof {
                        lemma_sum_run_prefix(vs, side as int, i as int + 1);
                    }
                    return Err(DecodeError::Format);
                },
            };
        }
        i = i + 1;
    }
    proof {
        assert(vs.take(n as int) =~= vs);
    }
    Ok(Some(sum))
}

#[verifier::loop_isolation(false)]
fn agg_fc_exec(worlds: &Vec<WorldStats>) -> (r: Result<Option<Duration>, DecodeError>)
    ensures
        r == spec_agg_fc(views_of(worlds@)),
{
    let ghost vs = views_of(worlds@);
    let n = worlds.len();
    let mut i: usize = 0;
    let mut all_some = true;
    proof {
        assert(vs.take(0) =~= Seq::<WorldView>::empty());
    }
    while i < n
        invariant
            i <= n,
            all_some == all_fc_some(vs.take(i as int)),
        decreases n - i,
    {
        proof {
            assert(vs.take(i as int + 1).drop_last() =~= vs.take(i as int));
            assert(vs.take(i as int + 1).last() == worlds@[i as int]@);
        }
        let el = worlds[i].world.has_unlockables();
        let has = worlds[i].a_side.full_clear.is_some();
        all_some = all_some && (!el || has);
        i = i + 1;
    }
    proof {
        assert(vs.take(n as int) =~= vs);
    }
    if !all_some {
        return Ok(None);
    }
    let mut sum = Duration::from_nanos(0);
    i = 0;
    proof {
        assert(vs.take(0) =~= Seq::<WorldView>::empty());
    }
    while i < n
        invariant
            i <= n,
            sum.nanos == sum_fc(vs.take(i as int)),
        decreases n - i,
    {
        proof {
            assert(vs.take(i as int + 1).drop_last() =~= vs.take(i as int));
            assert(vs.take(i as int + 1).last() == worlds@[i as int]@);
        }
        let el = worlds[i].world.has_unlockables();
        if el {
            let d = match worlds[i].a_side.full_clear {
                Some(d) => d,
                None => {
                    proof {
                        lemma_all_fc_at(vs, i as int);
                    }
                    Duration::from_nanos(0)
                },
            };
            sum = match sum.checked_add(d) {
                Some(s) => s,
                None => {
                    proof {
                        lemma_sum_fc_prefix(vs, i as int + 1);
                    }
                    return Err(DecodeError::Format);
                },
            };
        }
        i = i + 1;
    }
    proof {
        assert(vs.take(n as int) =~= vs);
    }
    Ok(Some(sum))
}

/// One placeholder collectible token.
fn make_token(k: u32, world: World) -> (t: String)
    ensures
        t@ == spec_token(k as nat, world),
{
    let mut t = decimal_string(k);
    t.append(":");
    t.append(world.name());
    proof {
        assert(t@ =~= spec_token(k as nat, world));
    }
    t
}

#[verifier::loop_isolation(false)]
fn berry_tokens(worlds: &Vec<WorldStats>) -> (r: Vec<String>)
    requires
        forall|j: int| 0 <= j < worlds@.len() ==> (#[trigger] worlds@[j]@).berries_ok(),
    ensures
        r@.map_values(|b: String| b@) == agg_berries(views_of(worlds@)),
{
    let ghost vs = views_of(worlds@);
    let n = worlds.len();
    let mut out: Vec<String> = Vec::new();
    let mut i: usize = 0;
    proof {
        assert(vs.take(0) =~= Seq::<WorldView>::empty());
        assert(out@.map_values(|b: String| b@) =~= agg_berries(vs.take(0)));
    }
    while i < n
        invariant
            i <= n,
            out@.map_values(|b: String| b@) == agg_berries(vs.take(i as int)),
        decreases n - i,
    {
        proof {
            assert(vs.take(i as int + 1).drop_last() =~= vs.take(i as int));
            assert(vs.take(i as int + 1).last() == worlds@[i as int]@);
        }
        let w = &worlds[i];
        if w.world.has_unlockables() {
            let eff = w.red_berries();
            let mut k: u32 = 0;
            proof {
                assert(out@.map_values(|b: String| b@) =~= agg_berries(vs.take(i as int))
                    + Seq::new(0, |j: int| spec_token(j as nat, w.world)));
            }
            while k < eff
                invariant
                    k <= eff,
                    out@.map_values(|b: String| b@) == agg_berries(vs.take(i as int)) + Seq::new(
                        k as nat,
                        |j: int| spec_token(j as nat, w.world),
                    ),
                decreases eff - k,
            {
                let tok = make_token(k, w.world);
                let ghost old_map = out@.map_values(|b: String| b@);
                out.push(tok);
                proof {
                    assert(out@.map_values(|b: String| b@) =~= old_map.push(
                        spec_token(k as nat, w.world),
                    ));
                    assert(Seq::new(k as nat + 1, |j: int| spec_token(j as nat, w.world)) =~= Seq::new(
                        k as nat,
                        |j: int| spec_token(j as nat, w.world),
                    ).push(spec_token(k as nat, w.world)));
                    assert(old_map.push(spec_token(k as nat, w.world)) =~= agg_berries(
                        vs.take(i as int),
                    ) + Seq::new(k as nat + 1, |j: int| spec_token(j as nat, w.world)));
                }
                k = k + 1;
            }
            proof {
                assert(Seq::new(eff as nat, |j: int| spec_token(j as nat, w.world))
                    =~= world_tokens(vs.take(i as int + 1).last()));
            }
        } else {
            proof {
                assert(out@.map_values(|b: String| b@) =~= agg_berries(vs.take(i as int))
                    + Seq::<Seq<char>>::empty());
            }
        }
        i = i + 1;
    }
    proof {
        assert(vs.take(n as int) =~= vs);
    }
    out
}

/// Builds the synthetic sum-of-bests record from the decoded areas.
#[verifier::loop_isolation(false)]
pub(crate) fn sum_of_bests(worlds: &Vec<WorldStats>) -> (r: Result<WorldStats, DecodeError>)
    requires
        forall|j: int| 0 <= j < worlds@.len() ==> (#[trigger] worlds@[j]@).berries_ok(),
    ensures
        view_result(r) == spec_aggregate(views_of(worlds@)),
{
    let full_clear = match agg_fc_exec(worlds) {
        Err(er) => {
            return Err(er);
        },
        Ok(v) => v,
    };
    let d0 = match agg_dashes_exec(worlds, 0) {
        Err(er) => {
            return Err(er);
        },
        Ok(v) => v,
    };
    let dd0 = match agg_deaths_exec(worlds, 0) {
        Err(er) => {
            return Err(er);
        },
        Ok(v) => v,
    };
    let r0 = match agg_run_exec(worlds, 0) {
        Err(er) => {
            return Err(er);
        },
        Ok(v) => v,
    };
    let d1 = match agg_dashes_exec(worlds, 1) {
        Err(er) => {
            return Err(er);
        },
        Ok(v) => v,
    };
    let dd1 = match agg_deaths_exec(worlds, 1) {
        Err(er) => {
            return Err(er);
        },
        Ok(v) => v,
    };
    let r1 = match agg_run_exec(worlds, 1) {
        Err(er) => {
            return Err(er);
        },
        Ok(v) => v,
    };
    let d2 = match agg_dashes_exec(worlds, 2) {
        Err(er) => {
            return Err(er);
        },
        Ok(v) => v,
    };
    let dd2 = match agg_deaths_exec(worlds, 2) {
        Err(er) => {
            return Err(er);
        },
        Ok(v) => v,
    };
    let r2 = match agg_run_exec(worlds, 2) {
        Err(er) => {
            return Err(er);
        },
        Ok(v) => v,
    };
    let cassette = cassette_exec(worlds);
    let heart = heart_exec(worlds);
    let c0 = completed_exec(worlds, 0);
    let c1 = completed_exec(worlds, 1);
    let c2 = completed_exec(worlds, 2);
    let berries = berry_tokens(worlds);
    let empty_b: Vec<String> = Vec::new();
    let empty_c: Vec<String> = Vec::new();
    let result = WorldStats {
        world: World::SumOfBests,
        a_side: ASideStats {
            cassette,
            heart,
            full_clear,
            common: SideStatsCommon {
                completed: c0,
                single_run: r0,
                fewest_dashes: d0,
                fewest_deaths: dd0,
                berries,
            },
        },
        b_side: BSideStats {
            common: SideStatsCommon {
                completed: c1,
                single_run: r1,
                fewest_dashes: d1,
                fewest_deaths: dd1,
                berries: empty_b,
            },
        },
        c_side: CSideStats {
            common: SideStatsCommon {
                completed: c2,
                single_run: r2,
                fewest_dashes: d2,
                fewest_deaths: dd2,
                berries: empty_c,
            },
        },
    };
    proof {
        assert(result.b_side.common.berries@.map_values(|b: String| b@) =~= Seq::<
            Seq<char>,
        >::empty());
        assert(result.c_side.common.berries@.map_values(|b: String| b@) =~= Seq::<
            Seq<char>,
        >::empty());
    }
    Ok(result)
}

} // verus!
