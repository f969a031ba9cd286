//! Laws of the decoder and the aggregator, stated over the specification
//! mirrors and proved once for all documents.

use vstd::prelude::*;

use crate::aggregate::{all_fc_some, spec_aggregate, sum_fc};
use crate::document::{attr_of, first_named, Node};
use crate::duration::Duration;
use crate::error::DecodeError;
use crate::stats::{spec_count_true, spec_gems, spec_side_finish, spec_side_from, spec_stats_from,
    spec_world_from, StatsView, WorldView};
use crate::textparse::spec_parse_u64;

verus! {

/// Every decoded side record has its three single-run fields — time, dash
/// count, death count — present together or absent together.
pub proof fn lemma_side_run_fields_together(e: Node)
    ensures
        spec_side_from(e) matches Ok(s) ==> (s.single_run is Some <==> s.fewest_dashes is Some)
            && (s.fewest_dashes is Some <==> s.fewest_deaths is Some),
{
}

/// A best time of `t` ticks decodes to exactly `100 * t` nanoseconds.
pub proof fn lemma_tick_conversion(e: Node, t: u64)
    requires
        attr_of(e, "SingleRunCompleted"@) == Some("true"@),
        attr_of(e, "BestTime"@) matches Some(ts) && spec_parse_u64(ts) == Some(t),
    ensures
        spec_side_from(e) matches Ok(s) ==> s.single_run == Some(
            Duration { nanos: (t * 100) as u128 },
        ),
{
}

/// A side marked completed without the single-run marker decodes without an
/// error from that absence: the record is completed and all three single-run
/// fields are absent.
pub proof fn lemma_completed_without_single_run(e: Node)
    requires
        e.name@ == "AreaModeStats"@,
        attr_of(e, "Completed"@) == Some("true"@),
        attr_of(e, "SingleRunCompleted"@) is None,
    ensures
        spec_side_from(e) == spec_side_finish(e, true, None, None, None),
        spec_side_from(e) matches Ok(s) ==> s.completed && s.single_run is None
            && s.fewest_dashes is None && s.fewest_deaths is None,
{
}

/// A collected count of exactly one over the area maximum is tolerated: the
/// effective red-berry count stays capped at the maximum, and the golden
/// berry is reported.
pub proof fn lemma_golden_keeps_cap(w: WorldView)
    requires
        w.spec_berry_count() == w.world.spec_red_berries() + 1,
    ensures
        w.berries_ok(),
        w.spec_red_berries() == w.world.spec_red_berries(),
        w.spec_has_golden_a(),
{
}

/// An area decodes only when its collected count is within tolerance: at
/// most one over the maximum, or exactly two over it for the one area with
/// the winged golden. Any other excess is a decode failure.
pub proof fn lemma_decoded_area_tolerates_berries(e: Node)
    ensures
        spec_world_from(e) matches Ok(w) ==> w.berries_ok(),
{
}

/// The aggregate full-clear time is absent whenever any eligible area lacks
/// one, and otherwise equals the exact sum of their full-clear times.
pub proof fn lemma_aggregate_full_clear(ws: Seq<WorldView>)
    ensures
        spec_aggregate(ws) matches Ok(agg) ==> (agg.a_side.full_clear is Some <==> all_fc_some(
            ws,
        )),
        spec_aggregate(ws) matches Ok(agg) ==> (agg.a_side.full_clear matches Some(d) ==> d.nanos
            == sum_fc(ws)),
{
}

/// A missing summit-gem section yields zero gems, never an error; a present
/// one yields the count of its true-valued children.
pub proof fn lemma_summit_gems(doc: Node)
    ensures
        first_named(doc.children@, "SummitGems"@) is None ==> spec_gems(doc) == Ok::<
            u8,
            DecodeError,
        >(0u8),
        spec_gems(doc) matches Ok(g) ==> g as nat == (match first_named(
            doc.children@,
            "SummitGems"@,
        ) {
            None => 0nat,
            Some(el) => spec_count_true(el.children@),
        }),
{
}

/// A document whose root is not the save-data element fails with a
/// structure error, whatever else it holds.
pub proof fn lemma_wrong_root_rejected(doc: Node)
    requires
        doc.name@ != "SaveData"@,
    ensures
        spec_stats_from(doc) == Err::<StatsView, DecodeError>(DecodeError::Structure),
{
}

} // verus!
