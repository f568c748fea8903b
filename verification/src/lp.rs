//! The perfect-foresight LP's size guard and its rolling-horizon window
//! plan.
//!
//! A single whole-horizon multi-zone LP is not viable past a few years,
//! so the horizon is solved in overlapping windows of `window_periods`;
//! of each window's decisions only the first `commit_periods` are
//! committed (the rest is foresight lookahead), the next window starts
//! where the commitment ends, and the final window commits everything
//! it sees. Before any LP is built its decision-variable count is
//! estimated and an oversized problem is refused.
use vstd::prelude::*;

use vstd::string::StringExecFns;

use crate::error::{GridError, run_inputs_refusal};
use crate::text::{append_decimal, decimal};

verus! {

/// The perfect-foresight LP decision-variable cap: an LP whose estimated
/// variable count exceeds it is refused before it is built.
pub const LP_VARIABLE_CAP: u64 = 2_500_000;

/// Which quantity the LP minimises.
#[derive(Debug, Clone, Copy, PartialEq, Eq)]
pub enum LpObjective {
    /// Minimise total unserved energy (the feasibility oracle).
    MinUnserved,
    /// Minimise total curtailment, with unserved strongly dominating
    /// (the least-waste economic dispatch).
    MinCurtailment,
}

/// What the variable estimate reads of one zone.
#[derive(Debug, Clone, Copy, PartialEq, Eq)]
pub struct LpZoneShape {
    /// Fleet entries without a capacity-factor trace (each one `gen`
    /// variable per period; energy-budgeted entries included).
    pub dispatchable_entries: usize,
    /// Stores in the zone's portfolio (`charge`, `discharge`, `soc`).
    pub stores: usize,
}

/// What the variable estimate reads of a scenario.
#[derive(Debug, Clone, PartialEq, Eq)]
pub struct LpShape {
    /// The zones, in scenario order.
    pub zones: Vec<LpZoneShape>,
    /// The number of links in the scenario.
    pub links: usize,
}

/// Per-period variables of one zone: one per dispatchable entry, three
/// per store, plus `unserved` and `curtailment`.
pub open spec fn zone_variables(zone: LpZoneShape) -> int {
    zone.dispatchable_entries + 3 * zone.stores + 2
}

/// Per-period variables of a list of zones.
pub open spec fn zones_variables(zones: Seq<LpZoneShape>) -> int
    decreases zones.len(),
{
    if zones.len() == 0 {
        0
    } else {
        zones_variables(zones.drop_last()) + zone_variables(zones.last())
    }
}

/// Per-period decision variables of the LP: the zones' variables plus,
/// when links are live (more than one zone), two per link (`fwd`,
/// `rev`).
pub open spec fn variables_per_period(shape: LpShape) -> int {
    zones_variables(shape.zones@) + if shape.zones.len() > 1 {
        2 * shape.links
    } else {
        0int
    }
}

/// The LP's estimated variable count over `periods` periods, saturating
/// at `u64::MAX`.
pub open spec fn estimated_variables(shape: LpShape, periods: usize) -> int {
    let total = variables_per_period(shape) * periods;
    if total > u64::MAX {
        u64::MAX as int
    } else {
        total
    }
}

proof fn lemma_zones_variables_monotone(zones: Seq<LpZoneShape>, k: int)
    requires
        0 <= k <= zones.len(),
    ensures
        0 <= zones_variables(zones.take(k)) <= zones_variables(zones),
    decreases zones.len() - k,
{
    if k < zones.len() {
        lemma_zones_variables_monotone(zones, k + 1);
        assert(zones.take(k + 1).drop_last() =~= zones.take(k));
        lemma_zones_variables_nonnegative(zones.take(k));
    } else {
        assert(zones.take(k) =~= zones);
        lemma_zones_variables_nonnegative(zones);
    }
}

proof fn lemma_zones_variables_nonnegative(zones: Seq<LpZoneShape>)
    ensures
        zones_variables(zones) >= 0,
    decreases zones.len(),
{
    if zones.len() > 0 {
        lemma_zones_variables_nonnegative(zones.drop_last());
    }
}

/// Estimate the number of decision variables the perfect-foresight LP
/// builds for a scenario of this shape over `periods` half-hourly
/// periods: one `gen` per dispatchable entry, three per store, two per
/// zone, and two per link when links are live, all per period.
pub fn estimate_lp_variables(shape: &LpShape, periods: usize) -> (estimate: u64)
    requires
        variables_per_period(*shape) <= u64::MAX,
    ensures
        estimate == estimated_variables(*shape, periods),
{
    let links_live = shape.zones.len() > 1;
    let mut per_period: u64 = 0;
    let mut z: usize = 0;
    proof {
        lemma_zones_variables_monotone(shape.zones@, 0);
    }
    while z < shape.zones.len()
        invariant
            z <= shape.zones.len(),
            per_period == zones_variables(shape.zones@.take(z as int)),
            variables_per_period(*shape) <= u64::MAX,
        decreases shape.zones.len() - z,
    {
        proof {
            lemma_zones_variables_monotone(shape.zones@, z + 1);
            assert(shape.zones@.take(z + 1).drop_last() =~= shape.zones@.take(z as int));
            lemma_zones_variables_nonnegative(shape.zones@);
        }
        let zone = shape.zones[z];
        per_period = per_period + zone.dispatchable_entries as u64 + 3 * zone.stores as u64 + 2;
        z += 1;
    }
    proof {
        assert(shape.zones@.take(z as int) =~= shape.zones@);
    }
    if links_live {
        per_period = per_period + 2 * shape.links as u64;
    }
    match per_period.checked_mul(periods as u64) {
        Some(total) => total,
        None => u64::MAX,
    }
}

/// The size guard run before any LP is built: the estimate when it is
/// within [`LP_VARIABLE_CAP`], else [`GridError::LpProblemTooLarge`].
pub fn check_lp_size(shape: &LpShape, periods: usize) -> (r: Result<u64, GridError>)
    requires
        variables_per_period(*shape) <= u64::MAX,
    ensures
        r is Ok <==> estimated_variables(*shape, periods) <= LP_VARIABLE_CAP,
        r matches Ok(estimate) ==> estimate == estimated_variables(*shape, periods),
        r matches Err(e) ==> e == (GridError::LpProblemTooLarge {
            periods,
            zones: shape.zones.len(),
            estimated_variables: estimated_variables(*shape, periods) as u64,
            cap: LP_VARIABLE_CAP,
        }),
{
    let estimated = estimate_lp_variables(shape, periods);
    if estimated > LP_VARIABLE_CAP {
        Err(
            GridError::LpProblemTooLarge {
                periods,
                zones: shape.zones.len(),
                estimated_variables: estimated,
                cap: LP_VARIABLE_CAP,
            },
        )
    } else {
        Ok(estimated)
    }
}

/// One window of the rolling-horizon LP: it solves periods
/// `[from, from + len)` and commits the first `commit` of them.
#[derive(Debug, Clone, Copy, PartialEq, Eq)]
pub struct LpWindow {
    /// First period of the window.
    pub from: usize,
    /// Periods the window solves (committed plus lookahead).
    pub len: usize,
    /// Periods the window commits to the output.
    pub commit: usize,
}

/// Why [`rolling_windows`] refuses a request.
pub open spec fn rolling_windows_reason(window_periods: usize, commit_periods: usize) -> Seq<char> {
    if commit_periods == 0 || window_periods < commit_periods {
        "rolling-horizon LP needs 1 <= commit_periods <= window_periods (got window "@ + decimal(
            window_periods as nat,
        ) + ", commit "@ + decimal(commit_periods as nat) + ")"@
    } else {
        "a rolling LP run needs at least one zone and one period"@
    }
}

/// The window starting at `from` solves `min(window_periods, periods −
/// from)` periods.
pub open spec fn window_len(periods: usize, window_periods: usize, from: usize) -> int {
    if window_periods < periods - from {
        window_periods as int
    } else {
        periods - from
    }
}

/// `windows` is the rolling plan for the horizon: the first window
/// starts at period 0; every window solves `min(window_periods, periods
/// − from)` periods; every window but the last reaches short of the
/// horizon's end, commits `commit_periods` and is followed by the window
/// starting where its commitment ends; the last window reaches the end
/// of the horizon and commits everything it solves.
pub open spec fn is_rolling_plan(
    periods: usize,
    window_periods: usize,
    commit_periods: usize,
    windows: Seq<LpWindow>,
) -> bool {
    &&& windows.len() > 0
    &&& windows[0].from == 0
    &&& forall|k: int|
        0 <= k < windows.len() ==> (#[trigger] windows[k]).from < periods && windows[k].len == window_len(
            periods,
            window_periods,
            windows[k].from,
        )
    &&& forall|k: int|
        0 <= k < windows.len() - 1 ==> {
            &&& (#[trigger] windows[k]).from + windows[k].len < periods
            &&& windows[k].commit == commit_periods
            &&& windows[k + 1].from == windows[k].from + windows[k].commit
        }
    &&& windows.last().from + windows.last().len == periods
    &&& windows.last().commit == windows.last().len
}

/// The window plan of the rolling-horizon LP over `periods` periods:
/// windows of `window_periods`, each committing `commit_periods` except
/// the last, which commits all it solves. A plan whose window spans the
/// whole horizon is the single whole-horizon solve. Refused when
/// `commit_periods` is zero or exceeds `window_periods`, or the horizon
/// is empty.
pub fn rolling_windows(periods: usize, window_periods: usize, commit_periods: usize) -> (r: Result<
    Vec<LpWindow>,
    GridError,
>)
    ensures
        r is Ok <==> (1 <= commit_periods <= window_periods && periods > 0),
        r matches Err(e) ==> run_inputs_refusal(e, rolling_windows_reason(window_periods, commit_periods)),
        r matches Ok(windows) ==> is_rolling_plan(periods, window_periods, commit_periods, windows@),
{
    if commit_periods == 0 || window_periods < commit_periods {
        let mut reason = String::from_str("rolling-horizon LP needs 1 <= commit_periods <= window_periods (got window ");
        append_decimal(&mut reason, window_periods as u64);
        reason.append(", commit ");
        append_decimal(&mut reason, commit_periods as u64);
        reason.append(")");
        return Err(GridError::InvalidRunInputs { reason });
    }
    if periods == 0 {
        return Err(
            GridError::InvalidRunInputs {
                reason: String::from_str("a rolling LP run needs at least one zone and one period"),
            },
        );
    }
    let mut windows: Vec<LpWindow> = Vec::new();
    let mut cursor: usize = 0;
    while cursor < periods
        invariant
            1 <= commit_periods <= window_periods,
            periods > 0,
            cursor <= periods,
            windows.len() == 0 <==> cursor == 0,
            windows.len() > 0 ==> windows@[0].from == 0,
            forall|k: int|
                0 <= k < windows.len() ==> (#[trigger] windows@[k]).from < periods && windows@[k].len
                    == window_len(periods, window_periods, windows@[k].from),
            forall|k: int|
                0 <= k < windows.len() - 1 ==> {
                    &&& (#[trigger] windows@[k]).from + windows@[k].len < periods
                    &&& windows@[k].commit == commit_periods
                    &&& windows@[k + 1].from == windows@[k].from + windows@[k].commit
                },
            windows.len() > 0 ==> windows@.last().from + windows@.last().commit == cursor,
            windows.len() > 0 ==> (windows@.last().from + windows@.last().len < periods
                && windows@.last().commit == commit_periods) || (windows@.last().from
                + windows@.last().len == periods && windows@.last().commit == windows@.last().len),
        decreases periods - cursor,
    {
        let remaining = periods - cursor;
        let len = if window_periods < remaining {
            window_periods
        } else {
            remaining
        };
        let commit = if len == remaining {
            len
        } else if commit_periods < len {
            commit_periods
        } else {
            len
        };
        let ghost before = windows@;
        windows.push(LpWindow { from: cursor, len, commit });
        proof {
            assert forall|k: int| 0 <= k < windows.len() - 1 implies {
                &&& (#[trigger] windows@[k]).from + windows@[k].len < periods
                &&& windows@[k].commit == commit_periods
                &&& windows@[k + 1].from == windows@[k].from + windows@[k].commit
            } by {
                assert(windows@[k] == before[k]);
                if k < before.len() - 1 {
                    assert(windows@[k + 1] == before[k + 1]);
                } else {
                    assert(before.last() == before[k]);
                }
            }
        }
        cursor = cursor + commit;
    }
    Ok(windows)
}

/// Every period of the horizon is committed by exactly one window of a
/// rolling plan, and the committed segments follow one another in
/// window order: window `k` commits `[from, from + commit)`, which ends
/// at or before the start of every later window's commitment.
pub proof fn lemma_rolling_plan_commits_each_period_once(
    periods: usize,
    window_periods: usize,
    commit_periods: usize,
    windows: Seq<LpWindow>,
    t: int,
)
    requires
        1 <= commit_periods <= window_periods,
        is_rolling_plan(periods, window_periods, commit_periods, windows),
        0 <= t < periods,
    ensures
        exists|k: int|
            0 <= k < windows.len() && (#[trigger] windows[k]).from <= t < windows[k].from + windows[k].commit,
        forall|k1: int, k2: int|
            0 <= k1 < k2 < windows.len() ==> (#[trigger] windows[k1]).from + windows[k1].commit
                <= (#[trigger] windows[k2]).from,
{
    lemma_plan_chain(periods, window_periods, commit_periods, windows, windows.len() - 1, t);
    assert forall|k1: int, k2: int| 0 <= k1 < k2 < windows.len() implies (#[trigger] windows[k1]).from
        + windows[k1].commit <= (#[trigger] windows[k2]).from by {
        lemma_plan_ordered(periods, window_periods, commit_periods, windows, k1, k2);
    }
}

/// The commitments of windows `k1 < k2` are in order.
proof fn lemma_plan_ordered(
    periods: usize,
    window_periods: usize,
    commit_periods: usize,
    windows: Seq<LpWindow>,
    k1: int,
    k2: int,
)
    requires
        1 <= commit_periods <= window_periods,
        is_rolling_plan(periods, window_periods, commit_periods, windows),
        0 <= k1 < k2 < windows.len(),
    ensures
        windows[k1].from + windows[k1].commit <= windows[k2].from,
    decreases k2 - k1,
{
    assert(windows[k1].from + windows[k1].len < periods);
    if k2 > k1 + 1 {
        lemma_plan_ordered(periods, window_periods, commit_periods, windows, k1 + 1, k2);
    }
}

/// Every period before the end of window `k`'s commitment is committed
/// by one of the windows `0..=k`.
proof fn lemma_plan_chain(
    periods: usize,
    window_periods: usize,
    commit_periods: usize,
    windows: Seq<LpWindow>,
    k: int,
    t: int,
)
    requires
        1 <= commit_periods <= window_periods,
        is_rolling_plan(periods, window_periods, commit_periods, windows),
        0 <= k < windows.len(),
        0 <= t < windows[k].from + windows[k].commit,
    ensures
        exists|j: int| 0 <= j <= k && (#[trigger] windows[j]).from <= t < windows[j].from + windows[j].commit,
    decreases k,
{
    if t >= windows[k].from {
        assert(windows[k].from <= t < windows[k].from + windows[k].commit);
    } else {
        assert(k > 0);
        assert(windows[k - 1].from + windows[k - 1].len < periods);
        lemma_plan_chain(periods, window_periods, commit_periods, windows, k - 1, t);
        let j = choose|j: int| 0 <= j <= k - 1 && (#[trigger] windows[j]).from <= t < windows[j].from + windows[j].commit;
        assert(windows[j].from <= t);
    }
}

/// Links cost LP variables whenever links are live, that is in every
/// scenario of two or more zones: one more link adds exactly two
/// variables per period (`fwd`, `rev`); with a single zone links add
/// nothing.
pub proof fn lemma_each_link_adds_two_variables_when_live(fewer: LpShape, more: LpShape)
    requires
        more.zones@ == fewer.zones@,
        more.links == fewer.links + 1,
    ensures
        fewer.zones.len() >= 2 ==> variables_per_period(more) == variables_per_period(fewer) + 2,
        fewer.zones.len() <= 1 ==> variables_per_period(more) == variables_per_period(fewer),
{
}

/// A zone's own variables: adding a zone adds its entries, three per
/// store and two balance variables per period, and going from one zone
/// to two makes the scenario's links live.
pub proof fn lemma_each_zone_adds_its_variables(fewer: LpShape, more: LpShape, zone: LpZoneShape)
    requires
        more.zones@ == fewer.zones@.push(zone),
        more.links == fewer.links,
    ensures
        variables_per_period(more) == variables_per_period(fewer) + zone.dispatchable_entries + 3 * zone.stores + 2
            + if fewer.zones.len() == 1 {
            2 * fewer.links
        } else {
            0int
        },
{
    assert(more.zones@.drop_last() =~= fewer.zones@);
}

/// A live link's variables scale with the horizon: over `periods`
/// periods, within the saturation bound, one more link in a scenario of
/// two or more zones adds exactly `2 × periods` to the estimate.
pub proof fn lemma_link_variables_scale_with_periods(fewer: LpShape, more: LpShape, periods: usize)
    requires
        more.zones@ == fewer.zones@,
        more.links == fewer.links + 1,
        fewer.zones.len() >= 2,
        variables_per_period(more) * periods <= u64::MAX,
    ensures
        estimated_variables(more, periods) == estimated_variables(fewer, periods) + 2 * periods,
{
    lemma_each_link_adds_two_variables_when_live(fewer, more);
    lemma_zones_variables_nonnegative(fewer.zones@);
    assert(variables_per_period(more) * periods == variables_per_period(fewer) * periods + 2 * periods)
        by (nonlinear_arith)
        requires
            variables_per_period(more) == variables_per_period(fewer) + 2,
    ;
    assert(variables_per_period(fewer) * periods >= 0) by (nonlinear_arith)
        requires
            variables_per_period(fewer) >= 0,
    ;
}

/// The estimate is the per-period count times the periods while that
/// fits in a `u64`, and pins at `u64::MAX` beyond, so an oversized LP can
/// never wrap round to a small estimate.
pub proof fn lemma_estimate_saturates(shape: LpShape, periods: usize)
    ensures
        0 <= estimated_variables(shape, periods) <= u64::MAX,
        variables_per_period(shape) * periods <= u64::MAX ==> estimated_variables(shape, periods)
            == variables_per_period(shape) * periods,
        variables_per_period(shape) * periods > u64::MAX ==> estimated_variables(shape, periods) == u64::MAX,
        estimated_variables(shape, periods) >= if variables_per_period(shape) * periods <= u64::MAX {
            variables_per_period(shape) * periods
        } else {
            u64::MAX as int
        },
{
    lemma_zones_variables_nonnegative(shape.zones@);
    assert(variables_per_period(shape) * periods >= 0) by (nonlinear_arith)
        requires
            variables_per_period(shape) >= 0,
    ;
}

} // verus!
