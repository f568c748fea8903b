//! The fixed thermal merit orders.
//!
//! Single-zone dispatch runs the non-storage dispatchable stack in the
//! fixed order [`MERIT_ORDER`], cheapest first. The multi-zone engines
//! use the frozen six-rung ladder [`FLOW_MERIT_ORDER`]: the scarcity
//! signal there is numerically index-based, so that ladder cannot grow
//! without moving every multi-zone result. The two ladders never
//! disagree on relative order ([`lemma_flow_ladder_is_ordered_subset`]).
use vstd::prelude::*;

use vstd::string::StringExecFns;

use crate::error::{GridError, scenario_refusal};
use crate::ranking::{
    is_stable_ranking, lemma_ranking_visits_every_position, lemma_stable_ranking_unique, ranked_before, stable_ranking,
};
use crate::text::{text_equal, texts};

verus! {

/// The fixed thermal merit order for single-zone dispatch, cheapest
/// first.
pub const MERIT_ORDER: [&'static str; 13] = [
    "nuclear",
    "biomass",
    "beccs",
    "waste",
    "other_generation",
    "hydro",
    "coal",
    "ccgt_ccs",
    "low_carbon_dispatchable",
    "ccgt",
    "ocgt",
    "oil",
    "hydrogen_turbine",
];

/// The shared multi-zone merit ladder: the six-rung stack, frozen.
pub const FLOW_MERIT_ORDER: [&'static str; 6] = ["nuclear", "biomass", "hydro", "coal", "ccgt", "ocgt"];

/// [`MERIT_ORDER`], as character sequences.
pub open spec fn merit_order() -> Seq<Seq<char>> {
    seq![
        "nuclear"@,
        "biomass"@,
        "beccs"@,
        "waste"@,
        "other_generation"@,
        "hydro"@,
        "coal"@,
        "ccgt_ccs"@,
        "low_carbon_dispatchable"@,
        "ccgt"@,
        "ocgt"@,
        "oil"@,
        "hydrogen_turbine"@,
    ]
}

/// [`FLOW_MERIT_ORDER`], as character sequences.
pub open spec fn flow_merit_order() -> Seq<Seq<char>> {
    seq!["nuclear"@, "biomass"@, "hydro"@, "coal"@, "ccgt"@, "ocgt"@]
}

/// `tech` first occurs in `order` at position `i`.
pub open spec fn first_at(order: Seq<Seq<char>>, tech: Seq<char>, i: int) -> bool {
    &&& 0 <= i < order.len()
    &&& order[i] == tech
    &&& forall|j: int| 0 <= j < i ==> order[j] != tech
}

/// Where each rung of the flow ladder sits in the dispatch ladder.
pub open spec fn flow_rung_in_merit_order(k: int) -> int {
    seq![0int, 1, 5, 6, 9, 10][k]
}

/// The first position of `tech` in a ladder, if it is on it.
fn position_in<const N: usize>(ladder: [&'static str; N], tech: &str) -> (r: Option<usize>)
    ensures
        r matches Some(i) ==> first_at(ladder@.map_values(|s: &str| s@), tech@, i as int),
        r is None ==> !ladder@.map_values(|s: &str| s@).contains(tech@),
{
    let ghost order = ladder@.map_values(|s: &str| s@);
    let mut i: usize = 0;
    while i < N
        invariant
            i <= N,
            ladder@.len() == N,
            order == ladder@.map_values(|s: &str| s@),
            forall|j: int| 0 <= j < i ==> order[j] != tech@,
        decreases N - i,
    {
        if text_equal(ladder[i], tech) {
            return Some(i);
        }
        i += 1;
    }
    None
}

/// A technology's rung on the single-zone dispatch ladder
/// ([`MERIT_ORDER`]); `None` for a technology the ladder does not name.
pub fn merit_position(tech: &str) -> (r: Option<usize>)
    ensures
        r matches Some(i) ==> first_at(merit_order(), tech@, i as int),
        r is None ==> !merit_order().contains(tech@),
{
    let r = position_in(MERIT_ORDER, tech);
    assert(MERIT_ORDER@.map_values(|s: &str| s@) =~= merit_order());
    r
}

/// A technology's rung on the multi-zone flow ladder
/// ([`FLOW_MERIT_ORDER`]); `None` for a technology the ladder does not
/// name.
pub fn flow_ladder_position(tech: &str) -> (r: Option<usize>)
    ensures
        r matches Some(i) ==> first_at(flow_merit_order(), tech@, i as int),
        r is None ==> !flow_merit_order().contains(tech@),
{
    let r = position_in(FLOW_MERIT_ORDER, tech);
    assert(FLOW_MERIT_ORDER@.map_values(|s: &str| s@) =~= flow_merit_order());
    r
}

/// The flow ladder is a subset of the dispatch ladder in the same
/// relative order: rung `k` of [`FLOW_MERIT_ORDER`] first occurs in
/// [`MERIT_ORDER`] at a position that grows strictly with `k`.
pub proof fn lemma_flow_ladder_is_ordered_subset()
    ensures
        forall|k: int| 0 <= k < 6 ==> #[trigger] first_at(merit_order(), flow_merit_order()[k], flow_rung_in_merit_order(k)),
        forall|k1: int, k2: int|
            0 <= k1 < k2 < 6 ==> #[trigger] flow_rung_in_merit_order(k1) < #[trigger] flow_rung_in_merit_order(k2),
{
    reveal_strlit("nuclear");
    reveal_strlit("biomass");
    reveal_strlit("beccs");
    reveal_strlit("waste");
    reveal_strlit("other_generation");
    reveal_strlit("hydro");
    reveal_strlit("coal");
    reveal_strlit("ccgt_ccs");
    reveal_strlit("low_carbon_dispatchable");
    reveal_strlit("ccgt");
    reveal_strlit("ocgt");
    let merit = merit_order();
    let flow = flow_merit_order();
    assert forall|k: int| 0 <= k < 6 implies #[trigger] first_at(merit, flow[k], flow_rung_in_merit_order(k)) by {
        let p = flow_rung_in_merit_order(k);
        assert forall|j: int| 0 <= j < p implies merit[j] != flow[k] by {
            assert(merit[j][0] != flow[k][0] || merit[j][1] != flow[k][1] || merit[j].len() != flow[k].len());
        }
    }
}

/// The rung a technology occupies on a ladder: its first position.
pub open spec fn rung(ladder: Seq<Seq<char>>, tech: Seq<char>) -> int {
    choose|i: int| first_at(ladder, tech, i)
}

/// The rungs of a list of technologies on a ladder.
pub open spec fn rungs(ladder: Seq<Seq<char>>, techs: Seq<Seq<char>>) -> Seq<usize> {
    techs.map_values(|tech: Seq<char>| rung(ladder, tech) as usize)
}

/// Position `i` holds the first technology the ladder does not name.
pub open spec fn first_off_ladder(ladder: Seq<Seq<char>>, techs: Seq<Seq<char>>, i: int) -> bool {
    &&& 0 <= i < techs.len()
    &&& !ladder.contains(techs[i])
    &&& forall|k: int| 0 <= k < i ==> ladder.contains(techs[k])
}

/// Every technology is on the ladder.
pub open spec fn all_on_ladder(ladder: Seq<Seq<char>>, techs: Seq<Seq<char>>) -> bool {
    forall|k: int| 0 <= k < techs.len() ==> ladder.contains(#[trigger] techs[k])
}

proof fn lemma_first_at_unique(order: Seq<Seq<char>>, tech: Seq<char>, i: int, j: int)
    requires
        first_at(order, tech, i),
        first_at(order, tech, j),
    ensures
        i == j,
{
}

/// Each technology's rung on a ladder, or the first technology the
/// ladder does not name.
fn ladder_rungs<const N: usize>(ladder: [&'static str; N], techs: &Vec<String>) -> (r: Result<Vec<usize>, GridError>)
    ensures
        r is Ok <==> all_on_ladder(ladder@.map_values(|s: &str| s@), texts(techs@)),
        r matches Ok(keys) ==> keys@ == rungs(ladder@.map_values(|s: &str| s@), texts(techs@)) && forall|k: int|
            0 <= k < keys.len() ==> #[trigger] keys@[k] < N,
        r matches Err(e) ==> exists|i: int|
            first_off_ladder(ladder@.map_values(|s: &str| s@), texts(techs@), i) && e == (
            GridError::UnknownThermalTechnology { tech: techs@[i] }),
{
    let ghost order = ladder@.map_values(|s: &str| s@);
    let ghost t = texts(techs@);
    let mut keys: Vec<usize> = Vec::new();
    let mut i: usize = 0;
    while i < techs.len()
        invariant
            i <= techs.len(),
            order == ladder@.map_values(|s: &str| s@),
            t == texts(techs@),
            order.len() == N,
            keys@ =~= rungs(order, t).take(i as int),
            forall|k: int| 0 <= k < keys.len() ==> #[trigger] keys@[k] < N,
            forall|k: int| 0 <= k < i ==> order.contains(#[trigger] t[k]),
        decreases techs.len() - i,
    {
        match position_in(ladder, techs[i].as_str()) {
            Some(p) => {
                proof {
                    let c = rung(order, t[i as int]);
                    assert(first_at(order, t[i as int], p as int));
                    lemma_first_at_unique(order, t[i as int], c, p as int);
                    assert(order[p as int] == t[i as int]);
                }
                keys.push(p);
            },
            None => {
                let tech = techs[i].clone();
                proof {
                    assert(first_off_ladder(order, t, i as int));
                }
                return Err(GridError::UnknownThermalTechnology { tech });
            },
        }
        i += 1;
    }
    assert(keys@ =~= rungs(order, t));
    Ok(keys)
}

/// The single-zone dispatch order of a zone's dispatchable entries
/// (their technologies, in fleet order): the entries' positions sorted
/// by their rung on [`MERIT_ORDER`], entries on one rung in fleet order.
/// A technology the ladder does not name is refused.
pub fn dispatch_stack_order(techs: &Vec<String>) -> (r: Result<Vec<usize>, GridError>)
    ensures
        r is Ok <==> all_on_ladder(merit_order(), texts(techs@)),
        r matches Ok(order) ==> is_stable_ranking(rungs(merit_order(), texts(techs@)), order@),
        r matches Err(e) ==> exists|i: int|
            first_off_ladder(merit_order(), texts(techs@), i) && e == (GridError::UnknownThermalTechnology {
                tech: techs@[i],
            }),
{
    assert(MERIT_ORDER@.map_values(|s: &str| s@) =~= merit_order());
    let keys = ladder_rungs(MERIT_ORDER, techs)?;
    Ok(stable_ranking(&keys, 13))
}

/// Position `k` of a ranking starts its first pair of adjacent entries
/// that share a rung.
pub open spec fn first_shared_rung(keys: Seq<usize>, ranking: Seq<usize>, k: int) -> bool {
    &&& 0 <= k < ranking.len() - 1
    &&& keys[ranking[k] as int] == keys[ranking[k + 1] as int]
    &&& forall|m: int| 0 <= m < k ==> keys[#[trigger] ranking[m] as int] != keys[ranking[m + 1] as int]
}

/// Why a zone whose entries `zone` shares a rung is refused; `tech` is
/// the first entry of the first shared rung.
pub open spec fn shared_rung_reason(zone: Seq<char>, tech: Seq<char>) -> Seq<char> {
    "zone "@ + zone + ": two dispatchable entries share merit position ("@ + tech + ")"@
}

/// No two positions share a key.
pub open spec fn keys_distinct(keys: Seq<usize>) -> bool {
    forall|i: int, j: int| 0 <= i < keys.len() && 0 <= j < keys.len() && i != j ==> keys[i] != keys[j]
}

/// The multi-zone dispatch order of a zone's dispatchable entries
/// (their technologies, in fleet order): the entries' positions sorted
/// by their rung on [`FLOW_MERIT_ORDER`]. A technology the ladder does
/// not name is refused, and so are two entries on one rung (the zone's
/// supply curve would be ill-defined): the error names the zone and the
/// first entry of the first shared rung.
pub fn flow_stack_order(zone: &str, techs: &Vec<String>) -> (r: Result<Vec<usize>, GridError>)
    ensures
        r is Ok <==> all_on_ladder(flow_merit_order(), texts(techs@)) && keys_distinct(
            rungs(flow_merit_order(), texts(techs@)),
        ),
        r matches Ok(order) ==> is_stable_ranking(rungs(flow_merit_order(), texts(techs@)), order@),
        r matches Err(e) ==> (exists|i: int|
            first_off_ladder(flow_merit_order(), texts(techs@), i) && e == (GridError::UnknownThermalTechnology {
                tech: techs@[i],
            })) || (all_on_ladder(flow_merit_order(), texts(techs@)) && exists|ranking: Seq<usize>, k: int|
            is_stable_ranking(rungs(flow_merit_order(), texts(techs@)), ranking) && first_shared_rung(
                rungs(flow_merit_order(), texts(techs@)),
                ranking,
                k,
            ) && scenario_refusal(e, shared_rung_reason(zone@, techs@[ranking[k] as int]@))),
{
    assert(FLOW_MERIT_ORDER@.map_values(|s: &str| s@) =~= flow_merit_order());
    let keys = ladder_rungs(FLOW_MERIT_ORDER, techs)?;
    let order = stable_ranking(&keys, 6);
    let ghost ks = keys@;
    assert(ks == rungs(flow_merit_order(), texts(techs@)));
    assert(all_on_ladder(flow_merit_order(), texts(techs@)));
    let mut k: usize = 0;
    while k + 1 < order.len()
        invariant
            ks == keys@,
            ks == rungs(flow_merit_order(), texts(techs@)),
            all_on_ladder(flow_merit_order(), texts(techs@)),
            is_stable_ranking(ks, order@),
            order.len() == keys.len(),
            keys.len() == techs.len(),
            k < order.len() || (order.len() == 0 && k == 0),
            forall|m: int| 0 <= m < k ==> ks[#[trigger] order@[m] as int] != ks[order@[m + 1] as int],
        decreases order.len() - k,
    {
        if keys[order[k]] == keys[order[k + 1]] {
            let tech = techs[order[k]].clone();
            proof {
                assert(first_shared_rung(ks, order@, k as int));
                assert(is_stable_ranking(ks, order@) && first_shared_rung(ks, order@, k as int) && tech
                    == techs@[order@[k as int] as int]);
                assert(!keys_distinct(ks)) by {
                    assert(order@[k as int] != order@[k + 1]);
                }
            }
            let mut reason = String::from_str("zone ");
            reason.append(zone);
            reason.append(": two dispatchable entries share merit position (");
            reason.append(tech.as_str());
            reason.append(")");
            return Err(GridError::InvalidScenario { reason });
        }
        k += 1;
    }
    proof {
        assert forall|i: int, j: int| 0 <= i < ks.len() && 0 <= j < ks.len() && i != j implies ks[i] != ks[j] by {
            lemma_ranking_visits_every_position(ks, order@, i as usize);
            lemma_ranking_visits_every_position(ks, order@, j as usize);
            let p = choose|p: int| 0 <= p < order.len() && order@[p] == i as usize;
            let q = choose|q: int| 0 <= q < order.len() && order@[q] == j as usize;
            if ks[i] == ks[j] {
                let (lo, hi) = if p < q { (p, q) } else { (q, p) };
                assert(ks[order@[lo] as int] == ks[order@[hi] as int]);
                assert(lo + 1 <= hi);
                if lo + 1 < hi {
                    assert(ks[order@[lo] as int] <= ks[order@[lo + 1] as int]);
                    assert(ks[order@[lo + 1] as int] <= ks[order@[hi] as int]);
                }
                assert(ks[order@[lo] as int] == ks[order@[lo + 1] as int]);
            }
        }
    }
    Ok(order)
}

/// Every rung of the flow ladder is the first occurrence of its
/// technology: the ladder names no technology twice.
proof fn lemma_flow_ladder_rungs_are_first()
    ensures
        forall|k: int| 0 <= k < 6 ==> #[trigger] first_at(flow_merit_order(), flow_merit_order()[k], k),
{
    reveal_strlit("nuclear");
    reveal_strlit("biomass");
    reveal_strlit("hydro");
    reveal_strlit("coal");
    reveal_strlit("ccgt");
    reveal_strlit("ocgt");
    let flow = flow_merit_order();
    assert forall|k: int| 0 <= k < 6 implies #[trigger] first_at(flow, flow[k], k) by {
        assert forall|j: int| 0 <= j < k implies flow[j] != flow[k] by {
            assert(flow[j][0] != flow[k][0] || flow[j][1] != flow[k][1] || flow[j].len() != flow[k].len());
        }
    }
}

/// A technology on the flow ladder sits on the dispatch ladder at the
/// dispatch position of its flow rung.
proof fn lemma_flow_tech_rungs(tech: Seq<char>)
    requires
        flow_merit_order().contains(tech),
    ensures
        0 <= rung(flow_merit_order(), tech) < 6,
        first_at(flow_merit_order(), tech, rung(flow_merit_order(), tech)),
        rung(merit_order(), tech) == flow_rung_in_merit_order(rung(flow_merit_order(), tech)),
        first_at(merit_order(), tech, rung(merit_order(), tech)),
{
    lemma_flow_ladder_rungs_are_first();
    lemma_flow_ladder_is_ordered_subset();
    let flow = flow_merit_order();
    let j = choose|j: int| 0 <= j < flow.len() && flow[j] == tech;
    assert(first_at(flow, tech, j));
    let c = rung(flow, tech);
    lemma_first_at_unique(flow, tech, c, j);
    assert(first_at(merit_order(), flow[j], flow_rung_in_merit_order(j)));
    let m = rung(merit_order(), tech);
    lemma_first_at_unique(merit_order(), tech, m, flow_rung_in_merit_order(j));
}

/// The two ladders order a zone's stack alike: on a fleet whose
/// dispatchable technologies are all on the flow ladder, the multi-zone
/// stack order ([`flow_stack_order`]) and the single-zone stack order
/// ([`dispatch_stack_order`]) are the same sequence.
pub proof fn lemma_flow_stack_agrees_with_dispatch_stack(
    techs: Seq<Seq<char>>,
    flow_order: Seq<usize>,
    dispatch_order: Seq<usize>,
)
    requires
        all_on_ladder(flow_merit_order(), techs),
        is_stable_ranking(rungs(flow_merit_order(), techs), flow_order),
        is_stable_ranking(rungs(merit_order(), techs), dispatch_order),
    ensures
        flow_order == dispatch_order,
{
    let flow_keys = rungs(flow_merit_order(), techs);
    let merit_keys = rungs(merit_order(), techs);
    assert forall|i: int| 0 <= i < techs.len() implies #[trigger] merit_keys[i] == flow_rung_in_merit_order(
        flow_keys[i] as int,
    ) && 0 <= flow_keys[i] < 6 by {
        lemma_flow_tech_rungs(techs[i]);
    }
    lemma_flow_ladder_is_ordered_subset();
    assert forall|a: int, b: int|
        0 <= a < b < dispatch_order.len() implies ranked_before(
        flow_keys,
        #[trigger] dispatch_order[a],
        #[trigger] dispatch_order[b],
    ) by {
        let x = dispatch_order[a] as int;
        let y = dispatch_order[b] as int;
        assert(ranked_before(merit_keys, dispatch_order[a], dispatch_order[b]));
        assert(merit_keys[x] == flow_rung_in_merit_order(flow_keys[x] as int));
        assert(merit_keys[y] == flow_rung_in_merit_order(flow_keys[y] as int));
        if flow_keys[y] < flow_keys[x] {
            assert(flow_rung_in_merit_order(flow_keys[y] as int) < flow_rung_in_merit_order(flow_keys[x] as int));
        }
    }
    lemma_stable_ranking_unique(flow_keys, flow_order, dispatch_order);
}

} // verus!
