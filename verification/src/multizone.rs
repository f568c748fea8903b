//! Multi-zone link bookkeeping: the grouping of links into borders.
//!
//! Links joining the same zone pair are dispatched jointly as one
//! border (combined capacity, flow split pro-rata), so that parallel
//! links cannot idle each other. Borders are dispatched in first
//! appearance order of the scenario's link list.
use vstd::prelude::*;
use vstd::string::StringExecFns;

use crate::error::{GridError, run_inputs_refusal};
use crate::text::{append_decimal, decimal};

verus! {

/// One border: an unordered zone pair (`low ≤ high`, as zone indices)
/// and the indices of the links joining it, ascending.
#[derive(Debug, Clone, PartialEq, Eq)]
pub struct Border {
    /// The smaller zone index of the pair.
    pub low: usize,
    /// The larger zone index of the pair.
    pub high: usize,
    /// Indices (into the link list) of the links joining the pair.
    pub links: Vec<usize>,
}

/// The unordered zone pair a link with endpoints `(home, away)` joins.
pub open spec fn border_key(endpoints: (usize, usize)) -> (usize, usize) {
    if endpoints.0 <= endpoints.1 {
        (endpoints.0, endpoints.1)
    } else {
        (endpoints.1, endpoints.0)
    }
}

/// The zone pair a border joins.
pub open spec fn pair_of(border: Border) -> (usize, usize) {
    (border.low, border.high)
}

/// The zone pairs of a list of borders, in order.
pub open spec fn pairs_of(borders: Seq<Border>) -> Seq<(usize, usize)> {
    borders.map_values(|border: Border| pair_of(border))
}

/// `borders` is the grouping of the links with the given endpoints:
/// every link belongs to a border; each border lists, ascending, exactly
/// the links joining its zone pair; borders are ordered by their first
/// link.
pub open spec fn is_border_grouping(endpoints: Seq<(usize, usize)>, borders: Seq<Border>) -> bool {
    &&& forall|b: int| 0 <= b < borders.len() ==> (#[trigger] borders[b]).low <= borders[b].high
    &&& forall|b: int| 0 <= b < borders.len() ==> (#[trigger] borders[b]).links.len() > 0
    &&& forall|b1: int, b2: int|
        0 <= b1 < b2 < borders.len() ==> (#[trigger] borders[b1]).links@[0] < (#[trigger] borders[b2]).links@[0]
    &&& forall|b: int, k: int|
        0 <= b < borders.len() && 0 <= k < borders[b].links.len() ==> {
            &&& #[trigger] borders[b].links@[k] < endpoints.len()
            &&& border_key(endpoints[borders[b].links@[k] as int]) == pair_of(borders[b])
        }
    &&& forall|b: int, k1: int, k2: int|
        0 <= b < borders.len() && 0 <= k1 < k2 < borders[b].links.len() ==> #[trigger] borders[b].links@[k1]
            < #[trigger] borders[b].links@[k2]
    &&& forall|b: int, i: int|
        0 <= b < borders.len() && 0 <= i < endpoints.len() && border_key(#[trigger] endpoints[i]) == pair_of(
            #[trigger] borders[b],
        ) ==> borders[b].links@.contains(i as usize)
    &&& forall|i: int| 0 <= i < endpoints.len() ==> pairs_of(borders).contains(border_key(#[trigger] endpoints[i]))
}

/// Distinct borders join distinct zone pairs, so each link is dispatched
/// on exactly one border.
pub proof fn lemma_border_pairs_distinct(endpoints: Seq<(usize, usize)>, borders: Seq<Border>, b1: int, b2: int)
    requires
        is_border_grouping(endpoints, borders),
        0 <= b1 < b2 < borders.len(),
    ensures
        pair_of(borders[b1]) != pair_of(borders[b2]),
{
    if pair_of(borders[b1]) == pair_of(borders[b2]) {
        let f1 = borders[b1].links@[0];
        let f2 = borders[b2].links@[0];
        assert(border_key(endpoints[f1 as int]) == pair_of(borders[b1]));
        assert(borders[b2].links@.contains(f1));
        let k = choose|k: int| 0 <= k < borders[b2].links.len() && borders[b2].links@[k] == f1;
        if k > 0 {
            assert(borders[b2].links@[0] < borders[b2].links@[k]);
        }
        assert(f1 < f2);
    }
}

/// The position of `key` in `pairs`, if present.
fn find_pair(pairs: &Vec<(usize, usize)>, key: (usize, usize)) -> (r: Option<usize>)
    ensures
        r matches Some(b) ==> b < pairs.len() && pairs@[b as int] == key,
        r is None ==> forall|c: int| 0 <= c < pairs.len() ==> #[trigger] pairs@[c] != key,
{
    let mut b: usize = 0;
    while b < pairs.len()
        invariant
            b <= pairs.len(),
            forall|c: int| 0 <= c < b ==> #[trigger] pairs@[c] != key,
        decreases pairs.len() - b,
    {
        if pairs[b].0 == key.0 && pairs[b].1 == key.1 {
            return Some(b);
        }
        b += 1;
    }
    None
}

/// The indices of the links joining `key`, ascending, given the index
/// `first` of the first such link.
fn links_joining(endpoints: &Vec<(usize, usize)>, key: (usize, usize), first: usize) -> (links: Vec<usize>)
    requires
        first < endpoints.len(),
        border_key(endpoints@[first as int]) == key,
        forall|j: int| 0 <= j < first ==> border_key(#[trigger] endpoints@[j]) != key,
    ensures
        links.len() > 0,
        links@[0] == first,
        forall|k: int|
            0 <= k < links.len() ==> #[trigger] links@[k] < endpoints.len() && border_key(
                endpoints@[links@[k] as int],
            ) == key,
        forall|k1: int, k2: int| 0 <= k1 < k2 < links.len() ==> #[trigger] links@[k1] < #[trigger] links@[k2],
        forall|j: int|
            0 <= j < endpoints.len() && border_key(#[trigger] endpoints@[j]) == key ==> links@.contains(j as usize),
{
    let n = endpoints.len();
    let ghost e = endpoints@;
    let mut links: Vec<usize> = Vec::new();
    let mut j: usize = 0;
    while j < n
        invariant
            n == e.len(),
            e == endpoints@,
            j <= n,
            first < n,
            border_key(e[first as int]) == key,
            forall|jj: int| 0 <= jj < first ==> border_key(#[trigger] e[jj]) != key,
            j > first ==> links.len() > 0 && links@[0] == first,
            forall|k: int| 0 <= k < links.len() ==> #[trigger] links@[k] < j && border_key(e[links@[k] as int]) == key,
            forall|k1: int, k2: int| 0 <= k1 < k2 < links.len() ==> #[trigger] links@[k1] < #[trigger] links@[k2],
            forall|jj: int| 0 <= jj < j && border_key(#[trigger] e[jj]) == key ==> links@.contains(jj as usize),
        decreases n - j,
    {
        let (home, away) = endpoints[j];
        let joins = if home <= away {
            home == key.0 && away == key.1
        } else {
            away == key.0 && home == key.1
        };
        assert(joins == (border_key(e[j as int]) == key));
        if joins {
            let ghost before = links@;
            links.push(j);
            proof {
                assert forall|jj: int| 0 <= jj < j + 1 && border_key(#[trigger] e[jj]) == key implies links@.contains(
                    jj as usize,
                ) by {
                    if jj == j {
                        assert(links@[links.len() - 1] == jj as usize);
                    } else {
                        let k = choose|k: int| 0 <= k < before.len() && before[k] == jj as usize;
                        assert(links@[k] == jj as usize);
                    }
                }
                if j == first {
                    assert(before.len() == 0) by {
                        if before.len() > 0 {
                            assert(border_key(e[before[0] as int]) == key);
                        }
                    }
                }
            }
        }
        j += 1;
    }
    links
}

/// `pairs` lists the distinct zone pairs the links join, in first
/// appearance order, and `firsts[b]` is the index of the first link
/// joining `pairs[b]`.
pub open spec fn pairs_in_first_appearance(
    e: Seq<(usize, usize)>,
    pairs: Seq<(usize, usize)>,
    firsts: Seq<usize>,
) -> bool {
    &&& pairs.len() == firsts.len()
    &&& forall|b: int| 0 <= b < pairs.len() ==> (#[trigger] pairs[b]).0 <= pairs[b].1
    &&& forall|b: int| 0 <= b < pairs.len() ==> #[trigger] firsts[b] < e.len() && border_key(e[firsts[b] as int]) == pairs[b]
    &&& forall|b: int, j: int| 0 <= b < pairs.len() && 0 <= j < firsts[b] ==> border_key(#[trigger] e[j]) != #[trigger] pairs[b]
    &&& forall|b1: int, b2: int| 0 <= b1 < b2 < pairs.len() ==> #[trigger] firsts[b1] < #[trigger] firsts[b2]
    &&& forall|j: int| 0 <= j < e.len() ==> pairs.contains(border_key(#[trigger] e[j]))
}

/// The distinct zone pairs the links join, in first-appearance order,
/// with the index of each pair's first link.
fn distinct_pairs(endpoints: &Vec<(usize, usize)>) -> (r: (Vec<(usize, usize)>, Vec<usize>))
    ensures
        pairs_in_first_appearance(endpoints@, r.0@, r.1@),
{
    let n = endpoints.len();
    let ghost e = endpoints@;
    let mut pairs: Vec<(usize, usize)> = Vec::new();
    let mut firsts: Vec<usize> = Vec::new();
    let mut i: usize = 0;
    while i < n
        invariant
            n == e.len(),
            e == endpoints@,
            i <= n,
            pairs.len() == firsts.len(),
            forall|b: int| 0 <= b < pairs.len() ==> (#[trigger] pairs@[b]).0 <= pairs@[b].1,
            forall|b: int|
                0 <= b < pairs.len() ==> #[trigger] firsts@[b] < i && border_key(e[firsts@[b] as int]) == pairs@[b],
            forall|b: int, j: int|
                0 <= b < pairs.len() && 0 <= j < firsts@[b] ==> border_key(#[trigger] e[j]) != #[trigger] pairs@[b],
            forall|b1: int, b2: int| 0 <= b1 < b2 < pairs.len() ==> #[trigger] firsts@[b1] < #[trigger] firsts@[b2],
            forall|j: int| 0 <= j < i ==> pairs@.contains(border_key(#[trigger] e[j])),
        decreases n - i,
    {
        let (home, away) = endpoints[i];
        let key = if home <= away {
            (home, away)
        } else {
            (away, home)
        };
        assert(key == border_key(e[i as int]));
        match find_pair(&pairs, key) {
            None => {
                let ghost old_pairs = pairs@;
                proof {
                    assert forall|j: int| 0 <= j < i implies border_key(#[trigger] e[j]) != key by {
                        assert(old_pairs.contains(border_key(e[j])));
                    }
                }
                pairs.push(key);
                firsts.push(i);
                proof {
                    assert forall|j: int| 0 <= j < i + 1 implies pairs@.contains(border_key(#[trigger] e[j])) by {
                        if j == i {
                            assert(pairs@[pairs.len() - 1] == border_key(e[j]));
                        } else {
                            assert(old_pairs.contains(border_key(e[j])));
                            let c = choose|c: int| 0 <= c < old_pairs.len() && old_pairs[c] == border_key(e[j]);
                            assert(pairs@[c] == border_key(e[j]));
                        }
                    }
                }
            },
            Some(b) => {
                proof {
                    assert forall|j: int| 0 <= j < i + 1 implies pairs@.contains(border_key(#[trigger] e[j])) by {
                        if j == i {
                            assert(pairs@[b as int] == border_key(e[j]));
                        }
                    }
                }
            },
        }
        i += 1;
    }
    (pairs, firsts)
}

/// The borders of the given pairs: each pair with every link joining
/// it, ascending.
fn assemble_borders(endpoints: &Vec<(usize, usize)>, pairs: &Vec<(usize, usize)>, firsts: &Vec<usize>) -> (borders: Vec<Border>)
    requires
        pairs_in_first_appearance(endpoints@, pairs@, firsts@),
    ensures
        is_border_grouping(endpoints@, borders@),
{
    let n = endpoints.len();
    let ghost e = endpoints@;
    // Pass 2: each pair's links, ascending.
    let mut borders: Vec<Border> = Vec::new();
    let mut b: usize = 0;
    while b < pairs.len()
        invariant
            n == e.len(),
            e == endpoints@,
            pairs.len() == firsts.len(),
            b <= pairs.len(),
            borders.len() == b,
            pairs_in_first_appearance(e, pairs@, firsts@),
            forall|c: int| 0 <= c < b ==> pair_of(#[trigger] borders@[c]) == pairs@[c],
            forall|c: int|
                0 <= c < b ==> (#[trigger] borders@[c]).links.len() > 0 && borders@[c].links@[0] == firsts@[c],
            forall|c: int, k: int|
                0 <= c < b && 0 <= k < borders@[c].links.len() ==> {
                    &&& #[trigger] borders@[c].links@[k] < n
                    &&& border_key(e[borders@[c].links@[k] as int]) == pairs@[c]
                },
            forall|c: int, k1: int, k2: int|
                0 <= c < b && 0 <= k1 < k2 < borders@[c].links.len() ==> #[trigger] borders@[c].links@[k1]
                    < #[trigger] borders@[c].links@[k2],
            forall|c: int, j: int|
                0 <= c < b && 0 <= j < n && border_key(#[trigger] e[j]) == pairs@[c] ==> (
                #[trigger] borders@[c]).links@.contains(j as usize),
        decreases pairs.len() - b,
    {
        let key = pairs[b];
        proof {
            assert(firsts@[b as int] < n && border_key(e[firsts@[b as int] as int]) == key);
            assert forall|j: int| 0 <= j < firsts@[b as int] implies border_key(#[trigger] endpoints@[j]) != key by {
                assert(border_key(e[j]) != pairs@[b as int]);
            }
        }
        let links = links_joining(endpoints, key, firsts[b]);
        let ghost before_borders = borders@;
        borders.push(Border { low: key.0, high: key.1, links });
        proof {
            assert forall|c: int, jj: int|
                0 <= c < b + 1 && 0 <= jj < n && border_key(#[trigger] e[jj]) == pairs@[c] implies (
            #[trigger] borders@[c]).links@.contains(jj as usize) by {
                if c < b {
                    assert(borders@[c] == before_borders[c]);
                }
            }
        }
        b += 1;
    }
    proof {
        assert forall|b1: int, b2: int| 0 <= b1 < b2 < borders.len() implies (#[trigger] borders@[b1]).links@[0]
            < (#[trigger] borders@[b2]).links@[0] by {
            assert(firsts@[b1] < firsts@[b2]);
        }
        assert forall|c: int, jj: int|
            0 <= c < borders.len() && 0 <= jj < n && border_key(#[trigger] e[jj]) == pair_of(
                #[trigger] borders@[c],
            ) implies borders@[c].links@.contains(jj as usize) by {
            assert(pair_of(borders@[c]) == pairs@[c]);
        }
        assert forall|jj: int| 0 <= jj < n implies pairs_of(borders@).contains(border_key(#[trigger] e[jj])) by {
            assert(pairs@.contains(border_key(e[jj])));
            let c = choose|c: int| 0 <= c < pairs.len() && pairs@[c] == border_key(e[jj]);
            assert(pairs_of(borders@)[c] == pairs@[c]);
        }
    }
    borders
}

/// Group links, given by their `(home, away)` zone-index endpoints, into
/// borders: links joining the same unordered zone pair share a border;
/// borders appear in first-appearance order of their links.
pub fn group_borders(endpoints: &Vec<(usize, usize)>) -> (borders: Vec<Border>)
    ensures
        is_border_grouping(endpoints@, borders@),
{
    let (pairs, firsts) = distinct_pairs(endpoints);
    assemble_borders(endpoints, &pairs, &firsts)
}

/// The output label of a link: the scenario's `name` when it has one,
/// else the derived `<from>-<to>-<index>`.
pub open spec fn link_label_text(name: Option<Seq<char>>, from: Seq<char>, to: Seq<char>, index: nat) -> Seq<
    char,
> {
    match name {
        Some(given) => given,
        None => from + "-"@ + to + "-"@ + decimal(index),
    }
}

/// The output label of link number `index` (its position in the
/// scenario's link list) joining zones `from` and `to`.
pub fn link_label(name: &Option<String>, from: &str, to: &str, index: usize) -> (label: String)
    ensures
        label@ == link_label_text(
            match name {
                Some(given) => Some(given@),
                None => None,
            },
            from@,
            to@,
            index as nat,
        ),
{
    match name {
        Some(given) => given.clone(),
        None => {
            let mut label = String::from_str(from);
            label.append("-");
            label.append(to);
            label.append("-");
            append_decimal(&mut label, index as u64);
            label
        },
    }
}

/// Budget windows a horizon of `periods` needs at `window_periods` per
/// window: one per window the horizon starts, the last possibly partial.
pub open spec fn budget_windows_needed(periods: nat, window_periods: nat) -> nat
    recommends
        window_periods > 0,
{
    if periods % window_periods == 0 {
        periods / window_periods
    } else {
        periods / window_periods + 1
    }
}

/// Why a budget schedule with the wrong window count is refused.
pub open spec fn budget_windows_reason(
    zone: Seq<char>,
    tech: Seq<char>,
    windows: usize,
    needed: nat,
    window_periods: usize,
) -> Seq<char> {
    "zone "@ + zone + ", technology "@ + tech + ": "@ + decimal(windows as nat)
        + " budget windows for a horizon needing "@ + decimal(needed) + " (window_periods = "@ + decimal(
        window_periods as nat,
    ) + ")"@
}

/// An energy-budgeted technology's loaded schedule in `zone` must hold
/// exactly the budget windows the horizon needs.
pub fn check_budget_windows(zone: &str, tech: &str, periods: usize, window_periods: usize, windows: usize) -> (r: Result<
    (),
    GridError,
>)
    requires
        window_periods > 0,
    ensures
        r is Ok <==> windows == budget_windows_needed(periods as nat, window_periods as nat),
        r matches Err(e) ==> run_inputs_refusal(
            e,
            budget_windows_reason(
                zone@,
                tech@,
                windows,
                budget_windows_needed(periods as nat, window_periods as nat),
                window_periods,
            ),
        ),
{
    let whole = periods / window_periods;
    let needed = if periods % window_periods == 0 {
        whole
    } else {
        proof {
            assert(whole < usize::MAX) by (nonlinear_arith)
                requires
                    window_periods > 0,
                    periods % window_periods != 0,
                    whole == periods / window_periods,
                    periods <= usize::MAX,
            ;
        }
        whole + 1
    };
    if windows != needed {
        let mut reason = String::from_str("zone ");
        reason.append(zone);
        reason.append(", technology ");
        reason.append(tech);
        reason.append(": ");
        append_decimal(&mut reason, windows as u64);
        reason.append(" budget windows for a horizon needing ");
        append_decimal(&mut reason, needed as u64);
        reason.append(" (window_periods = ");
        append_decimal(&mut reason, window_periods as u64);
        reason.append(")");
        return Err(GridError::InvalidRunInputs { reason });
    }
    Ok(())
}

/// The single-zone engines run scenarios with exactly one zone; any
/// other zone count is refused.
pub fn check_single_zone(zone_count: usize) -> (r: Result<(), GridError>)
    ensures
        r is Ok <==> zone_count == 1,
        r matches Err(e) ==> e == (GridError::MultiZoneUnsupported { found: zone_count }),
{
    if zone_count != 1 {
        return Err(GridError::MultiZoneUnsupported { found: zone_count });
    }
    Ok(())
}

/// Why a zone's capacity-factor trace that does not cover the horizon is
/// refused.
pub open spec fn uncovered_capacity_factor_reason(zone: Seq<char>, tech: Seq<char>) -> Seq<char> {
    "zone "@ + zone + ": capacity-factor trace for "@ + tech + " does not cover the horizon"@
}

/// A weather-driven entry's capacity-factor trace must cover the run's
/// horizon exactly: as many periods as the run, starting at the horizon
/// start (instants as seconds since the epoch).
pub fn check_capacity_factor_trace(
    zone: &str,
    tech: &str,
    trace_periods: usize,
    trace_start: i64,
    periods: usize,
    horizon_start: i64,
) -> (r: Result<(), GridError>)
    ensures
        r is Ok <==> trace_periods == periods && trace_start == horizon_start,
        r matches Err(e) ==> run_inputs_refusal(e, uncovered_capacity_factor_reason(zone@, tech@)),
{
    if trace_periods != periods || trace_start != horizon_start {
        let mut reason = String::from_str("zone ");
        reason.append(zone);
        reason.append(": capacity-factor trace for ");
        reason.append(tech);
        reason.append(" does not cover the horizon");
        return Err(GridError::InvalidRunInputs { reason });
    }
    Ok(())
}

} // verus!
