//! The parameter sweep runner's bookkeeping: the response-surface grid,
//! the wind identity and zone-group validation of the multi-zone wind
//! sweeps, and the per-year batch mode's year selection.
use vstd::prelude::*;
use vstd::string::StringExecFns;

use crate::error::{GridError, scenario_refusal};
use crate::evaluate::{evaluate_points, evaluated_in_order, failed_at_some_point};
use crate::text::{
    append_decimal, append_signed_decimal, append_zero_padded, contains_name, contains_text, decimal, signed_decimal,
    text_contains, text_equal,
    texts, zero_padded,
};

verus! {

/// How to execute a sweep's grid: in parallel (the default) or on the
/// forced serial path. Both evaluate the same points in the same order
/// and produce identical results.
#[derive(Debug, Clone, Copy, PartialEq, Eq)]
pub enum Execution {
    /// Parallel iteration over the grid points, order preserved.
    Parallel,
    /// Plain sequential iteration, same order.
    Serial,
}

/// Why a sweep specification with the wrong number of dimensions is
/// refused.
pub open spec fn spec_dimension_count_reason(count: usize) -> Seq<char> {
    "a sweep needs one or two dimensions; the spec has "@ + decimal(count as nat)
}

/// A sweep specification has one or two dimensions.
pub fn check_dimension_count(count: usize) -> (r: Result<(), GridError>)
    ensures
        r is Ok <==> 1 <= count <= 2,
        r matches Err(e) ==> scenario_refusal(e, spec_dimension_count_reason(count)),
{
    if count == 0 || count > 2 {
        let mut reason = String::from_str("a sweep needs one or two dimensions; the spec has ");
        append_decimal(&mut reason, count as u64);
        return Err(GridError::InvalidScenario { reason });
    }
    Ok(())
}

/// Why [`sweep_grid`] refuses a sweep: a dimension count other than one
/// or two, else the first dimension with no values.
pub open spec fn sweep_grid_reason(dimensions: Seq<(SweepTarget, usize)>) -> Seq<char> {
    if dimensions.len() == 0 || dimensions.len() > 2 {
        "a sweep needs one or two dimensions; got "@ + decimal(dimensions.len())
    } else if dimensions[0].1 == 0 {
        "sweep dimension "@ + target_column(dimensions[0].0) + " has no values"@
    } else {
        "sweep dimension "@ + target_column(dimensions[1].0) + " has no values"@
    }
}

/// The refusal text for a dimension with no values.
fn empty_dimension_text(target: &SweepTarget) -> (text: String)
    ensures
        text@ == "sweep dimension "@ + target_column(*target) + " has no values"@,
{
    let mut text = String::from_str("sweep dimension ");
    let column = target.column();
    text.append(column.as_str());
    text.append(" has no values");
    text
}

/// The grid points of a sweep over one or two dimensions (each a target
/// and its number of values): every combination of value indices,
/// row-major (the last dimension fastest). Refused for a dimension count
/// other than one or two, or a dimension with no values.
pub fn sweep_grid(dimensions: &Vec<(SweepTarget, usize)>) -> (r: Result<Vec<Vec<usize>>, GridError>)
    requires
        dimensions.len() == 2 ==> dimensions@[0].1 * dimensions@[1].1 <= usize::MAX,
    ensures
        r is Ok <==> (dimensions.len() == 1 || dimensions.len() == 2) && forall|d: int|
            0 <= d < dimensions.len() ==> #[trigger] dimensions@[d].1 > 0,
        r matches Err(e) ==> scenario_refusal(e, sweep_grid_reason(dimensions@)),
        r matches Ok(grid) ==> dimensions.len() == 1 ==> grid.len() == dimensions@[0].1 && forall|i: int|
            0 <= i < dimensions@[0].1 ==> #[trigger] grid@[i]@ == seq![i as usize],
        r matches Ok(grid) ==> dimensions.len() == 2 ==> grid.len() == dimensions@[0].1 * dimensions@[1].1
            && forall|i: int, j: int|
            0 <= i < dimensions@[0].1 && 0 <= j < dimensions@[1].1 ==> #[trigger] grid@[i * dimensions@[1].1
                + j]@ == seq![i as usize, j as usize],
{
    if dimensions.len() == 0 || dimensions.len() > 2 {
        let mut reason = String::from_str("a sweep needs one or two dimensions; got ");
        append_decimal(&mut reason, dimensions.len() as u64);
        return Err(GridError::InvalidScenario { reason });
    }
    if dimensions[0].1 == 0 {
        return Err(GridError::InvalidScenario { reason: empty_dimension_text(&dimensions[0].0) });
    }
    if dimensions.len() == 2 && dimensions[1].1 == 0 {
        return Err(GridError::InvalidScenario { reason: empty_dimension_text(&dimensions[1].0) });
    }
    let mut lens: Vec<usize> = Vec::new();
    lens.push(dimensions[0].1);
    if dimensions.len() == 2 {
        lens.push(dimensions[1].1);
    }
    Ok(grid_of(&lens))
}

/// Every combination of value indices for one or two non-empty
/// dimensions with `lens[d]` values each, row-major.
fn grid_of(lens: &Vec<usize>) -> (grid: Vec<Vec<usize>>)
    requires
        lens.len() == 1 || lens.len() == 2,
        forall|d: int| 0 <= d < lens.len() ==> #[trigger] lens@[d] > 0,
        lens.len() == 2 ==> lens@[0] * lens@[1] <= usize::MAX,
    ensures
        lens.len() == 1 ==> grid.len() == lens@[0] && forall|i: int|
            0 <= i < lens@[0] ==> #[trigger] grid@[i]@ == seq![i as usize],
        lens.len() == 2 ==> grid.len() == lens@[0] * lens@[1] && forall|i: int, j: int|
            0 <= i < lens@[0] && 0 <= j < lens@[1] ==> #[trigger] grid@[i * lens@[1] + j]@ == seq![i as usize, j as usize],
{
    let mut grid: Vec<Vec<usize>> = Vec::new();
    if lens.len() == 1 {
        let mut i: usize = 0;
        while i < lens[0]
            invariant
                lens.len() == 1,
                i <= lens@[0],
                grid.len() == i,
                forall|k: int| 0 <= k < i ==> #[trigger] grid@[k]@ == seq![k as usize],
            decreases lens@[0] - i,
        {
            let mut point: Vec<usize> = Vec::new();
            point.push(i);
            grid.push(point);
            i += 1;
        }
        return grid;
    }
    let rows = lens[0];
    let cols = lens[1];
    let mut i: usize = 0;
    while i < rows
        invariant
            lens.len() == 2,
            rows == lens@[0],
            cols == lens@[1],
            rows * cols <= usize::MAX,
            i <= rows,
            grid.len() == i * cols,
            forall|a: int, b: int| 0 <= a < i && 0 <= b < cols ==> #[trigger] grid@[a * cols + b]@ == seq![a as usize, b as usize],
        decreases rows - i,
    {
        let mut j: usize = 0;
        proof {
            assert(i * cols + cols <= rows * cols) by (nonlinear_arith)
                requires
                    i < rows,
            ;
        }
        while j < cols
            invariant
                lens.len() == 2,
                rows == lens@[0],
                cols == lens@[1],
                i < rows,
                i * cols + cols <= rows * cols,
                rows * cols <= usize::MAX,
                j <= cols,
                grid.len() == i * cols + j,
                forall|a: int, b: int| 0 <= a < i && 0 <= b < cols ==> #[trigger] grid@[a * cols + b]@ == seq![a as usize, b as usize],
                forall|b: int| 0 <= b < j ==> #[trigger] grid@[i * cols + b]@ == seq![i as usize, b as usize],
            decreases cols - j,
        {
            let mut point: Vec<usize> = Vec::new();
            point.push(i);
            point.push(j);
            let ghost before = grid@;
            grid.push(point);
            proof {
                assert forall|a: int, b: int| 0 <= a < i && 0 <= b < cols implies #[trigger] grid@[a * cols + b]@
                    == seq![a as usize, b as usize] by {
                    assert(a * cols + b < i * cols) by (nonlinear_arith)
                        requires
                            0 <= a < i,
                            0 <= b < cols,
                    ;
                    assert(grid@[a * cols + b] == before[a * cols + b]);
                }
                assert(grid@[i * cols + j]@ =~= seq![i as usize, j as usize]);
            }
            j += 1;
        }
        proof {
            assert((i + 1) * cols == i * cols + cols) by (nonlinear_arith);
            assert forall|a: int, b: int| 0 <= a < i + 1 && 0 <= b < cols implies #[trigger] grid@[a * cols + b]@
                == seq![a as usize, b as usize] by {
                if a == i {
                    assert(grid@[i * cols + b]@ == seq![i as usize, b as usize]);
                }
            }
        }
        i += 1;
    }
    grid
}

/// The wind identity shared by the wind-capacity sweeps: onshore and
/// offshore wind.
pub open spec fn is_wind_tech(tech: Seq<char>) -> bool {
    tech == "offshore_wind"@ || tech == "onshore_wind"@
}

/// Whether a technology is onshore or offshore wind.
pub fn is_wind(tech: &str) -> (wind: bool)
    ensures
        wind == is_wind_tech(tech@),
{
    text_equal(tech, "offshore_wind") || text_equal(tech, "onshore_wind")
}

/// Position `i` of a zone group is the first that names a zone twice
/// or names a zone the scenario does not declare.
pub open spec fn first_bad_group_member(group: Seq<Seq<char>>, zones: Seq<Seq<char>>, i: int) -> bool {
    &&& 0 <= i < group.len()
    &&& (group.take(i).contains(group[i]) || !zones.contains(group[i]))
    &&& forall|k: int| 0 <= k < i ==> !group.take(k).contains(group[k]) && zones.contains(group[k])
}

/// A zone group is usable: it names at least one zone, no zone twice,
/// and only zones the scenario declares.
pub open spec fn zone_group_valid(group: Seq<Seq<char>>, zones: Seq<Seq<char>>) -> bool {
    &&& group.len() > 0
    &&& forall|k: int| 0 <= k < group.len() ==> !group.take(k).contains(#[trigger] group[k]) && zones.contains(group[k])
}

/// Validate a zone group of the group wind sweep against the scenario's
/// zones: refused when empty, else at the first member that repeats an
/// earlier one or names an undeclared zone.
pub fn check_zone_group(group: &Vec<String>, zones: &Vec<String>) -> (r: Result<(), GridError>)
    ensures
        r is Ok <==> zone_group_valid(texts(group@), texts(zones@)),
        r matches Err(e) ==> (group.len() == 0 && scenario_refusal(
            e,
            "zone-group wind sweep: the group names no zones"@,
        )) || exists|i: int|
            first_bad_group_member(texts(group@), texts(zones@), i) && if texts(group@).take(i).contains(
                texts(group@)[i],
            ) {
                scenario_refusal(e, "zone-group wind sweep: zone "@ + group@[i]@ + " is named more than once"@)
            } else {
                scenario_refusal(e, "zone-group wind sweep: the scenario has no zone "@ + group@[i]@)
            },
{
    if group.len() == 0 {
        return Err(
            GridError::InvalidScenario { reason: String::from_str("zone-group wind sweep: the group names no zones") },
        );
    }
    let ghost g = texts(group@);
    let ghost z = texts(zones@);
    let mut seen: Vec<String> = Vec::new();
    let mut i: usize = 0;
    while i < group.len()
        invariant
            i <= group.len(),
            g == texts(group@),
            z == texts(zones@),
            texts(seen@) =~= g.take(i as int),
            forall|k: int| 0 <= k < i ==> !g.take(k).contains(#[trigger] g[k]) && z.contains(g[k]),
        decreases group.len() - i,
    {
        if contains_name(&seen, &group[i]) {
            let mut reason = String::from_str("zone-group wind sweep: zone ");
            reason.append(group[i].as_str());
            reason.append(" is named more than once");
            proof {
                assert(first_bad_group_member(g, z, i as int));
            }
            return Err(GridError::InvalidScenario { reason });
        }
        if !contains_name(zones, &group[i]) {
            let mut reason = String::from_str("zone-group wind sweep: the scenario has no zone ");
            reason.append(group[i].as_str());
            proof {
                assert(first_bad_group_member(g, z, i as int));
            }
            return Err(GridError::InvalidScenario { reason });
        }
        let name = group[i].clone();
        seen.push(name);
        proof {
            assert(g.take(i + 1) =~= g.take(i as int).push(g[i as int]));
        }
        i += 1;
    }
    Ok(())
}

/// The token that names a year in per-year trace file names: the year in
/// decimal, zero-padded to four characters (sign included).
pub open spec fn year_token(year: int) -> Seq<char> {
    if year >= 0 {
        zero_padded(decimal(year as nat), 4)
    } else {
        seq!['-'] + zero_padded(decimal((-year) as nat), 3)
    }
}

/// Append the year token of `year`.
fn append_year_token(text: &mut String, year: i32)
    ensures
        final(text)@ == old(text)@ + year_token(year as int),
{
    if year >= 0 {
        append_zero_padded(text, year as u64, 4);
    } else {
        let ghost start = text@;
        proof {
            reveal_strlit("-");
        }
        text.append("-");
        let magnitude: i64 = -(year as i64);
        append_zero_padded(text, magnitude as u64, 3);
        assert(text@ =~= start + year_token(year as int));
    }
}

/// The horizon of a one-year scenario: the calendar year's first and
/// last settlement-period starts, as UTC timestamps.
pub fn year_horizon(year: i32) -> (horizon: (String, String))
    ensures
        horizon.0@ == year_token(year as int) + "-01-01T00:00:00Z"@,
        horizon.1@ == year_token(year as int) + "-12-31T23:30:00Z"@,
{
    let mut start = String::new();
    append_year_token(&mut start, year);
    start.append("-01-01T00:00:00Z");
    let mut end = String::new();
    append_year_token(&mut end, year);
    end.append("-12-31T23:30:00Z");
    (start, end)
}

/// Why a trace list with no file for the year is refused: `what` names
/// the list and `listed` is the list as the scenario renders it.
pub open spec fn no_year_file_reason(what: Seq<char>, year: i32, listed: Seq<char>) -> Seq<char> {
    "per-year batch mode needs per-year trace files: no path of "@ + what + " names the year "@ + signed_decimal(
        year as int,
    ) + " ("@ + listed + ")"@
}

/// The trace files of one weather year: the paths whose name contains
/// the year's token, in order. Per-year batch mode needs per-year files,
/// so a list with no such path is refused (`what` names the list,
/// `listed` is the list as the scenario renders it).
pub fn paths_for_year(paths: &Vec<String>, year: i32, what: &str, listed: &str) -> (r: Result<
    Vec<String>,
    GridError,
>)
    ensures
        r is Ok <==> exists|k: int| 0 <= k < paths.len() && contains_text(#[trigger] paths@[k]@, year_token(year as int)),
        r matches Ok(kept) ==> texts(kept@) == texts(paths@).filter(
            |path: Seq<char>| contains_text(path, year_token(year as int)),
        ),
        r matches Err(e) ==> scenario_refusal(e, no_year_file_reason(what@, year, listed@)),
{
    let mut token = String::new();
    append_year_token(&mut token, year);
    let ghost t = token@;
    let ghost keep = |path: Seq<char>| contains_text(path, t);
    let mut kept: Vec<String> = Vec::new();
    let mut i: usize = 0;
    while i < paths.len()
        invariant
            i <= paths.len(),
            t == token@,
            t == year_token(year as int),
            keep == (|path: Seq<char>| contains_text(path, t)),
            texts(kept@) =~= texts(paths@).take(i as int).filter(keep),
            kept.len() == 0 <==> forall|k: int| 0 <= k < i ==> !contains_text(#[trigger] paths@[k]@, t),
        decreases paths.len() - i,
    {
        proof {
            assert(texts(paths@).take(i + 1).drop_last() =~= texts(paths@).take(i as int));
            reveal_with_fuel(Seq::<Seq<char>>::filter, 1);
        }
        if text_contains(paths[i].as_str(), token.as_str()) {
            let path = paths[i].clone();
            let ghost before = kept@;
            kept.push(path);
            proof {
                assert(texts(kept@) =~= texts(before).push(paths@[i as int]@));
            }
        }
        i += 1;
    }
    proof {
        assert(texts(paths@).take(paths.len() as int) =~= texts(paths@));
    }
    if kept.len() == 0 {
        let mut reason = String::from_str("per-year batch mode needs per-year trace files: no path of ");
        reason.append(what);
        reason.append(" names the year ");
        append_signed_decimal(&mut reason, year as i64);
        reason.append(" (");
        reason.append(listed);
        reason.append(")");
        return Err(GridError::InvalidScenario { reason });
    }
    Ok(kept)
}

/// The years of a per-year batch over `first..=last`, in year order.
/// An empty range is refused.
pub fn batch_years(first: i32, last: i32) -> (r: Result<Vec<i32>, GridError>)
    ensures
        r is Ok <==> first <= last,
        r matches Ok(years) ==> years.len() == last - first + 1 && forall|k: int|
            0 <= k < years.len() ==> #[trigger] years@[k] == first + k,
        r matches Err(e) ==> scenario_refusal(e, "per-year batch: empty year range"@),
{
    if first > last {
        return Err(GridError::InvalidScenario { reason: String::from_str("per-year batch: empty year range") });
    }
    let mut years: Vec<i32> = Vec::new();
    let mut year: i32 = first;
    loop
        invariant_except_break
            first <= year <= last,
            years.len() == year - first,
        invariant
            forall|k: int| 0 <= k < years.len() ==> #[trigger] years@[k] == first + k,
        ensures
            years.len() == last - first + 1,
        decreases last - year,
    {
        years.push(year);
        if year == last {
            break;
        }
        year += 1;
    }
    Ok(years)
}

/// The scenario knob a sweep dimension turns (its values are read
/// separately).
#[derive(Debug, Clone, PartialEq, Eq)]
pub enum SweepTarget {
    /// One fleet entry's capacity.
    FleetCapacity { technology: String },
    /// One store's energy capacity, by index into the zone's storage list.
    StoreEnergy { store_index: usize },
    /// One store's power rating, by index into the zone's storage list.
    StorePower { store_index: usize },
    /// The zone's demand scale.
    AnnualScale,
    /// A multiplier on the capacity of every named technology.
    FleetScale { technologies: Vec<String> },
}

/// Position `i` of `names` is the first name absent from `fleet`.
pub open spec fn first_missing(names: Seq<Seq<char>>, fleet: Seq<Seq<char>>, i: int) -> bool {
    &&& 0 <= i < names.len()
    &&& !fleet.contains(names[i])
    &&& forall|k: int| 0 <= k < i ==> fleet.contains(#[trigger] names[k])
}

/// A sweep target is usable in a zone with the given fleet technologies
/// and `stores` stores: named technologies are in the fleet, store
/// indices are in range, and a fleet scale names at least one
/// technology.
pub open spec fn sweep_target_valid(target: SweepTarget, fleet: Seq<Seq<char>>, stores: usize) -> bool {
    match target {
        SweepTarget::FleetCapacity { technology } => fleet.contains(technology@),
        SweepTarget::StoreEnergy { store_index } => store_index < stores,
        SweepTarget::StorePower { store_index } => store_index < stores,
        SweepTarget::AnnualScale => true,
        SweepTarget::FleetScale { technologies } => technologies.len() > 0 && forall|k: int|
            0 <= k < technologies.len() ==> fleet.contains(#[trigger] texts(technologies@)[k]),
    }
}

/// Why a sweep names a technology absent from the fleet.
pub open spec fn missing_technology_reason(tech: Seq<char>) -> Seq<char> {
    "sweep dimension names technology "@ + tech + ", absent from the fleet"@
}

/// Why a sweep names a store index the zone does not have.
pub open spec fn missing_store_reason(index: usize, zone: Seq<char>, stores: usize) -> Seq<char> {
    "sweep dimension names store index "@ + decimal(index as nat) + ", but zone "@ + zone + " has "@ + decimal(
        stores as nat,
    ) + " stores"@
}

/// The refusal [`check_sweep_target`] gives for an unusable target in
/// `zone`.
pub open spec fn sweep_target_error(
    target: SweepTarget,
    zone: Seq<char>,
    fleet: Seq<Seq<char>>,
    stores: usize,
    e: GridError,
) -> bool {
    match target {
        SweepTarget::FleetCapacity { technology } => scenario_refusal(e, missing_technology_reason(technology@)),
        SweepTarget::StoreEnergy { store_index } => scenario_refusal(e, missing_store_reason(store_index, zone, stores)),
        SweepTarget::StorePower { store_index } => scenario_refusal(e, missing_store_reason(store_index, zone, stores)),
        SweepTarget::AnnualScale => false,
        SweepTarget::FleetScale { technologies } => if technologies.len() == 0 {
            scenario_refusal(e, "fleet_scale: at least one technology is required"@)
        } else {
            exists|i: int|
                first_missing(texts(technologies@), fleet, i) && scenario_refusal(
                    e,
                    missing_technology_reason(technologies@[i]@),
                )
        },
    }
}

/// The refusal text for a technology absent from the fleet.
fn missing_technology_text(tech: &String) -> (text: String)
    ensures
        text@ == missing_technology_reason(tech@),
{
    let mut text = String::from_str("sweep dimension names technology ");
    text.append(tech.as_str());
    text.append(", absent from the fleet");
    text
}

/// Validate a sweep dimension's target against the zone it sweeps: its
/// id, its fleet technologies and its number of stores. A fleet scale is
/// refused at its first technology absent from the fleet.
pub fn check_sweep_target(target: &SweepTarget, zone: &str, fleet_techs: &Vec<String>, stores: usize) -> (r: Result<
    (),
    GridError,
>)
    ensures
        r is Ok <==> sweep_target_valid(*target, texts(fleet_techs@), stores),
        r matches Err(e) ==> sweep_target_error(*target, zone@, texts(fleet_techs@), stores, e),
{
    match target {
        SweepTarget::FleetCapacity { technology } => {
            if !contains_name(fleet_techs, technology) {
                return Err(GridError::InvalidScenario { reason: missing_technology_text(technology) });
            }
            Ok(())
        },
        SweepTarget::StoreEnergy { store_index } | SweepTarget::StorePower { store_index } => {
            if *store_index >= stores {
                let mut reason = String::from_str("sweep dimension names store index ");
                append_decimal(&mut reason, *store_index as u64);
                reason.append(", but zone ");
                reason.append(zone);
                reason.append(" has ");
                append_decimal(&mut reason, stores as u64);
                reason.append(" stores");
                return Err(GridError::InvalidScenario { reason });
            }
            Ok(())
        },
        SweepTarget::AnnualScale => Ok(()),
        SweepTarget::FleetScale { technologies } => {
            if technologies.len() == 0 {
                return Err(
                    GridError::InvalidScenario {
                        reason: String::from_str("fleet_scale: at least one technology is required"),
                    },
                );
            }
            let ghost names = texts(technologies@);
            let ghost fleet = texts(fleet_techs@);
            let mut i: usize = 0;
            while i < technologies.len()
                invariant
                    *target == (SweepTarget::FleetScale { technologies: *technologies }),
                    technologies.len() > 0,
                    i <= technologies.len(),
                    names == texts(technologies@),
                    fleet == texts(fleet_techs@),
                    forall|k: int| 0 <= k < i ==> fleet.contains(#[trigger] names[k]),
                decreases technologies.len() - i,
            {
                if !contains_name(fleet_techs, &technologies[i]) {
                    let reason = missing_technology_text(&technologies[i]);
                    proof {
                        assert(first_missing(names, fleet, i as int));
                        assert(!fleet.contains(texts(technologies@)[i as int]));
                    }
                    return Err(GridError::InvalidScenario { reason });
                }
                i += 1;
            }
            Ok(())
        },
    }
}

/// The output column a sweep target's values are reported under,
/// unit-suffixed where physical.
pub open spec fn target_column(target: SweepTarget) -> Seq<char> {
    match target {
        SweepTarget::FleetCapacity { technology } => technology@ + "_capacity_gw"@,
        SweepTarget::StoreEnergy { store_index } => "store"@ + decimal(store_index as nat) + "_energy_gwh"@,
        SweepTarget::StorePower { store_index } => "store"@ + decimal(store_index as nat) + "_power_gw"@,
        SweepTarget::AnnualScale => "annual_scale"@,
        SweepTarget::FleetScale { .. } => "fleet_scale"@,
    }
}

impl SweepTarget {
    /// Output column name, unit-suffixed where physical.
    pub fn column(&self) -> (name: String)
        ensures
            name@ == target_column(*self),
    {
        match self {
            SweepTarget::FleetCapacity { technology } => {
                let mut name = technology.clone();
                name.append("_capacity_gw");
                name
            },
            SweepTarget::StoreEnergy { store_index } => {
                let mut name = String::from_str("store");
                append_decimal(&mut name, *store_index as u64);
                name.append("_energy_gwh");
                name
            },
            SweepTarget::StorePower { store_index } => {
                let mut name = String::from_str("store");
                append_decimal(&mut name, *store_index as u64);
                name.append("_power_gw");
                name
            },
            SweepTarget::AnnualScale => String::from_str("annual_scale"),
            SweepTarget::FleetScale { .. } => String::from_str("fleet_scale"),
        }
    }
}

/// Whether `sweep_grid` accepts the dimensions: one or two of them, none
/// without values.
pub open spec fn grid_accepted(dimensions: Seq<(SweepTarget, usize)>) -> bool {
    (dimensions.len() == 1 || dimensions.len() == 2) && forall|d: int|
        0 <= d < dimensions.len() ==> #[trigger] dimensions[d].1 > 0
}

/// The number of points of an accepted sweep grid.
pub open spec fn grid_size(dimensions: Seq<(SweepTarget, usize)>) -> int {
    if dimensions.len() == 1 {
        dimensions[0].1 as int
    } else {
        dimensions[0].1 * dimensions[1].1
    }
}

/// The value indices of point `k` of the grid, row-major (the last
/// dimension fastest).
pub open spec fn grid_point(dimensions: Seq<(SweepTarget, usize)>, k: int) -> Seq<usize> {
    if dimensions.len() == 1 {
        seq![k as usize]
    } else {
        seq![(k / dimensions[1].1 as int) as usize, (k % dimensions[1].1 as int) as usize]
    }
}

/// One evaluated point of a sweep: its value index per dimension and
/// what the evaluation returned there.
#[derive(Debug, Clone, PartialEq)]
pub struct SweepPoint<T> {
    /// Value index per dimension.
    pub indices: Vec<usize>,
    /// The evaluation at those indices.
    pub value: T,
}

/// The grid of an accepted sweep, as [`grid_point`] states it.
proof fn lemma_grid_points(dimensions: Seq<(SweepTarget, usize)>, grid: Seq<Vec<usize>>)
    requires
        grid_accepted(dimensions),
        dimensions.len() == 1 ==> grid.len() == dimensions[0].1 && forall|i: int|
            0 <= i < dimensions[0].1 ==> #[trigger] grid[i]@ == seq![i as usize],
        dimensions.len() == 2 ==> grid.len() == dimensions[0].1 * dimensions[1].1 && forall|i: int, j: int|
            0 <= i < dimensions[0].1 && 0 <= j < dimensions[1].1 ==> #[trigger] grid[i * dimensions[1].1 + j]@
                == seq![i as usize, j as usize],
    ensures
        grid.len() == grid_size(dimensions),
        forall|k: int| 0 <= k < grid.len() ==> #[trigger] grid[k]@ == grid_point(dimensions, k),
{
    if dimensions.len() == 2 {
        let rows = dimensions[0].1 as int;
        let cols = dimensions[1].1 as int;
        assert forall|k: int| 0 <= k < grid.len() implies #[trigger] grid[k]@ == grid_point(dimensions, k) by {
            let i = k / cols;
            let j = k % cols;
            assert(k == i * cols + j && 0 <= j < cols && 0 <= i < rows) by (nonlinear_arith)
                requires
                    0 <= k < rows * cols,
                    cols > 0,
                    i == k / cols,
                    j == k % cols,
            ;
            assert(grid[i * cols + j]@ == seq![i as usize, j as usize]);
        }
    }
}

/// Run a sweep: evaluate at every point of the dimensions' grid, in
/// parallel (order preserving) or serially. Refused as [`sweep_grid`]
/// refuses. On success there is one point per grid point, in row-major
/// order (the last dimension fastest), each carrying its indices and an
/// outcome of `evaluate` there, on either execution path; a failed
/// evaluation returns an error `evaluate` gave at some grid point
/// (serially, the first).
pub fn run_grid<T, F>(dimensions: &Vec<(SweepTarget, usize)>, execution: Execution, evaluate: F) -> (r: Result<
    Vec<SweepPoint<T>>,
    GridError,
>)
    where
        T: Send,
        F: Fn(&Vec<usize>) -> Result<T, GridError> + Sync + Send,
    requires
        dimensions.len() == 2 ==> dimensions@[0].1 * dimensions@[1].1 <= usize::MAX,
        forall|p: Vec<usize>| #[trigger] call_requires(evaluate, (&p,)),
    ensures
        !grid_accepted(dimensions@) ==> (r matches Err(e) && scenario_refusal(e, sweep_grid_reason(dimensions@))),
        r matches Ok(points) ==> {
            &&& points.len() == grid_size(dimensions@)
            &&& forall|k: int|
                0 <= k < points.len() ==> (#[trigger] points@[k]).indices@ == grid_point(dimensions@, k)
                    && call_ensures(evaluate, (&points@[k].indices,), Ok::<T, GridError>(points@[k].value))
        },
        r matches Err(e) ==> !grid_accepted(dimensions@) || exists|p: Vec<usize>, k: int|
            0 <= k < grid_size(dimensions@) && p@ == grid_point(dimensions@, k) && call_ensures(
                evaluate,
                (&p,),
                Err::<T, GridError>(e),
            ),
{
    let mut grid = sweep_grid(dimensions)?;
    proof {
        lemma_grid_points(dimensions@, grid@);
    }
    let ghost all_points = grid@;
    let mut values = match evaluate_points(&grid, execution, evaluate) {
        Ok(values) => values,
        Err(error) => {
            proof {
                let k = choose|k: int|
                    0 <= k < all_points.len() && call_ensures(evaluate, (&all_points[k],), Err::<T, GridError>(error));
                assert(all_points[k]@ == grid_point(dimensions@, k));
            }
            return Err(error);
        },
    };
    let ghost all_values = values@;
    let mut points: Vec<SweepPoint<T>> = Vec::new();
    while values.len() > 0
        invariant
            values.len() == grid.len(),
            values.len() + points.len() == all_points.len(),
            all_values.len() == all_points.len(),
            values@ == all_values.subrange(0, values.len() as int),
            grid@ == all_points.subrange(0, grid.len() as int),
            forall|j: int|
                0 <= j < points.len() ==> (#[trigger] points@[j]).indices == all_points[values.len() + j]
                    && points@[j].value == all_values[values.len() + j],
        decreases values.len(),
    {
        let value = values.pop().unwrap();
        let indices = grid.pop().unwrap();
        let ghost before = points@;
        points.insert(0, SweepPoint { indices, value });
        proof {
            assert forall|j: int| 0 <= j < points.len() implies (#[trigger] points@[j]).indices
                == all_points[values.len() + j] && points@[j].value == all_values[values.len() + j] by {
                if j > 0 {
                    assert(points@[j] == before[j - 1]);
                }
            }
        }
    }
    proof {
        assert forall|k: int| 0 <= k < points.len() implies (#[trigger] points@[k]).indices@ == grid_point(
            dimensions@,
            k,
        ) && call_ensures(evaluate, (&points@[k].indices,), Ok::<T, GridError>(points@[k].value)) by {
            assert(points@[k].indices == all_points[k]);
            assert(call_ensures(evaluate, (&all_points[k],), Ok::<T, GridError>(all_values[k])));
        }
    }
    Ok(points)
}

/// `points` is a complete evaluation of the sweep: one point per grid
/// point in row-major order, each with an outcome of `evaluate` there.
pub open spec fn is_sweep_evaluation<T, F: Fn(&Vec<usize>) -> Result<T, GridError>>(
    dimensions: Seq<(SweepTarget, usize)>,
    evaluate: F,
    points: Seq<SweepPoint<T>>,
) -> bool {
    &&& points.len() == grid_size(dimensions)
    &&& forall|k: int|
        0 <= k < points.len() ==> (#[trigger] points[k]).indices@ == grid_point(dimensions, k) && call_ensures(
            evaluate,
            (&points[k].indices,),
            Ok::<T, GridError>(points[k].value),
        )
}

/// `evaluate` has one outcome per grid point: the same indices give the
/// same result.
pub open spec fn single_valued<T, F: Fn(&Vec<usize>) -> Result<T, GridError>>(evaluate: F) -> bool {
    forall|p: Vec<usize>, q: Vec<usize>, a: Result<T, GridError>, b: Result<T, GridError>|
        p@ == q@ && call_ensures(evaluate, (&p,), a) && call_ensures(evaluate, (&q,), b) ==> a == b
}

/// Parallel and serial sweeps agree: when the evaluation has one outcome
/// per point, two complete evaluations of the same sweep (whichever path
/// produced each) hold the same indices and the same values at every
/// point, and no failure is possible beside a complete evaluation.
pub proof fn lemma_sweep_evaluations_agree<T, F: Fn(&Vec<usize>) -> Result<T, GridError>>(
    dimensions: Seq<(SweepTarget, usize)>,
    evaluate: F,
    a: Seq<SweepPoint<T>>,
    b: Seq<SweepPoint<T>>,
)
    requires
        single_valued(evaluate),
        is_sweep_evaluation(dimensions, evaluate, a),
        is_sweep_evaluation(dimensions, evaluate, b),
    ensures
        a.len() == b.len(),
        forall|k: int| 0 <= k < a.len() ==> (#[trigger] a[k]).indices@ == b[k].indices@ && a[k].value == b[k].value,
        forall|p: Vec<usize>, k: int, e: GridError|
            0 <= k < grid_size(dimensions) && p@ == grid_point(dimensions, k) ==> !call_ensures(
                evaluate,
                (&p,),
                Err::<T, GridError>(e),
            ),
{
    assert forall|k: int| 0 <= k < a.len() implies (#[trigger] a[k]).indices@ == b[k].indices@ && a[k].value
        == b[k].value by {
        assert(call_ensures(evaluate, (&a[k].indices,), Ok::<T, GridError>(a[k].value)));
        assert(call_ensures(evaluate, (&b[k].indices,), Ok::<T, GridError>(b[k].value)));
    }
    assert forall|p: Vec<usize>, k: int, e: GridError|
        0 <= k < grid_size(dimensions) && p@ == grid_point(dimensions, k) implies !call_ensures(
        evaluate,
        (&p,),
        Err::<T, GridError>(e),
    ) by {
        assert(call_ensures(evaluate, (&a[k].indices,), Ok::<T, GridError>(a[k].value)));
    }
}

/// A store sweep names a valid index into the zone's store list: a
/// store-energy or store-power target is usable exactly when its index
/// is below the zone's store count, and the two store knobs accept the
/// same indices.
pub proof fn lemma_store_targets_index_the_store_list(index: usize, fleet: Seq<Seq<char>>, stores: usize)
    ensures
        sweep_target_valid(SweepTarget::StoreEnergy { store_index: index }, fleet, stores) ==> index < stores,
        sweep_target_valid(SweepTarget::StorePower { store_index: index }, fleet, stores) ==> index < stores,
        index < stores ==> sweep_target_valid(SweepTarget::StoreEnergy { store_index: index }, fleet, stores),
        sweep_target_valid(SweepTarget::StoreEnergy { store_index: index }, fleet, stores) == sweep_target_valid(
            SweepTarget::StorePower { store_index: index },
            fleet,
            stores,
        ),
        stores == 0 ==> !sweep_target_valid(SweepTarget::StoreEnergy { store_index: index }, fleet, stores),
{
}

/// A fleet-capacity target and a fleet scale of that one technology are
/// usable in the same zones: exactly when the fleet has the technology.
pub proof fn lemma_technology_targets_need_the_fleet(technology: String, technologies: Vec<String>, fleet: Seq<Seq<char>>, stores: usize)
    requires
        technologies@ == seq![technology],
    ensures
        sweep_target_valid(SweepTarget::FleetCapacity { technology }, fleet, stores) == fleet.contains(technology@),
        sweep_target_valid(SweepTarget::FleetScale { technologies }, fleet, stores) == fleet.contains(technology@),
{
    if fleet.contains(technology@) {
        assert(texts(technologies@)[0] == technology@);
    } else {
        assert(texts(technologies@)[0] == technology@);
    }
}

} // verus!
