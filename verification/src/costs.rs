//! The cost stack's non-numeric rules: the framing and vintage labels,
//! the calendar accrual convention's period counts, the quarantine
//! publish gate, the Q9 decomposition's attribution preconditions, and
//! its costed-coverage statement.
use vstd::prelude::*;
use vstd::string::StringExecFns;

use crate::error::{GridError, cost_inputs_refusal};
use crate::text::{contains_name, join_with, joined, texts};

verus! {

/// The existing-fleet framing, a mandatory label on every cost artefact.
#[derive(Debug, Clone, Copy, PartialEq, Eq)]
pub enum CostFraming {
    /// "System rebuild cost": every asset alive in the run carries its
    /// annuity, as if built today.
    Greenfield,
    /// "Forward cost": sunk capex of already-built assets is excluded.
    Forward,
}

/// Which published battery build-vintage prices a store.
#[derive(Debug, Clone, Copy, PartialEq, Eq)]
pub enum StoreVintage {
    /// 2030-build medium (the forward-looking pin).
    Build2030,
    /// 2018-build medium (the historical bracket end).
    Build2018,
}

/// One costed interconnector: a reference row key plus the caller-stated
/// annualisation life (a labelled convention, not a cited figure).
#[derive(Debug, Clone, PartialEq, Eq)]
pub struct CostedLink {
    /// The costs-reference interconnector row key.
    pub row: String,
    /// Stated asset life for the annuity.
    pub life_years: u32,
}

/// The costed-coverage statement of a Q9 decomposition: whether every
/// supply series of the run is a costed generation asset, the uncosted
/// series by name, and the prose that must accompany any rendered
/// denominator wedge.
#[derive(Debug, Clone, PartialEq, Eq)]
pub struct CostedCoverage {
    /// `true` iff no supply series is uncosted.
    pub complete: bool,
    /// Uncosted supply series, by name, in run order (weather-driven,
    /// then thermal in merit order, then `exogenous:`-prefixed
    /// must-take traces).
    pub uncosted: Vec<String>,
    /// The statement that must accompany any rendered denominator wedge.
    pub statement: String,
}

/// Proleptic Gregorian leap years.
pub open spec fn leap_year(year: int) -> bool {
    year % 4 == 0 && (year % 100 != 0 || year % 400 == 0)
}

/// Days in a calendar year.
pub open spec fn days_in_year(year: int) -> int {
    if leap_year(year) {
        366
    } else {
        365
    }
}

/// Whether a calendar year is a leap year (proleptic Gregorian).
pub fn is_leap_year(year: i64) -> (leap: bool)
    ensures
        leap == leap_year(year as int),
{
    year % 4 == 0 && (year % 100 != 0 || year % 400 == 0)
}

/// Half-hourly settlement periods in a calendar year: 48 per day.
pub fn periods_in_year(year: i64) -> (periods: u32)
    ensures
        periods == 48 * days_in_year(year as int),
{
    if is_leap_year(year) {
        17_568
    } else {
        17_520
    }
}

/// The publish gate's refusal reasons: the consumed quarantined rows (if
/// any), then one reason per unmet publication gate.
pub open spec fn publication_problems(quarantined_rows: Seq<String>, publication_gates: Seq<String>) -> Seq<
    Seq<char>,
> {
    let rows = if quarantined_rows.len() == 0 {
        Seq::empty()
    } else {
        seq!["consumed quarantined rows ["@ + joined(texts(quarantined_rows), ", "@) + "]"@]
    };
    rows + texts(publication_gates).map_values(|gate: Seq<char>| "unmet publication gate: "@ + gate)
}

/// The publish gate: a cost result that consumed quarantined reference
/// rows, or carries an unmet publication gate, is refused with
/// [`GridError::NonQuotableResult`] naming every problem.
pub fn ensure_publishable(quarantined_rows: &Vec<String>, publication_gates: &Vec<String>) -> (r: Result<
    (),
    GridError,
>)
    ensures
        r is Ok <==> quarantined_rows.len() == 0 && publication_gates.len() == 0,
        r matches Err(e) ==> e matches GridError::NonQuotableResult { reason } && reason@ == joined(
            publication_problems(quarantined_rows@, publication_gates@),
            "; "@,
        ),
{
    let mut problems: Vec<String> = Vec::new();
    if quarantined_rows.len() > 0 {
        let mut problem = String::from_str("consumed quarantined rows [");
        let rows = join_with(quarantined_rows, ", ");
        problem.append(rows.as_str());
        problem.append("]");
        problems.push(problem);
    }
    let mut gate_problems: Vec<String> = Vec::new();
    let mut i: usize = 0;
    while i < publication_gates.len()
        invariant
            i <= publication_gates.len(),
            gate_problems.len() == i,
            texts(gate_problems@) =~= texts(publication_gates@).take(i as int).map_values(
                |gate: Seq<char>| "unmet publication gate: "@ + gate,
            ),
        decreases publication_gates.len() - i,
    {
        let mut problem = String::from_str("unmet publication gate: ");
        problem.append(publication_gates[i].as_str());
        let ghost before = gate_problems@;
        gate_problems.push(problem);
        proof {
            assert(texts(gate_problems@)[i as int] == "unmet publication gate: "@ + publication_gates@[i as int]@);
            assert forall|k: int| 0 <= k < i implies texts(gate_problems@)[k] == texts(before)[k] by {
                assert(gate_problems@[k] == before[k]);
            }
            let f = |gate: Seq<char>| "unmet publication gate: "@ + gate;
            assert forall|k: int| 0 <= k < i + 1 implies texts(gate_problems@)[k] == texts(
                publication_gates@,
            ).take(i + 1).map_values(f)[k] by {
                if k < i {
                    assert(texts(before)[k] == texts(publication_gates@).take(i as int).map_values(f)[k]);
                }
            }
        }
        i += 1;
    }
    proof {
        assert(texts(publication_gates@).take(publication_gates.len() as int) =~= texts(publication_gates@));
    }
    let ghost rows_part = problems@;
    let ghost gates_part = gate_problems@;
    problems.append(&mut gate_problems);
    proof {
        assert(problems@ =~= rows_part + gates_part);
        assert forall|k: int| 0 <= k < problems.len() implies texts(problems@)[k] == (texts(rows_part)
            + texts(gates_part))[k] by {
            if k < rows_part.len() {
                assert(problems@[k] == rows_part[k]);
            } else {
                assert(problems@[k] == gates_part[k - rows_part.len()]);
            }
        }
        assert(texts(problems@) =~= texts(rows_part) + texts(gates_part));
        assert(texts(problems@) =~= publication_problems(quarantined_rows@, publication_gates@));
    }
    if problems.len() == 0 {
        Ok(())
    } else {
        Err(GridError::NonQuotableResult { reason: join_with(&problems, "; ") })
    }
}

/// The storage-gap report's publish gate: a report whose inputs were
/// quarantined is refused with [`GridError::NonQuotableResult`] naming
/// them.
pub fn ensure_inputs_publishable(consumed_quarantined_inputs: &Vec<String>) -> (r: Result<(), GridError>)
    ensures
        r is Ok <==> consumed_quarantined_inputs.len() == 0,
        r matches Err(e) ==> e matches GridError::NonQuotableResult { reason } && reason@ == "consumed quarantined inputs ["@
            + joined(texts(consumed_quarantined_inputs@), ", "@) + "]"@,
{
    if consumed_quarantined_inputs.len() == 0 {
        return Ok(());
    }
    let mut reason = String::from_str("consumed quarantined inputs [");
    let names = join_with(consumed_quarantined_inputs, ", ");
    reason.append(names.as_str());
    reason.append("]");
    Err(GridError::NonQuotableResult { reason })
}

/// `names[i]` repeats a name that appears earlier in `names`.
pub open spec fn repeats_earlier(names: Seq<Seq<char>>, i: int) -> bool {
    exists|j: int| 0 <= j < i && names[j] == names[i]
}

/// `i` is the first position of `names` that repeats an earlier name.
pub open spec fn first_repeat(names: Seq<Seq<char>>, i: int) -> bool {
    &&& 0 <= i < names.len()
    &&& repeats_earlier(names, i)
    &&& forall|k: int| 0 <= k < i ==> !repeats_earlier(names, k)
}

/// `i` is the first thermal series that carries an SRMC series but is not
/// costed.
pub open spec fn first_priced_uncosted(
    thermal: Seq<Seq<char>>,
    priced: Seq<Seq<char>>,
    costed: Seq<Seq<char>>,
    i: int,
) -> bool {
    &&& 0 <= i < thermal.len()
    &&& priced.contains(thermal[i]) && !costed.contains(thermal[i])
    &&& forall|k: int| 0 <= k < i ==> !(priced.contains(thermal[k]) && !costed.contains(thermal[k]))
}

/// The position of the first name that repeats an earlier one.
fn first_repeated_name(names: &Vec<String>) -> (r: Option<usize>)
    ensures
        r matches Some(i) ==> first_repeat(texts(names@), i as int),
        r is None ==> forall|i: int| 0 <= i < names.len() ==> !repeats_earlier(texts(names@), i),
{
    let ghost t = texts(names@);
    let mut i: usize = 0;
    while i < names.len()
        invariant
            i <= names.len(),
            t == texts(names@),
            forall|k: int| 0 <= k < i ==> !repeats_earlier(t, k),
        decreases names.len() - i,
    {
        let mut j: usize = 0;
        while j < i
            invariant
                j <= i < names.len(),
                t == texts(names@),
                forall|k: int| 0 <= k < j ==> t[k] != t[i as int],
                forall|k: int| 0 <= k < i ==> !repeats_earlier(t, k),
            decreases i - j,
        {
            if names[j] == names[i] {
                assert(repeats_earlier(t, i as int)) by {
                    assert(0 <= j < i && t[j as int] == t[i as int]);
                }
                return Some(i);
            }
            j += 1;
        }
        i += 1;
    }
    None
}

/// Why a technology costed twice is refused.
pub open spec fn duplicate_costed_reason(tech: Seq<char>) -> Seq<char> {
    "Q9: technology "@ + tech
        + " appears more than once in the costed generation assets — the weighting basis would double-count it"@
}

/// Why a priced but uncosted thermal technology is refused.
pub open spec fn priced_uncosted_reason(tech: Seq<char>) -> Seq<char> {
    "Q9: thermal technology "@ + tech
        + " carries an SRMC series but is not a costed generation asset — its line-2 cost would have no plant-gate term to land in"@
}

/// The Q9 decomposition's attribution preconditions: no technology is
/// costed twice (the weighting basis would double-count it), and every
/// thermal series carrying an SRMC series is a costed asset (otherwise
/// its fuel and carbon cost would have no plant-gate term). The first
/// violation found, in that order, is refused.
pub fn q9_preconditions(costed_techs: &Vec<String>, thermal_techs: &Vec<String>, priced_techs: &Vec<String>) -> (r:
    Result<(), GridError>)
    ensures
        r is Ok <==> (forall|i: int| 0 <= i < costed_techs.len() ==> !repeats_earlier(texts(costed_techs@), i))
            && (forall|i: int|
            0 <= i < thermal_techs.len() ==> !(texts(priced_techs@).contains(texts(thermal_techs@)[i])
                && !texts(costed_techs@).contains(texts(thermal_techs@)[i]))),
        r matches Err(e) ==> (exists|i: int|
            first_repeat(texts(costed_techs@), i) && cost_inputs_refusal(
                e,
                duplicate_costed_reason(costed_techs@[i]@),
            )) || ((forall|i: int|
            0 <= i < costed_techs.len() ==> !repeats_earlier(texts(costed_techs@), i)) && exists|i: int|
            first_priced_uncosted(texts(thermal_techs@), texts(priced_techs@), texts(costed_techs@), i)
                && cost_inputs_refusal(e, priced_uncosted_reason(thermal_techs@[i]@))),
{
    match first_repeated_name(costed_techs) {
        Some(i) => {
            let mut reason = String::from_str("Q9: technology ");
            reason.append(costed_techs[i].as_str());
            reason.append(
                " appears more than once in the costed generation assets — the weighting basis would double-count it",
            );
            return Err(GridError::InvalidCostInputs { reason });
        },
        None => {},
    }
    let mut i: usize = 0;
    while i < thermal_techs.len()
        invariant
            i <= thermal_techs.len(),
            forall|k: int| 0 <= k < costed_techs.len() ==> !repeats_earlier(texts(costed_techs@), k),
            forall|k: int|
                0 <= k < i ==> !(texts(priced_techs@).contains(texts(thermal_techs@)[k]) && !texts(
                    costed_techs@,
                ).contains(texts(thermal_techs@)[k])),
        decreases thermal_techs.len() - i,
    {
        if contains_name(priced_techs, &thermal_techs[i]) && !contains_name(costed_techs, &thermal_techs[i]) {
            let mut reason = String::from_str("Q9: thermal technology ");
            reason.append(thermal_techs[i].as_str());
            reason.append(
                " carries an SRMC series but is not a costed generation asset — its line-2 cost would have no plant-gate term to land in",
            );
            proof {
                assert(first_priced_uncosted(
                    texts(thermal_techs@),
                    texts(priced_techs@),
                    texts(costed_techs@),
                    i as int,
                ));
            }
            return Err(GridError::InvalidCostInputs { reason });
        }
        i += 1;
    }
    Ok(())
}

/// The coverage statement when every supply series is costed.
pub open spec fn complete_coverage_statement() -> Seq<char> {
    "costed coverage: COMPLETE — every supply series of the run is a costed generation asset (G spans all supply)"@
}

/// The opening of the coverage statement when some supply is uncosted.
pub open spec fn incomplete_coverage_opening() -> Seq<char> {
    "costed coverage: INCOMPLETE — the weighting basis G covers the costed technologies only; uncosted supply series present ("@
}

/// The close of the coverage statement when some supply is uncosted.
pub open spec fn incomplete_coverage_close() -> Seq<char> {
    ") serve demand inside the delivered denominator E but outside G, and their costs are outside the stack entirely, so the denominator wedge ('curtailment'/'balancing' in the Q9 label mapping) can be NEGATIVE; never render that wedge without this statement adjacent"@
}

/// The uncosted supply series of a run, in run order: the weather-driven
/// and thermal technologies (`supply_techs`, in that order) that are not
/// costed, then every exogenous must-take trace as `exogenous:<label>`.
pub open spec fn uncosted_series(
    supply_techs: Seq<Seq<char>>,
    exogenous_labels: Seq<Seq<char>>,
    costed_techs: Seq<Seq<char>>,
) -> Seq<Seq<char>> {
    supply_techs.filter(|tech: Seq<char>| !costed_techs.contains(tech)) + exogenous_labels.map_values(
        |label: Seq<char>| "exogenous:"@ + label,
    )
}

/// The costed-coverage statement of a Q9 decomposition: the run's supply
/// series outside the costed generation assets, by name and in run
/// order (weather-driven and thermal technologies, then `exogenous:`
/// traces), whether the coverage is complete, and the prose that must
/// travel with the denominator wedge (whose sign the uncosted supply can
/// turn negative).
pub fn costed_coverage(supply_techs: &Vec<String>, exogenous_labels: &Vec<String>, costed_techs: &Vec<String>) -> (coverage:
    CostedCoverage)
    ensures
        texts(coverage.uncosted@) == uncosted_series(texts(supply_techs@), texts(exogenous_labels@), texts(costed_techs@)),
        coverage.complete == (coverage.uncosted.len() == 0),
        coverage.statement@ == if coverage.complete {
            complete_coverage_statement()
        } else {
            incomplete_coverage_opening() + joined(texts(coverage.uncosted@), ", "@) + incomplete_coverage_close()
        },
{
    let ghost costed = texts(costed_techs@);
    let ghost keep = |tech: Seq<char>| !costed.contains(tech);
    let mut uncosted: Vec<String> = Vec::new();
    let mut i: usize = 0;
    while i < supply_techs.len()
        invariant
            i <= supply_techs.len(),
            costed == texts(costed_techs@),
            keep == (|tech: Seq<char>| !costed.contains(tech)),
            texts(uncosted@) =~= texts(supply_techs@).take(i as int).filter(keep),
        decreases supply_techs.len() - i,
    {
        proof {
            assert(texts(supply_techs@).take(i + 1).drop_last() =~= texts(supply_techs@).take(i as int));
            reveal_with_fuel(Seq::<Seq<char>>::filter, 1);
        }
        if !contains_name(costed_techs, &supply_techs[i]) {
            let name = supply_techs[i].clone();
            let ghost before = uncosted@;
            uncosted.push(name);
            proof {
                assert(texts(uncosted@) =~= texts(before).push(supply_techs@[i as int]@));
            }
        }
        i += 1;
    }
    proof {
        assert(texts(supply_techs@).take(supply_techs.len() as int) =~= texts(supply_techs@));
    }
    let ghost costed_part = uncosted@;
    let mut j: usize = 0;
    while j < exogenous_labels.len()
        invariant
            j <= exogenous_labels.len(),
            uncosted.len() == costed_part.len() + j,
            uncosted@.take(costed_part.len() as int) == costed_part,
            forall|k: int|
                0 <= k < j ==> #[trigger] uncosted@[costed_part.len() + k]@ == "exogenous:"@ + exogenous_labels@[k]@,
        decreases exogenous_labels.len() - j,
    {
        let mut name = String::from_str("exogenous:");
        name.append(exogenous_labels[j].as_str());
        let ghost before = uncosted@;
        uncosted.push(name);
        proof {
            assert(uncosted@.take(costed_part.len() as int) =~= before.take(costed_part.len() as int));
            assert forall|k: int| 0 <= k < j + 1 implies #[trigger] uncosted@[costed_part.len() + k]@
                == "exogenous:"@ + exogenous_labels@[k]@ by {
                if k < j {
                    assert(uncosted@[costed_part.len() + k] == before[costed_part.len() + k]);
                }
            }
        }
        j += 1;
    }
    proof {
        let expected = uncosted_series(texts(supply_techs@), texts(exogenous_labels@), costed);
        assert forall|k: int| 0 <= k < uncosted.len() implies texts(uncosted@)[k] == expected[k] by {
            if k < costed_part.len() {
                assert(uncosted@[k] == costed_part[k]);
            } else {
                assert(uncosted@[costed_part.len() + (k - costed_part.len())]@ == "exogenous:"@
                    + exogenous_labels@[k - costed_part.len()]@);
            }
        }
        assert(texts(uncosted@) =~= expected);
    }
    let complete = uncosted.len() == 0;
    let statement = if complete {
        String::from_str(
            "costed coverage: COMPLETE — every supply series of the run is a costed generation asset (G spans all supply)",
        )
    } else {
        let mut text = String::from_str(
            "costed coverage: INCOMPLETE — the weighting basis G covers the costed technologies only; uncosted supply series present (",
        );
        let names = join_with(&uncosted, ", ");
        text.append(names.as_str());
        text.append(
            ") serve demand inside the delivered denominator E but outside G, and their costs are outside the stack entirely, so the denominator wedge ('curtailment'/'balancing' in the Q9 label mapping) can be NEGATIVE; never render that wedge without this statement adjacent",
        );
        text
    };
    CostedCoverage { complete, uncosted, statement }
}

/// One costed generation asset's reference row, as the cost stack's
/// governance reads it.
#[derive(Debug, Clone, PartialEq, Eq)]
pub struct GenerationRowFlags {
    /// The costs-reference technology row key.
    pub cost_row: String,
    /// Whether the row is quotable (not quarantined).
    pub quotable: bool,
    /// The row's bracket rule, a rendering obligation, if it has one.
    pub bracket_rule: Option<String>,
}

/// One costed interconnector's reference row, as the cost stack's
/// governance reads it.
#[derive(Debug, Clone, PartialEq, Eq)]
pub struct LinkRowFlags {
    /// The costs-reference interconnector row key.
    pub row: String,
    /// Whether the row is quotable (not quarantined).
    pub quotable: bool,
}

/// The governance stamped on a cost stack: its framing, the adequacy
/// standard of its reliability stamp, whether it is quotable, the
/// quarantined reference rows it consumed, unmet publication gates,
/// bracket rules and staleness stamps.
#[derive(Debug, Clone, PartialEq, Eq)]
pub struct CostGovernance {
    /// The existing-fleet framing label.
    pub framing: CostFraming,
    /// The adequacy standard the scenario was solved to, verbatim.
    pub adequacy_standard: String,
    /// `false` iff the stack consumed at least one quarantined row.
    pub quotable: bool,
    /// The quarantined rows consumed, by reference table path.
    pub consumed_quarantined_rows: Vec<String>,
    /// Unmet publication gates carried by consumed rows.
    pub publication_gates: Vec<String>,
    /// Bracket rules carried by consumed rows.
    pub bracket_rules: Vec<String>,
    /// Staleness stamps carried by consumed rows.
    pub staleness_stamps: Vec<String>,
}

/// The quarantined generation rows, as `technologies.<row>`, in spec
/// order.
pub open spec fn quarantined_generation_rows(generation: Seq<GenerationRowFlags>) -> Seq<Seq<char>> {
    generation.filter(|g: GenerationRowFlags| !g.quotable).map_values(
        |g: GenerationRowFlags| "technologies."@ + g.cost_row@,
    )
}

/// The quarantined interconnector rows, as `interconnectors.<row>`, in
/// spec order.
pub open spec fn quarantined_link_rows(links: Seq<LinkRowFlags>) -> Seq<Seq<char>> {
    links.filter(|l: LinkRowFlags| !l.quotable).map_values(|l: LinkRowFlags| "interconnectors."@ + l.row@)
}

/// The generation rows' bracket rules, as `technologies.<row>: <rule>`.
pub open spec fn generation_bracket_rules(generation: Seq<GenerationRowFlags>) -> Seq<Seq<char>> {
    generation.filter(|g: GenerationRowFlags| g.bracket_rule is Some).map_values(
        |g: GenerationRowFlags| "technologies."@ + g.cost_row@ + ": "@ + g.bracket_rule->0@,
    )
}

/// The quarantined rows a cost stack consumes: generation rows, then the
/// battery row when batteries are costed, then interconnector rows.
pub open spec fn consumed_rows(
    generation: Seq<GenerationRowFlags>,
    batteries: usize,
    battery_quotable: bool,
    links: Seq<LinkRowFlags>,
) -> Seq<Seq<char>> {
    quarantined_generation_rows(generation) + (if batteries > 0 && !battery_quotable {
        seq!["storage.battery_li_ion"@]
    } else {
        Seq::empty()
    }) + quarantined_link_rows(links)
}

/// The quarantined generation rows, in spec order.
fn collect_generation_rows(generation: &Vec<GenerationRowFlags>) -> (rows: Vec<String>)
    ensures
        texts(rows@) == quarantined_generation_rows(generation@),
{
    let ghost keep = |g: GenerationRowFlags| !g.quotable;
    let ghost label = |g: GenerationRowFlags| "technologies."@ + g.cost_row@;
    let mut rows: Vec<String> = Vec::new();
    let mut i: usize = 0;
    while i < generation.len()
        invariant
            i <= generation.len(),
            keep == (|g: GenerationRowFlags| !g.quotable),
            label == (|g: GenerationRowFlags| "technologies."@ + g.cost_row@),
            texts(rows@) =~= generation@.take(i as int).filter(keep).map_values(label),
        decreases generation.len() - i,
    {
        proof {
            assert(generation@.take(i + 1).drop_last() =~= generation@.take(i as int));
            reveal_with_fuel(Seq::<GenerationRowFlags>::filter, 1);
        }
        if !generation[i].quotable {
            let mut row = String::from_str("technologies.");
            row.append(generation[i].cost_row.as_str());
            let ghost before = rows@;
            rows.push(row);
            proof {
                let kept = generation@.take(i as int).filter(keep);
                assert(generation@.take(i + 1).filter(keep) == kept.push(generation@[i as int]));
                assert(kept.push(generation@[i as int]).map_values(label) =~= kept.map_values(label).push(
                    label(generation@[i as int]),
                ));
                assert(texts(rows@) =~= texts(before).push(rows@[before.len() as int]@));
            }
        }
        i += 1;
    }
    proof {
        assert(generation@.take(generation.len() as int) =~= generation@);
    }
    rows
}

/// The quarantined interconnector rows, in spec order.
fn collect_link_rows(links: &Vec<LinkRowFlags>) -> (rows: Vec<String>)
    ensures
        texts(rows@) == quarantined_link_rows(links@),
{
    let ghost keep = |l: LinkRowFlags| !l.quotable;
    let ghost label = |l: LinkRowFlags| "interconnectors."@ + l.row@;
    let mut rows: Vec<String> = Vec::new();
    let mut i: usize = 0;
    while i < links.len()
        invariant
            i <= links.len(),
            keep == (|l: LinkRowFlags| !l.quotable),
            label == (|l: LinkRowFlags| "interconnectors."@ + l.row@),
            texts(rows@) =~= links@.take(i as int).filter(keep).map_values(label),
        decreases links.len() - i,
    {
        proof {
            assert(links@.take(i + 1).drop_last() =~= links@.take(i as int));
            reveal_with_fuel(Seq::<LinkRowFlags>::filter, 1);
        }
        if !links[i].quotable {
            let mut row = String::from_str("interconnectors.");
            row.append(links[i].row.as_str());
            let ghost before = rows@;
            rows.push(row);
            proof {
                let kept = links@.take(i as int).filter(keep);
                assert(links@.take(i + 1).filter(keep) == kept.push(links@[i as int]));
                assert(kept.push(links@[i as int]).map_values(label) =~= kept.map_values(label).push(
                    label(links@[i as int]),
                ));
                assert(texts(rows@) =~= texts(before).push(rows@[before.len() as int]@));
            }
        }
        i += 1;
    }
    proof {
        assert(links@.take(links.len() as int) =~= links@);
    }
    rows
}

/// The generation rows' bracket rules, in spec order.
fn collect_bracket_rules(generation: &Vec<GenerationRowFlags>) -> (rules: Vec<String>)
    ensures
        texts(rules@) == generation_bracket_rules(generation@),
{
    let ghost keep = |g: GenerationRowFlags| g.bracket_rule is Some;
    let ghost label = |g: GenerationRowFlags| "technologies."@ + g.cost_row@ + ": "@ + g.bracket_rule->0@;
    let mut rules: Vec<String> = Vec::new();
    let mut i: usize = 0;
    while i < generation.len()
        invariant
            i <= generation.len(),
            keep == (|g: GenerationRowFlags| g.bracket_rule is Some),
            label == (|g: GenerationRowFlags| "technologies."@ + g.cost_row@ + ": "@ + g.bracket_rule->0@),
            texts(rules@) =~= generation@.take(i as int).filter(keep).map_values(label),
        decreases generation.len() - i,
    {
        proof {
            assert(generation@.take(i + 1).drop_last() =~= generation@.take(i as int));
            reveal_with_fuel(Seq::<GenerationRowFlags>::filter, 1);
        }
        match &generation[i].bracket_rule {
            Some(rule) => {
                let mut text = String::from_str("technologies.");
                text.append(generation[i].cost_row.as_str());
                text.append(": ");
                text.append(rule.as_str());
                let ghost before = rules@;
                rules.push(text);
                proof {
                    let kept = generation@.take(i as int).filter(keep);
                    assert(generation@.take(i + 1).filter(keep) == kept.push(generation@[i as int]));
                    assert(kept.push(generation@[i as int]).map_values(label) =~= kept.map_values(label).push(
                        label(generation@[i as int]),
                    ));
                    assert(texts(rules@) =~= texts(before).push(rules@[before.len() as int]@));
                }
            },
            None => {},
        }
        i += 1;
    }
    proof {
        assert(generation@.take(generation.len() as int) =~= generation@);
    }
    rules
}

/// The governance of a cost stack over the given costed assets: its
/// framing and adequacy standard, the quarantined rows it consumes (generation rows as
/// `technologies.<row>`, then `storage.battery_li_ion` when batteries are
/// costed from a quarantined battery row, then interconnector rows as
/// `interconnectors.<row>`), quotable exactly when there are none, no
/// publication gate, the generation rows' bracket rules, and the battery
/// row's staleness stamp whenever batteries are costed (a property of
/// the row, whatever its quotable flag).
pub fn cost_governance(
    framing: CostFraming,
    adequacy_standard: &str,
    generation: &Vec<GenerationRowFlags>,
    batteries: usize,
    battery_quotable: bool,
    battery_staleness_stamp: &str,
    links: &Vec<LinkRowFlags>,
) -> (governance: CostGovernance)
    ensures
        governance.framing == framing,
        governance.adequacy_standard@ == adequacy_standard@,
        texts(governance.consumed_quarantined_rows@) == consumed_rows(
            generation@,
            batteries,
            battery_quotable,
            links@,
        ),
        governance.quotable == (governance.consumed_quarantined_rows.len() == 0),
        governance.publication_gates.len() == 0,
        texts(governance.bracket_rules@) == generation_bracket_rules(generation@),
        texts(governance.staleness_stamps@) == if batteries > 0 {
            seq!["storage.battery_li_ion: "@ + battery_staleness_stamp@]
        } else {
            Seq::<Seq<char>>::empty()
        },
{
    let mut rows = collect_generation_rows(generation);
    let ghost generation_part = rows@;
    let mut staleness_stamps: Vec<String> = Vec::new();
    if batteries > 0 {
        if !battery_quotable {
            rows.push(String::from_str("storage.battery_li_ion"));
        }
        let mut stamp = String::from_str("storage.battery_li_ion: ");
        stamp.append(battery_staleness_stamp);
        staleness_stamps.push(stamp);
    }
    let ghost battery_part = rows@;
    let mut link_rows = collect_link_rows(links);
    let ghost link_part = link_rows@;
    rows.append(&mut link_rows);
    proof {
        assert(texts(battery_part) =~= texts(generation_part) + (if batteries > 0 && !battery_quotable {
            seq!["storage.battery_li_ion"@]
        } else {
            Seq::<Seq<char>>::empty()
        }));
        assert(rows@ =~= battery_part + link_part);
        assert(texts(rows@) =~= texts(battery_part) + texts(link_part));
        assert(texts(staleness_stamps@) =~= if batteries > 0 {
            seq!["storage.battery_li_ion: "@ + battery_staleness_stamp@]
        } else {
            Seq::<Seq<char>>::empty()
        });
    }
    let bracket_rules = collect_bracket_rules(generation);
    let quotable = rows.len() == 0;
    CostGovernance {
        framing,
        adequacy_standard: String::from_str(adequacy_standard),
        quotable,
        consumed_quarantined_rows: rows,
        publication_gates: Vec::new(),
        bracket_rules,
        staleness_stamps,
    }
}

/// The rendered bracket rule of a generation row that carries one.
pub open spec fn bracket_rule_line(row: GenerationRowFlags) -> Seq<char> {
    "technologies."@ + row.cost_row@ + ": "@ + row.bracket_rule->0@
}

/// A bracket rule is a rendering obligation of its row: every generation
/// row that carries one has it listed, whether or not the row is
/// quotable.
pub proof fn lemma_every_bracket_rule_is_listed(generation: Seq<GenerationRowFlags>, i: int)
    requires
        0 <= i < generation.len(),
        generation[i].bracket_rule is Some,
    ensures
        generation_bracket_rules(generation).contains(bracket_rule_line(generation[i])),
    decreases generation.len(),
{
    reveal_with_fuel(Seq::<GenerationRowFlags>::filter, 1);
    let rest = generation.drop_last();
    let last = generation.last();
    let listed = generation_bracket_rules(generation);
    let earlier = generation_bracket_rules(rest);
    if last.bracket_rule is Some {
        assert(listed =~= earlier.push(bracket_rule_line(last)));
        if i == generation.len() - 1 {
            assert(listed[listed.len() - 1] == bracket_rule_line(generation[i]));
        } else {
            assert(rest[i] == generation[i]);
            lemma_every_bracket_rule_is_listed(rest, i);
            let k = choose|k: int| 0 <= k < earlier.len() && earlier[k] == bracket_rule_line(generation[i]);
            assert(listed[k] == earlier[k]);
        }
    } else {
        assert(listed =~= earlier);
        assert(rest[i] == generation[i]);
        lemma_every_bracket_rule_is_listed(rest, i);
    }
}

/// Every listed bracket rule is the rule of a generation row that
/// carries one.
pub proof fn lemma_listed_bracket_rules_come_from_rows(generation: Seq<GenerationRowFlags>, line: Seq<char>)
    requires
        generation_bracket_rules(generation).contains(line),
    ensures
        exists|i: int|
            0 <= i < generation.len() && generation[i].bracket_rule is Some && line == bracket_rule_line(
                #[trigger] generation[i],
            ),
    decreases generation.len(),
{
    reveal_with_fuel(Seq::<GenerationRowFlags>::filter, 1);
    if generation.len() == 0 {
        assert(generation_bracket_rules(generation).len() == 0);
    } else {
        let rest = generation.drop_last();
        let last = generation.last();
        let listed = generation_bracket_rules(generation);
        let earlier = generation_bracket_rules(rest);
        if last.bracket_rule is Some && line == bracket_rule_line(last) {
            assert(generation[generation.len() - 1] == last);
        } else {
            if last.bracket_rule is Some {
                assert(listed =~= earlier.push(bracket_rule_line(last)));
                let k = choose|k: int| 0 <= k < listed.len() && listed[k] == line;
                assert(k < earlier.len());
                assert(earlier[k] == line);
            } else {
                assert(listed =~= earlier);
            }
            lemma_listed_bracket_rules_come_from_rows(rest, line);
            let i = choose|i: int|
                0 <= i < rest.len() && rest[i].bracket_rule is Some && line == bracket_rule_line(#[trigger] rest[i]);
            assert(generation[i] == rest[i]);
        }
    }
}

/// The bracket rules do not depend on which rows are quotable: two row
/// lists that differ only in their quotable flags list the same rules.
pub proof fn lemma_bracket_rules_ignore_quotability(a: Seq<GenerationRowFlags>, b: Seq<GenerationRowFlags>)
    requires
        a.len() == b.len(),
        forall|i: int|
            0 <= i < a.len() ==> (#[trigger] a[i]).cost_row == b[i].cost_row && a[i].bracket_rule == b[i].bracket_rule,
    ensures
        generation_bracket_rules(a) == generation_bracket_rules(b),
    decreases a.len(),
{
    reveal_with_fuel(Seq::<GenerationRowFlags>::filter, 1);
    if a.len() > 0 {
        let ra = a.drop_last();
        let rb = b.drop_last();
        assert forall|i: int| 0 <= i < ra.len() implies (#[trigger] ra[i]).cost_row == rb[i].cost_row
            && ra[i].bracket_rule == rb[i].bracket_rule by {
            assert(ra[i] == a[i] && rb[i] == b[i]);
        }
        lemma_bracket_rules_ignore_quotability(ra, rb);
        assert(a.last().cost_row == b.last().cost_row && a.last().bracket_rule == b.last().bracket_rule) by {
            assert(a[a.len() - 1].cost_row == b[a.len() - 1].cost_row);
        }
        if a.last().bracket_rule is Some {
            assert(generation_bracket_rules(a) =~= generation_bracket_rules(ra).push(bracket_rule_line(a.last())));
            assert(generation_bracket_rules(b) =~= generation_bracket_rules(rb).push(bracket_rule_line(b.last())));
        } else {
            assert(generation_bracket_rules(a) =~= generation_bracket_rules(ra));
            assert(generation_bracket_rules(b) =~= generation_bracket_rules(rb));
        }
    } else {
        assert(generation_bracket_rules(a) =~= generation_bracket_rules(b));
    }
}

} // verus!
