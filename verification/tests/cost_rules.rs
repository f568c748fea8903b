use grid_adequacy::{
    GenerationRowFlags, LinkRowFlags, cost_governance,
    CostFraming, CostGovernance, CostedCoverage, CostedLink, GridError, StoreVintage, costed_coverage, ensure_inputs_publishable, ensure_publishable,
    is_leap_year, periods_in_year, q9_preconditions,
};

fn names(items: &[&str]) -> Vec<String> {
    items.iter().map(|s| s.to_string()).collect()
}

#[test]
fn leap_years_follow_the_gregorian_rule() {
    assert!(is_leap_year(2024));
    assert!(is_leap_year(2000));
    assert!(!is_leap_year(1900));
    assert!(!is_leap_year(2023));
    assert!(is_leap_year(-4));
}

#[test]
fn a_year_has_48_periods_per_day() {
    assert_eq!(periods_in_year(2024), 17_568);
    assert_eq!(periods_in_year(2023), 17_520);
    assert_eq!(periods_in_year(1900), 17_520);
    assert_eq!(periods_in_year(2000), 48 * 366);
}

#[test]
fn publishable_results_pass_the_gate() {
    assert_eq!(ensure_publishable(&Vec::new(), &Vec::new()), Ok(()));
}

#[test]
fn quarantined_rows_and_unmet_gates_are_refused_by_name() {
    let rows = names(&["ccgt_2024", "ocgt_2024"]);
    let gates = names(&["data licence confirmed"]);
    assert_eq!(
        ensure_publishable(&rows, &gates),
        Err(GridError::NonQuotableResult {
            reason: "consumed quarantined rows [ccgt_2024, ocgt_2024]; unmet publication gate: data licence confirmed"
                .to_string()
        })
    );
    assert_eq!(
        ensure_publishable(&Vec::new(), &names(&["a", "b"])),
        Err(GridError::NonQuotableResult {
            reason: "unmet publication gate: a; unmet publication gate: b".to_string()
        })
    );
    assert_eq!(
        ensure_publishable(&names(&["x"]), &Vec::new()),
        Err(GridError::NonQuotableResult { reason: "consumed quarantined rows [x]".to_string() })
    );
}

#[test]
fn q9_refuses_a_doubly_costed_technology_first() {
    let costed = names(&["ccgt", "nuclear", "ccgt"]);
    assert_eq!(
        q9_preconditions(&costed, &names(&["ocgt"]), &names(&["ocgt"])),
        Err(GridError::InvalidCostInputs {
            reason: "Q9: technology ccgt appears more than once in the costed generation assets — the weighting basis would double-count it"
                .to_string()
        })
    );
}

#[test]
fn q9_refuses_a_priced_but_uncosted_thermal_series() {
    let costed = names(&["ccgt", "nuclear"]);
    let thermal = names(&["nuclear", "ocgt", "coal", "ccgt"]);
    let priced = names(&["ccgt", "coal", "ocgt"]);
    assert_eq!(
        q9_preconditions(&costed, &thermal, &priced),
        Err(GridError::InvalidCostInputs {
            reason: "Q9: thermal technology ocgt carries an SRMC series but is not a costed generation asset — its line-2 cost would have no plant-gate term to land in"
                .to_string()
        })
    );
    // An unpriced thermal series needs no cost row.
    assert_eq!(q9_preconditions(&costed, &names(&["ocgt"]), &names(&["ccgt"])), Ok(()));
}

#[test]
fn complete_coverage_says_so() {
    let coverage = costed_coverage(&names(&["onshore_wind", "ccgt"]), &Vec::new(), &names(&["ccgt", "onshore_wind"]));
    assert_eq!(
        coverage,
        CostedCoverage {
            complete: true,
            uncosted: Vec::new(),
            statement: "costed coverage: COMPLETE — every supply series of the run is a costed generation asset (G spans all supply)"
                .to_string(),
        }
    );
}

#[test]
fn uncosted_supply_is_named_in_run_order_with_exogenous_prefix() {
    let coverage = costed_coverage(
        &names(&["solar", "onshore_wind", "nuclear", "ccgt"]),
        &names(&["imports", "embedded"]),
        &names(&["onshore_wind", "ccgt"]),
    );
    assert!(!coverage.complete);
    assert_eq!(coverage.uncosted, names(&["solar", "nuclear", "exogenous:imports", "exogenous:embedded"]));
    assert!(coverage.statement.starts_with("costed coverage: INCOMPLETE"));
    assert!(coverage.statement.contains("present (solar, nuclear, exogenous:imports, exogenous:embedded) serve"));
    assert!(coverage.statement.ends_with("never render that wedge without this statement adjacent"));
}

#[test]
fn cost_labels_are_plain_values() {
    assert_ne!(CostFraming::Greenfield, CostFraming::Forward);
    assert_ne!(StoreVintage::Build2030, StoreVintage::Build2018);
    let link = CostedLink { row: "ifa".to_string(), life_years: 40 };
    assert_eq!(link.clone(), link);
}

#[test]
fn storage_gap_reports_with_quarantined_inputs_are_refused() {
    assert_eq!(ensure_inputs_publishable(&Vec::new()), Ok(()));
    assert_eq!(
        ensure_inputs_publishable(&names(&["neso_2024", "entsoe_fr"])),
        Err(GridError::NonQuotableResult { reason: "consumed quarantined inputs [neso_2024, entsoe_fr]".to_string() })
    );
}

fn generation_row(cost_row: &str, quotable: bool, bracket_rule: Option<&str>) -> GenerationRowFlags {
    GenerationRowFlags { cost_row: cost_row.to_string(), quotable, bracket_rule: bracket_rule.map(|r| r.to_string()) }
}

#[test]
fn cost_governance_lists_consumed_quarantined_rows_in_spec_order() {
    let generation = vec![
        generation_row("ccgt", true, None),
        generation_row("nuclear", false, Some("quote both variants")),
        generation_row("offshore_wind", false, None),
    ];
    let links = vec![
        LinkRowFlags { row: "ifa".to_string(), quotable: true },
        LinkRowFlags { row: "nsl".to_string(), quotable: false },
    ];
    let governance = cost_governance(CostFraming::Forward, "zero unserved over 1985–2024", &generation, 2, false, "2018 projection vintage", &links);
    assert_eq!(
        governance,
        CostGovernance {
            framing: CostFraming::Forward,
            adequacy_standard: "zero unserved over 1985–2024".to_string(),
            quotable: false,
            consumed_quarantined_rows: names(&[
                "technologies.nuclear",
                "technologies.offshore_wind",
                "storage.battery_li_ion",
                "interconnectors.nsl",
            ]),
            publication_gates: Vec::new(),
            bracket_rules: names(&["technologies.nuclear: quote both variants"]),
            staleness_stamps: names(&["storage.battery_li_ion: 2018 projection vintage"]),
        }
    );
}

#[test]
fn a_stack_of_quotable_rows_is_quotable_and_batteries_carry_their_stamp() {
    let generation = vec![generation_row("ccgt", true, None)];
    let with_batteries = cost_governance(CostFraming::Greenfield, "not solved to a standard", &generation, 1, true, "stale", &Vec::new());
    assert!(with_batteries.quotable);
    assert!(with_batteries.consumed_quarantined_rows.is_empty());
    assert_eq!(with_batteries.staleness_stamps, names(&["storage.battery_li_ion: stale"]));
    let without = cost_governance(CostFraming::Greenfield, "not solved to a standard", &generation, 0, false, "stale", &Vec::new());
    assert!(without.quotable);
    assert!(without.staleness_stamps.is_empty());
    assert_eq!(without.framing, CostFraming::Greenfield);
}

#[test]
fn the_adequacy_standard_travels_verbatim() {
    let governance = cost_governance(CostFraming::Forward, "LOLE ≤ 3 h/yr", &Vec::new(), 0, true, "", &Vec::new());
    assert_eq!(governance.adequacy_standard, "LOLE ≤ 3 h/yr");
}
