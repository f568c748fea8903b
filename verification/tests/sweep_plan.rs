use grid_adequacy::evaluate::evaluate_points;
use grid_adequacy::sweep::run_grid;
use grid_adequacy::{
    Execution, GridError, SweepTarget, batch_years, check_dimension_count, check_sweep_target, check_zone_group, is_wind,
    paths_for_year, sweep_grid, year_horizon,
};

fn names(items: &[&str]) -> Vec<String> {
    items.iter().map(|s| s.to_string()).collect()
}

fn refused(reason: &str) -> GridError {
    GridError::InvalidScenario { reason: reason.to_string() }
}

fn store(store_index: usize) -> SweepTarget {
    SweepTarget::StoreEnergy { store_index }
}

const LISTED: &str = "demand_1985.parquet, demand_1986.parquet";

#[test]
fn one_dimension_grid_lists_each_value_index() {
    assert_eq!(sweep_grid(&vec![(SweepTarget::AnnualScale, 3)]).unwrap(), vec![vec![0], vec![1], vec![2]]);
}

#[test]
fn two_dimension_grid_is_row_major() {
    assert_eq!(
        sweep_grid(&vec![(store(0), 2), (SweepTarget::AnnualScale, 3)]).unwrap(),
        vec![vec![0, 0], vec![0, 1], vec![0, 2], vec![1, 0], vec![1, 1], vec![1, 2]]
    );
}

#[test]
fn sweep_grids_refuse_bad_dimension_counts_and_empty_dimensions() {
    assert_eq!(sweep_grid(&Vec::new()), Err(refused("a sweep needs one or two dimensions; got 0")));
    let three = vec![(store(0), 1), (store(1), 2), (SweepTarget::AnnualScale, 3)];
    assert_eq!(sweep_grid(&three), Err(refused("a sweep needs one or two dimensions; got 3")));
    assert_eq!(
        sweep_grid(&vec![(store(1), 0), (SweepTarget::AnnualScale, 2)]),
        Err(refused("sweep dimension store1_energy_gwh has no values"))
    );
    assert_eq!(
        sweep_grid(&vec![(store(1), 2), (SweepTarget::AnnualScale, 0)]),
        Err(refused("sweep dimension annual_scale has no values"))
    );
}

#[test]
fn wind_means_onshore_or_offshore() {
    assert!(is_wind("onshore_wind"));
    assert!(is_wind("offshore_wind"));
    assert!(!is_wind("solar"));
    assert!(!is_wind("wind"));
}

#[test]
fn zone_groups_are_validated_in_caller_order() {
    let zones = names(&["N", "S", "EX"]);
    assert_eq!(check_zone_group(&names(&["N", "S"]), &zones), Ok(()));
    assert_eq!(
        check_zone_group(&Vec::new(), &zones),
        Err(refused("zone-group wind sweep: the group names no zones"))
    );
    assert_eq!(
        check_zone_group(&names(&["N", "XX"]), &zones),
        Err(refused("zone-group wind sweep: the scenario has no zone XX"))
    );
    assert_eq!(
        check_zone_group(&names(&["N", "N"]), &zones),
        Err(refused("zone-group wind sweep: zone N is named more than once"))
    );
}

#[test]
fn scenario_for_year_filters_trace_lists_and_clamps_the_horizon() {
    let base_profile = names(&["demand_1985.parquet", "demand_1986.parquet"]);
    let (start, end) = year_horizon(1986);
    assert_eq!(start, "1986-01-01T00:00:00Z");
    assert_eq!(end, "1986-12-31T23:30:00Z");
    assert_eq!(
        paths_for_year(&base_profile, 1986, "the demand base_profile", LISTED).unwrap(),
        ["demand_1986.parquet"]
    );
    let err = paths_for_year(&base_profile, 1999, "the demand base_profile", LISTED).unwrap_err();
    assert!(matches!(err, GridError::InvalidScenario { .. }));
}

#[test]
fn year_tokens_are_zero_padded_to_four_characters() {
    assert_eq!(year_horizon(987).0, "0987-01-01T00:00:00Z");
    assert_eq!(year_horizon(-5).1, "-005-12-31T23:30:00Z");
    assert_eq!(year_horizon(12345).0, "12345-01-01T00:00:00Z");
    let paths = names(&["cf_0987.parquet", "cf_1987.parquet", "cf_0987b.parquet"]);
    assert_eq!(paths_for_year(&paths, 987, "cf", "cf_0987.parquet, cf_1987.parquet, cf_0987b.parquet").unwrap(), names(&["cf_0987.parquet", "cf_0987b.parquet"]));
}

#[test]
fn a_year_without_a_trace_file_names_the_list() {
    assert_eq!(
        paths_for_year(&names(&["demand.parquet"]), 2001, "the demand base_profile", "demand.parquet"),
        Err(refused(
            "per-year batch mode needs per-year trace files: no path of the demand base_profile names the year 2001 (demand.parquet)"
        ))
    );
}

#[test]
fn batch_years_run_in_year_order() {
    assert_eq!(batch_years(1985, 1988).unwrap(), vec![1985, 1986, 1987, 1988]);
    assert_eq!(batch_years(2000, 2000).unwrap(), vec![2000]);
    assert_eq!(
        batch_years(1990, 1989),
        Err(refused("per-year batch: empty year range"))
    );
}

#[test]
fn sweep_targets_must_name_fleet_technologies_and_existing_stores() {
    let fleet = names(&["onshore_wind", "offshore_wind", "solar", "ccgt"]);
    let ok = |target: SweepTarget| check_sweep_target(&target, "GB", &fleet, 2);
    assert_eq!(ok(SweepTarget::FleetCapacity { technology: "ccgt".to_string() }), Ok(()));
    assert_eq!(ok(SweepTarget::StoreEnergy { store_index: 1 }), Ok(()));
    assert_eq!(ok(SweepTarget::AnnualScale), Ok(()));
    assert_eq!(ok(SweepTarget::FleetScale { technologies: names(&["solar", "onshore_wind"]) }), Ok(()));
    assert_eq!(
        ok(SweepTarget::FleetCapacity { technology: "nuclear".to_string() }),
        Err(refused("sweep dimension names technology nuclear, absent from the fleet"))
    );
    assert_eq!(
        ok(SweepTarget::StorePower { store_index: 2 }),
        Err(refused("sweep dimension names store index 2, but zone GB has 2 stores"))
    );
    assert_eq!(
        ok(SweepTarget::FleetScale { technologies: Vec::new() }),
        Err(refused("fleet_scale: at least one technology is required"))
    );
    assert_eq!(
        ok(SweepTarget::FleetScale { technologies: names(&["solar", "hydro", "coal"]) }),
        Err(refused("sweep dimension names technology hydro, absent from the fleet"))
    );
}

#[test]
fn execution_modes_are_distinct() {
    assert_ne!(Execution::Parallel, Execution::Serial);
}

#[test]
fn sweep_columns_carry_their_units() {
    assert_eq!(SweepTarget::FleetCapacity { technology: "solar".to_string() }.column(), "solar_capacity_gw");
    assert_eq!(SweepTarget::StoreEnergy { store_index: 0 }.column(), "store0_energy_gwh");
    assert_eq!(SweepTarget::StorePower { store_index: 12 }.column(), "store12_power_gw");
    assert_eq!(SweepTarget::AnnualScale.column(), "annual_scale");
    assert_eq!(SweepTarget::FleetScale { technologies: names(&["solar"]) }.column(), "fleet_scale");
}

#[test]
fn a_sweep_has_one_or_two_dimensions() {
    assert_eq!(check_dimension_count(1), Ok(()));
    assert_eq!(check_dimension_count(2), Ok(()));
    assert_eq!(
        check_dimension_count(0),
        Err(refused("a sweep needs one or two dimensions; the spec has 0"))
    );
    assert_eq!(
        check_dimension_count(3),
        Err(refused("a sweep needs one or two dimensions; the spec has 3"))
    );
}

#[test]
fn negative_years_are_named_with_their_sign() {
    assert_eq!(
        paths_for_year(&names(&["a.parquet"]), -5, "the list", "a.parquet"),
        Err(refused("per-year batch mode needs per-year trace files: no path of the list names the year -5 (a.parquet)"))
    );
}

fn metric(indices: &Vec<usize>) -> Result<u64, GridError> {
    Ok((indices[0] * 10 + indices.get(1).copied().unwrap_or(0)) as u64)
}

#[test]
fn sweeps_evaluate_every_point_in_row_major_order() {
    let dims = vec![(store(0), 2), (SweepTarget::AnnualScale, 3)];
    let points = run_grid(&dims, Execution::Serial, metric).unwrap();
    let indices: Vec<Vec<usize>> = points.iter().map(|p| p.indices.clone()).collect();
    assert_eq!(indices, vec![vec![0, 0], vec![0, 1], vec![0, 2], vec![1, 0], vec![1, 1], vec![1, 2]]);
    let values: Vec<u64> = points.iter().map(|p| p.value).collect();
    assert_eq!(values, vec![0, 1, 2, 10, 11, 12]);
}

#[test]
fn parallel_sweeps_match_serial_sweeps() {
    let dims = vec![(store(0), 37), (SweepTarget::AnnualScale, 29)];
    let serial = run_grid(&dims, Execution::Serial, metric).unwrap();
    let parallel = run_grid(&dims, Execution::Parallel, metric).unwrap();
    assert_eq!(serial, parallel);
    assert_eq!(serial.len(), 37 * 29);
}

#[test]
fn sweeps_refuse_bad_grids_and_report_evaluation_failures() {
    assert_eq!(
        run_grid(&Vec::new(), Execution::Parallel, metric),
        Err(refused("a sweep needs one or two dimensions; got 0"))
    );
    let failing = |indices: &Vec<usize>| -> Result<u64, GridError> {
        if indices[0] >= 3 { Err(refused("no convergence")) } else { Ok(indices[0] as u64) }
    };
    let dims = vec![(SweepTarget::AnnualScale, 5)];
    assert_eq!(run_grid(&dims, Execution::Serial, failing), Err(refused("no convergence")));
    assert_eq!(run_grid(&dims, Execution::Parallel, failing), Err(refused("no convergence")));
}

#[test]
fn points_are_evaluated_in_order_on_both_paths() {
    let years: Vec<i32> = (1985..=2024).collect();
    let square = |y: &i32| -> Result<i64, GridError> { Ok(i64::from(*y) * i64::from(*y)) };
    let serial = evaluate_points(&years, Execution::Serial, square).unwrap();
    let parallel = evaluate_points(&years, Execution::Parallel, square).unwrap();
    assert_eq!(serial, parallel);
    assert_eq!(serial[0], 1985 * 1985);
    assert_eq!(serial.len(), 40);
}
