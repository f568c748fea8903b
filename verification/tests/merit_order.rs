use grid_adequacy::merit::{dispatch_stack_order, flow_ladder_position, flow_stack_order, merit_position};
use grid_adequacy::{FLOW_MERIT_ORDER, GridError, MERIT_ORDER};

fn names(items: &[&str]) -> Vec<String> {
    items.iter().map(|s| s.to_string()).collect()
}

#[test]
fn flow_ladder_is_a_relative_order_subset_of_the_dispatch_ladder() {
    let position = |tech: &str| {
        MERIT_ORDER
            .iter()
            .position(|t| *t == tech)
            .unwrap_or_else(|| panic!("flow rung {tech} missing from MERIT_ORDER"))
    };
    for pair in FLOW_MERIT_ORDER.windows(2) {
        assert!(
            position(pair[0]) < position(pair[1]),
            "relative order disagreement: {} vs {}",
            pair[0],
            pair[1]
        );
    }
}

#[test]
fn ladder_positions_are_first_occurrences() {
    assert_eq!(merit_position("nuclear"), Some(0));
    assert_eq!(merit_position("ccgt"), Some(9));
    assert_eq!(merit_position("hydrogen_turbine"), Some(12));
    assert_eq!(merit_position("solar"), None);
    assert_eq!(flow_ladder_position("hydro"), Some(2));
    assert_eq!(flow_ladder_position("ocgt"), Some(5));
    assert_eq!(flow_ladder_position("oil"), None);
}

#[test]
fn flow_rungs_map_to_the_documented_dispatch_positions() {
    let expected = [0usize, 1, 5, 6, 9, 10];
    for (k, tech) in FLOW_MERIT_ORDER.iter().enumerate() {
        assert_eq!(flow_ladder_position(tech), Some(k));
        assert_eq!(merit_position(tech), Some(expected[k]));
    }
}

#[test]
fn dispatch_stack_runs_cheapest_first_with_fleet_order_ties() {
    let techs = names(&["ocgt", "nuclear", "ccgt", "nuclear", "oil"]);
    assert_eq!(dispatch_stack_order(&techs).unwrap(), vec![1, 3, 2, 0, 4]);
    assert_eq!(dispatch_stack_order(&Vec::new()).unwrap(), Vec::<usize>::new());
}

#[test]
fn dispatch_stack_refuses_an_unknown_technology() {
    let techs = names(&["ccgt", "fusion", "solar"]);
    assert_eq!(
        dispatch_stack_order(&techs).unwrap_err(),
        GridError::UnknownThermalTechnology { tech: "fusion".to_string() }
    );
}

#[test]
fn flow_stack_orders_by_the_six_rung_ladder() {
    let techs = names(&["ocgt", "coal", "nuclear"]);
    assert_eq!(flow_stack_order("GB", &techs).unwrap(), vec![2, 1, 0]);
}

#[test]
fn flow_stack_refuses_off_ladder_and_shared_rungs() {
    // beccs is on the single-zone ladder but not on the flow ladder.
    let off = names(&["ccgt", "beccs"]);
    assert_eq!(
        flow_stack_order("GB", &off).unwrap_err(),
        GridError::UnknownThermalTechnology { tech: "beccs".to_string() }
    );
    let shared = names(&["ocgt", "ccgt", "biomass", "ccgt"]);
    assert_eq!(
        flow_stack_order("FR", &shared).unwrap_err(),
        GridError::InvalidScenario {
            reason: "zone FR: two dispatchable entries share merit position (ccgt)".to_string()
        }
    );
}

#[test]
fn flow_and_dispatch_stacks_agree_on_a_flow_ladder_fleet() {
    let techs = names(&["ccgt", "ocgt", "hydro", "nuclear", "coal", "biomass"]);
    let flow = flow_stack_order("GB", &techs).unwrap();
    assert_eq!(flow, dispatch_stack_order(&techs).unwrap());
    assert_eq!(flow, vec![3, 5, 2, 4, 0, 1]);
}
