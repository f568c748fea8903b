use grid_adequacy::attribution::Band;
use grid_adequacy::{GridError, PolicyContract, RuleBased, check_attribution_scope, dispatch_sequence, store_label};

fn names(items: &[&str]) -> Vec<String> {
    items.iter().map(|s| s.to_string()).collect()
}

#[test]
fn the_rule_based_contract_guarantees_every_policy_tier_obligation() {
    let contract = PolicyContract::rule_based();
    assert!(contract.charge_from_surplus_only);
    assert!(contract.discharge_after_stack_only);
    assert_eq!(RuleBased.contract(), contract);
}

#[test]
fn stores_are_consulted_in_ascending_dispatch_order() {
    assert_eq!(dispatch_sequence(&vec![3, 1, 2]), vec![1, 2, 0]);
    assert_eq!(dispatch_sequence(&vec![2, 0, 2, 0, 255]), vec![1, 3, 0, 2, 4]);
    assert_eq!(dispatch_sequence(&Vec::new()), Vec::<usize>::new());
}

#[test]
fn store_labels_disambiguate_repeated_kinds_by_dispatch_order() {
    let zone = names(&["battery", "pumped_hydro", "battery"]);
    assert_eq!(store_label(&zone, "battery", 2), "battery_2");
    assert_eq!(store_label(&zone, "pumped_hydro", 1), "pumped_hydro");
    assert_eq!(store_label(&names(&["battery"]), "battery", 7), "battery");
}

#[test]
fn band_names_are_stable() {
    assert_eq!(Band::Diurnal.as_str(), "diurnal");
    assert_eq!(Band::Synoptic.as_str(), "synoptic");
    assert_eq!(Band::Seasonal.as_str(), "seasonal");
    assert_eq!(Band::InterAnnual.as_str(), "inter_annual");
}

#[test]
fn attribution_is_scoped_to_one_must_take_zone_with_one_store() {
    assert_eq!(check_attribution_scope(1, &Vec::new(), 1, 0), Ok(()));
    assert_eq!(check_attribution_scope(2, &Vec::new(), 1, 0), Err(GridError::MultiZoneUnsupported { found: 2 }));
    assert_eq!(
        check_attribution_scope(1, &names(&["ccgt", "ocgt"]), 1, 0),
        Err(GridError::UnsupportedFeature {
            feature: "storage attribution on a fleet with a dispatchable stack (ccgt): storage would face the post-stack deficit, not the residual load, and the decomposition-of-residual attribution would not reconcile — attribution is defined for all-must-take (wind+solar+storage) fleets".to_string()
        })
    );
    assert_eq!(
        check_attribution_scope(1, &Vec::new(), 2, 1),
        Err(GridError::UnsupportedFeature {
            feature: "storage attribution on a portfolio (2 stores, designated index 1): attribution is defined for single-store scenarios".to_string()
        })
    );
}
