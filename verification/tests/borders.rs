use grid_adequacy::multizone::Border;
use grid_adequacy::{GridError, check_budget_windows, check_capacity_factor_trace, check_single_zone, group_borders, link_label};

#[test]
fn parallel_links_share_one_border_in_first_appearance_order() {
    // Links: 0→1, 2→0, 1→0, 0→2, 1→2.
    let endpoints = vec![(0, 1), (2, 0), (1, 0), (0, 2), (1, 2)];
    let borders = group_borders(&endpoints);
    assert_eq!(
        borders,
        vec![
            Border { low: 0, high: 1, links: vec![0, 2] },
            Border { low: 0, high: 2, links: vec![1, 3] },
            Border { low: 1, high: 2, links: vec![4] },
        ]
    );
}

#[test]
fn every_link_lands_on_exactly_one_border() {
    let endpoints = vec![(3, 1), (1, 3), (2, 2), (0, 3), (3, 1), (2, 2)];
    let borders = group_borders(&endpoints);
    let mut seen = vec![0u32; endpoints.len()];
    for border in &borders {
        for &link in &border.links {
            seen[link] += 1;
            let (a, b) = endpoints[link];
            assert_eq!((a.min(b), a.max(b)), (border.low, border.high));
        }
    }
    assert!(seen.iter().all(|&n| n == 1));
    assert_eq!(borders.len(), 3);
    assert!(group_borders(&Vec::new()).is_empty());
}

#[test]
fn link_labels_prefer_the_scenario_name() {
    assert_eq!(link_label(&Some("IFA".to_string()), "GB", "FR", 0), "IFA");
    assert_eq!(link_label(&None, "GB", "NO", 12), "GB-NO-12");
    assert_eq!(link_label(&None, "N", "S", 0), "N-S-0");
}

#[test]
fn budget_schedules_must_hold_one_window_per_started_window() {
    // 100 periods at 48 per window need 3 windows (the last partial).
    assert_eq!(check_budget_windows("NO", "hydro", 100, 48, 3), Ok(()));
    assert_eq!(check_budget_windows("NO", "hydro", 96, 48, 2), Ok(()));
    assert_eq!(check_budget_windows("NO", "hydro", 0, 48, 0), Ok(()));
    assert_eq!(
        check_budget_windows("NO", "hydro", 100, 48, 2),
        Err(GridError::InvalidRunInputs {
            reason: "zone NO, technology hydro: 2 budget windows for a horizon needing 3 (window_periods = 48)"
                .to_string()
        })
    );
}

#[test]
fn single_zone_engines_need_exactly_one_zone() {
    assert_eq!(check_single_zone(1), Ok(()));
    assert_eq!(check_single_zone(0), Err(GridError::MultiZoneUnsupported { found: 0 }));
    assert_eq!(check_single_zone(3), Err(GridError::MultiZoneUnsupported { found: 3 }));
}

#[test]
fn capacity_factor_traces_must_cover_the_horizon() {
    assert_eq!(check_capacity_factor_trace("GB", "solar", 48, 0, 48, 0), Ok(()));
    let refusal = Err(GridError::InvalidRunInputs {
        reason: "zone GB: capacity-factor trace for solar does not cover the horizon".to_string(),
    });
    assert_eq!(check_capacity_factor_trace("GB", "solar", 47, 0, 48, 0), refusal);
    assert_eq!(check_capacity_factor_trace("GB", "solar", 48, 1800, 48, 0), refusal);
}
