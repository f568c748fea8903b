use grid_adequacy::lp::{LpObjective, LpShape, LpWindow, LpZoneShape};
use grid_adequacy::{GridError, LP_VARIABLE_CAP, check_lp_size, estimate_lp_variables, rolling_windows};

fn zone(dispatchable_entries: usize, stores: usize) -> LpZoneShape {
    LpZoneShape { dispatchable_entries, stores }
}

#[test]
fn single_zone_estimate_counts_gen_store_and_balance_variables() {
    // 2 gen + 3×1 store + unserved + curtailment = 7 per period.
    let shape = LpShape { zones: vec![zone(2, 1)], links: 3 };
    assert_eq!(estimate_lp_variables(&shape, 48), 7 * 48);
}

#[test]
fn links_count_only_when_more_than_one_zone() {
    // (1 + 0 + 2) + (0 + 6 + 2) + 2×2 links = 15 per period.
    let shape = LpShape { zones: vec![zone(1, 0), zone(0, 2)], links: 2 };
    assert_eq!(estimate_lp_variables(&shape, 10), 150);
    let empty = LpShape { zones: Vec::new(), links: 4 };
    assert_eq!(estimate_lp_variables(&empty, 10), 0);
}

#[test]
fn the_estimate_saturates_instead_of_overflowing() {
    let shape = LpShape { zones: vec![zone(1_000_000_000, 0)], links: 0 };
    assert_eq!(estimate_lp_variables(&shape, usize::MAX), u64::MAX);
}

#[test]
fn oversized_problems_are_refused_before_they_are_built() {
    // 7 per period × 17,520 periods = 122,640: within the cap.
    let small = LpShape { zones: vec![zone(2, 1)], links: 0 };
    assert_eq!(check_lp_size(&small, 17_520), Ok(122_640));
    // 7 × 400,000 = 2,800,000 > 2,500,000.
    assert_eq!(
        check_lp_size(&small, 400_000),
        Err(GridError::LpProblemTooLarge {
            periods: 400_000,
            zones: 1,
            estimated_variables: 2_800_000,
            cap: LP_VARIABLE_CAP,
        })
    );
    // Exactly the cap is accepted.
    let exact = LpShape { zones: vec![zone(3, 0)], links: 0 };
    assert_eq!(check_lp_size(&exact, 500_000), Ok(2_500_000));
}

#[test]
fn rolling_plan_commits_each_period_once() {
    let windows = rolling_windows(10, 4, 3).unwrap();
    assert_eq!(
        windows,
        vec![
            LpWindow { from: 0, len: 4, commit: 3 },
            LpWindow { from: 3, len: 4, commit: 3 },
            LpWindow { from: 6, len: 4, commit: 4 },
        ]
    );
    let mut committed = vec![0u32; 10];
    for w in &windows {
        for t in w.from..w.from + w.commit {
            committed[t] += 1;
        }
    }
    assert!(committed.iter().all(|&c| c == 1));
}

#[test]
fn a_window_covering_the_horizon_is_the_whole_horizon_solve() {
    assert_eq!(rolling_windows(5, 8, 2).unwrap(), vec![LpWindow { from: 0, len: 5, commit: 5 }]);
    assert_eq!(
        rolling_windows(7, 3, 3).unwrap(),
        vec![
            LpWindow { from: 0, len: 3, commit: 3 },
            LpWindow { from: 3, len: 3, commit: 3 },
            LpWindow { from: 6, len: 1, commit: 1 },
        ]
    );
}

#[test]
fn rolling_plan_rejects_bad_bounds_and_an_empty_horizon() {
    assert_eq!(
        rolling_windows(10, 4, 0),
        Err(GridError::InvalidRunInputs {
            reason: "rolling-horizon LP needs 1 <= commit_periods <= window_periods (got window 4, commit 0)".to_string()
        })
    );
    assert_eq!(
        rolling_windows(10, 2, 3),
        Err(GridError::InvalidRunInputs {
            reason: "rolling-horizon LP needs 1 <= commit_periods <= window_periods (got window 2, commit 3)".to_string()
        })
    );
    assert_eq!(
        rolling_windows(0, 4, 2),
        Err(GridError::InvalidRunInputs {
            reason: "a rolling LP run needs at least one zone and one period".to_string()
        })
    );
}

#[test]
fn objectives_are_distinct() {
    assert_ne!(LpObjective::MinUnserved, LpObjective::MinCurtailment);
}
