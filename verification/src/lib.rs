//! Verified core of the grid-adequacy engine: the integer and string
//! logic of dispatch ordering, heating-mix lattices, border grouping,
//! rolling LP windows, sweep grids and cost-governance checks.
use vstd::prelude::*;

pub mod attribution;
pub mod costs;
pub mod evaluate;
pub mod error;
pub mod heating_mix;
pub mod lp;
pub mod merit;
pub mod multizone;
pub mod policy;
pub mod ranking;
pub mod sweep;
pub mod text;

pub use attribution::{Band, check_attribution_scope};
pub use costs::{
    CostFraming, CostGovernance, CostedCoverage, CostedLink, GenerationRowFlags, LinkRowFlags, StoreVintage,
    cost_governance, costed_coverage, ensure_inputs_publishable, ensure_publishable, is_leap_year,
    periods_in_year, q9_preconditions,
};
pub use error::GridError;
pub use heating_mix::{MAX_SIMPLEX_DENOMINATOR, MixShares, simplex_mixes};
pub use lp::{LP_VARIABLE_CAP, LpObjective, LpShape, LpWindow, LpZoneShape, check_lp_size, estimate_lp_variables, rolling_windows};
pub use merit::{
    FLOW_MERIT_ORDER, MERIT_ORDER, dispatch_stack_order, flow_ladder_position, flow_stack_order, merit_position,
};
pub use multizone::{
    Border, check_budget_windows, check_capacity_factor_trace, check_single_zone, group_borders, link_label,
};
pub use sweep::{
    Execution, SweepTarget, batch_years, check_dimension_count, check_sweep_target, check_zone_group, is_wind,
    paths_for_year, sweep_grid, year_horizon,
};
pub use policy::{PolicyContract, RuleBased, dispatch_sequence, store_label};

verus! {

} // verus!
