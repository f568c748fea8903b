use vstd::prelude::*;

verus! {

/// The library's error. Every fallible public function returns one of
/// these, with the reason spelled out; none panics.
#[derive(Debug, Clone, PartialEq, Eq)]
pub enum GridError {
    /// The scenario (or a request built on it) is not well formed.
    InvalidScenario { reason: String },
    /// The run inputs (or the run request) are not usable.
    InvalidRunInputs { reason: String },
    /// The perfect-foresight LP would exceed the decision-variable cap;
    /// it is refused before it is built.
    LpProblemTooLarge { periods: usize, zones: usize, estimated_variables: u64, cap: u64 },
    /// A feature outside what the engine implements.
    UnsupportedFeature { feature: String },
    /// A single-zone run was handed a scenario with `found` zones.
    MultiZoneUnsupported { found: usize },
    /// A dispatchable technology the merit ladder does not name.
    UnknownThermalTechnology { tech: String },
    /// The cost inputs cannot be costed as asked.
    InvalidCostInputs { reason: String },
    /// A result that consumed quarantined reference rows or carries an
    /// unmet publication gate: computed, but refused for publication.
    NonQuotableResult { reason: String },
}

/// `e` refuses the scenario with exactly `reason`.
pub open spec fn scenario_refusal(e: GridError, reason: Seq<char>) -> bool {
    e matches GridError::InvalidScenario { reason: r } && r@ == reason
}

/// `e` refuses the run inputs with exactly `reason`.
pub open spec fn run_inputs_refusal(e: GridError, reason: Seq<char>) -> bool {
    e matches GridError::InvalidRunInputs { reason: r } && r@ == reason
}

/// `e` refuses an unsupported feature, described exactly as `feature`.
pub open spec fn unsupported_refusal(e: GridError, feature: Seq<char>) -> bool {
    e matches GridError::UnsupportedFeature { feature: f } && f@ == feature
}

/// `e` refuses the cost inputs with exactly `reason`.
pub open spec fn cost_inputs_refusal(e: GridError, reason: Seq<char>) -> bool {
    e matches GridError::InvalidCostInputs { reason: r } && r@ == reason
}

} // verus!
