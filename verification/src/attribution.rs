//! Storage attribution by timescale band: the band vocabulary and the
//! scope the attribution is defined for.
use vstd::prelude::*;
use vstd::string::StringExecFns;

use crate::error::{GridError, unsupported_refusal};
use crate::text::{append_decimal, decimal};

verus! {

/// The four timescale bands, slowest-cutoff last.
#[derive(Debug, Clone, Copy, PartialEq, Eq)]
pub enum Band {
    /// Variation faster than the diurnal window (within-day cycling).
    Diurnal,
    /// Diurnal-to-synoptic variation (weather-system passage).
    Synoptic,
    /// Synoptic-to-seasonal variation (the annual cycle).
    Seasonal,
    /// Slower than seasonal (year-to-year weather), including the mean.
    InterAnnual,
}

/// The stable lower-case output name of a band.
pub open spec fn band_name(band: Band) -> Seq<char> {
    match band {
        Band::Diurnal => "diurnal"@,
        Band::Synoptic => "synoptic"@,
        Band::Seasonal => "seasonal"@,
        Band::InterAnnual => "inter_annual"@,
    }
}

impl Band {
    /// Stable lower-case name for outputs.
    pub fn as_str(self) -> (name: &'static str)
        ensures
            name@ == band_name(self),
    {
        match self {
            Band::Diurnal => "diurnal",
            Band::Synoptic => "synoptic",
            Band::Seasonal => "seasonal",
            Band::InterAnnual => "inter_annual",
        }
    }
}

/// Why attribution refuses a fleet with a dispatchable stack; `tech` is
/// its first dispatchable entry.
pub open spec fn dispatchable_stack_feature(tech: Seq<char>) -> Seq<char> {
    "storage attribution on a fleet with a dispatchable stack ("@ + tech
        + "): storage would face the post-stack deficit, not the residual load, and the decomposition-of-residual attribution would not reconcile — attribution is defined for all-must-take (wind+solar+storage) fleets"@
}

/// Why attribution refuses anything but the single store of the zone.
pub open spec fn portfolio_feature(stores: usize, store_index: usize) -> Seq<char> {
    "storage attribution on a portfolio ("@ + decimal(stores as nat) + " stores, designated index "@ + decimal(
        store_index as nat,
    ) + "): attribution is defined for single-store scenarios"@
}

/// The scope of storage attribution by band: a single zone, whose fleet
/// is all must-take (no entry without a capacity-factor trace;
/// `dispatchable_techs` lists those entries in fleet order) and whose
/// portfolio is one store, designated by index 0. Refused in that order.
pub fn check_attribution_scope(
    zone_count: usize,
    dispatchable_techs: &Vec<String>,
    stores: usize,
    store_index: usize,
) -> (r: Result<(), GridError>)
    ensures
        r is Ok <==> zone_count == 1 && dispatchable_techs.len() == 0 && stores == 1 && store_index == 0,
        r matches Err(e) ==> if zone_count != 1 {
            e == (GridError::MultiZoneUnsupported { found: zone_count })
        } else if dispatchable_techs.len() > 0 {
            unsupported_refusal(e, dispatchable_stack_feature(dispatchable_techs@[0]@))
        } else {
            unsupported_refusal(e, portfolio_feature(stores, store_index))
        },
{
    if zone_count != 1 {
        return Err(GridError::MultiZoneUnsupported { found: zone_count });
    }
    if dispatchable_techs.len() > 0 {
        let mut feature = String::from_str("storage attribution on a fleet with a dispatchable stack (");
        feature.append(dispatchable_techs[0].as_str());
        feature.append(
            "): storage would face the post-stack deficit, not the residual load, and the decomposition-of-residual attribution would not reconcile — attribution is defined for all-must-take (wind+solar+storage) fleets",
        );
        return Err(GridError::UnsupportedFeature { feature });
    }
    if stores != 1 || store_index != 0 {
        let mut feature = String::from_str("storage attribution on a portfolio (");
        append_decimal(&mut feature, stores as u64);
        feature.append(" stores, designated index ");
        append_decimal(&mut feature, store_index as u64);
        feature.append("): attribution is defined for single-store scenarios");
        return Err(GridError::UnsupportedFeature { feature });
    }
    Ok(())
}

} // verus!
