//! Soil (subgrade reaction) coefficient estimates. Values keep the scale of
//! their inputs: thousandths of the base unit.
use vstd::prelude::*;

use crate::aggregate::{div_round_half_up, rounded_div, MAX_VALUE};

verus! {

/// The coefficient reported when the settlement is zero or negative, avoiding
/// a division by zero.
pub const SETTLEMENT_FALLBACK_COEFFICIENT: i64 = 999_999_000;

/// Calculates the soil coefficient based on settlement and foundation load:
/// one hundred times the load per unit settlement, rounded to the scale.
/// Returns a high fallback value if settlement is zero or negative to avoid
/// division by zero.
///
/// # Arguments
///
/// * `settlement` - The settlement of the foundation.
/// * `vertical_load` - The load on the foundation.
///
/// # Returns
/// * The soil coefficient.
pub fn calc_by_settlement(settlement: i64, vertical_load: i64) -> (r: i64)
    requires
        0 <= vertical_load <= MAX_VALUE,
    ensures
        settlement <= 0 ==> r == SETTLEMENT_FALLBACK_COEFFICIENT,
        settlement > 0 ==> r as int == rounded_div(100_000 * vertical_load, settlement as int),
{
    if settlement <= 0 {
        return SETTLEMENT_FALLBACK_COEFFICIENT;
    }
    div_round_half_up(100_000 * vertical_load, settlement)
}

/// Calculates the soil coefficient based on bearing capacity, using a factor
/// of 400 as specified in empirical design practice.
///
/// # Arguments
///
/// * `bearing_capacity` - The bearing capacity of the soil.
///
/// # Returns
/// * The soil coefficient.
pub fn calc_by_bearing_capacity(bearing_capacity: i64) -> (r: i64)
    requires
        -MAX_VALUE <= bearing_capacity <= MAX_VALUE,
    ensures
        r == 400 * bearing_capacity,
{
    400 * bearing_capacity
}

} // verus!
