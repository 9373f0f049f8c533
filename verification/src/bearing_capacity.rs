//! Profile aggregates consumed by bearing-capacity formulas: equivalent unit
//! weights down to a depth limit, effective surcharge at foundation level, the
//! effective unit weight of the zone under the foundation, and the soil
//! parameters that govern one analysis term. Units follow the crate's scaled
//! integers.
use vstd::prelude::*;

use crate::aggregate::{div_floor, div_round_half_up, rounded_div, MAX_DIMENSION};
use crate::enums::AnalysisTerm;
use crate::models::foundation::Foundation;
use crate::models::soil_profile::{
    dry0, lemma_prefix_depth_mono, prefix_depth, sat0, thick0, SoilProfile, MAX_UNIT_WEIGHT,
    WATER_UNIT_WEIGHT,
};

verus! {

/// Soil parameters used in bearing capacity calculations: the friction angle
/// in thousandths of a degree, cohesion in millionths of a tonne per square
/// metre, unit weight in thousandths of a tonne per cubic metre.
#[derive(Debug, Clone, Copy)]
pub struct SoilParams {
    pub friction_angle: i64,
    pub cohesion: i64,
    pub unit_weight: i64,
}

/// The part of layer `j` that lies above the depth limit: the whole layer when
/// its bottom is shallower, else the slab from its top down to the limit.
pub open spec fn eq_seg_t(layers: Seq<crate::models::soil_profile::SoilLayer>, limit: int, j: int) -> int {
    if prefix_depth(layers, j + 1) >= limit {
        limit - prefix_depth(layers, j)
    } else {
        thick0(layers[j])
    }
}

/// Thickness-weighted sum of dry unit weights over the first `i` layers, each
/// cut at the depth limit.
pub open spec fn eq_dry_sum(
    layers: Seq<crate::models::soil_profile::SoilLayer>,
    limit: int,
    i: int,
) -> int
    decreases i,
{
    if i <= 0 {
        0
    } else {
        eq_dry_sum(layers, limit, i - 1) + dry0(layers[i - 1]) * eq_seg_t(layers, limit, i - 1)
    }
}

/// Thickness-weighted sum of saturated unit weights over the first `i` layers,
/// each cut at the depth limit.
pub open spec fn eq_sat_sum(
    layers: Seq<crate::models::soil_profile::SoilLayer>,
    limit: int,
    i: int,
) -> int
    decreases i,
{
    if i <= 0 {
        0
    } else {
        eq_sat_sum(layers, limit, i - 1) + sat0(layers[i - 1]) * eq_seg_t(layers, limit, i - 1)
    }
}

/// The depth over which the equivalent weights average: the limit, or the
/// profile's full depth when it is shallower.
pub open spec fn eq_total_depth(p: SoilProfile, limit: int) -> int {
    let full = prefix_depth(p.layers@, p.layers@.len() as int);
    if limit < full {
        limit
    } else {
        full
    }
}

/// The equivalent dry unit weight of a profile down to a depth limit.
pub open spec fn spec_equivalent_dry(p: SoilProfile, limit: i64) -> int {
    rounded_div(
        eq_dry_sum(p.layers@, limit as int, p.layer_index_of(limit) + 1),
        eq_total_depth(p, limit as int),
    )
}

/// The equivalent saturated unit weight of a profile down to a depth limit.
pub open spec fn spec_equivalent_sat(p: SoilProfile, limit: i64) -> int {
    rounded_div(
        eq_sat_sum(p.layers@, limit as int, p.layer_index_of(limit) + 1),
        eq_total_depth(p, limit as int),
    )
}

/// Computes the equivalent dry and saturated unit weights
/// up to a specified depth_limit: each is the thickness-weighted average of
/// the layers above the limit, rounded to the scale.
pub fn compute_equivalent_unit_weights(profile: &SoilProfile, depth_limit: i64) -> (r: (i64, i64))
    requires
        profile.layers_wf(),
        profile.depths_computed(),
        profile.weights_wf(),
        0 < depth_limit <= MAX_DIMENSION,
    ensures
        r.0 as int == spec_equivalent_dry(*profile, depth_limit),
        r.1 as int == spec_equivalent_sat(*profile, depth_limit),
        0 <= r.0 <= MAX_UNIT_WEIGHT,
        0 <= r.1 <= MAX_UNIT_WEIGHT,
{
    let ghost layers = profile.layers@;
    let ghost li = profile.layer_index_of(depth_limit);
    let depth_index = profile.get_layer_index(depth_limit);

    let mut gamma_dry_sum: i64 = 0;
    let mut gamma_saturated_sum: i64 = 0;
    let mut prev_depth: i64 = 0;
    let mut i: usize = 0;
    while i < depth_index
        invariant
            profile.layers_wf(),
            profile.depths_computed(),
            profile.weights_wf(),
            0 < depth_limit <= MAX_DIMENSION,
            layers == profile.layers@,
            li == depth_index as int,
            depth_index < layers.len(),
            forall|j: int| 0 <= j < li ==> #[trigger] prefix_depth(layers, j + 1)
                < depth_limit as int,
            0 <= i <= depth_index,
            prev_depth as int == prefix_depth(layers, i as int),
            gamma_dry_sum as int == eq_dry_sum(layers, depth_limit as int, i as int),
            gamma_saturated_sum as int == eq_sat_sum(layers, depth_limit as int, i as int),
            0 <= gamma_dry_sum as int <= (MAX_UNIT_WEIGHT as int) * prefix_depth(layers, i as int),
            0 <= gamma_saturated_sum as int <= (MAX_UNIT_WEIGHT as int) * prefix_depth(
                layers,
                i as int,
            ),
        decreases depth_index - i,
    {
        let ghost previ = prefix_depth(layers, i as int);
        proof {
            lemma_prefix_depth_mono(layers, 0, i as int);
            lemma_prefix_depth_mono(layers, i + 1, layers.len() as int);
            assert(prefix_depth(layers, i + 1) < depth_limit as int);
        }
        let layer = profile.layers[i];
        let thickness = layer.thickness.unwrap();
        let dry = match layer.dry_unit_weight {
            Some(w) => w,
            None => 0,
        };
        let sat = match layer.saturated_unit_weight {
            Some(w) => w,
            None => 0,
        };
        proof {
            let tseg = thickness as int;
            assert(tseg == eq_seg_t(layers, depth_limit as int, i as int));
            assert(0 <= dry0(layers[i as int]) * tseg <= (MAX_UNIT_WEIGHT as int) * tseg)
                by (nonlinear_arith)
                requires
                    0 <= dry0(layers[i as int]) <= MAX_UNIT_WEIGHT as int,
                    tseg >= 0,
            ;
            assert(0 <= sat0(layers[i as int]) * tseg <= (MAX_UNIT_WEIGHT as int) * tseg)
                by (nonlinear_arith)
                requires
                    0 <= sat0(layers[i as int]) <= MAX_UNIT_WEIGHT as int,
                    tseg >= 0,
            ;
            assert((MAX_UNIT_WEIGHT as int) * previ + (MAX_UNIT_WEIGHT as int) * tseg == (
            MAX_UNIT_WEIGHT as int) * (previ + tseg)) by (nonlinear_arith);
            assert((MAX_UNIT_WEIGHT as int) * (previ + tseg) <= (MAX_UNIT_WEIGHT as int) * (
            MAX_DIMENSION as int)) by (nonlinear_arith)
                requires 0 <= previ + tseg <= MAX_DIMENSION as int;
        }
        gamma_dry_sum = gamma_dry_sum + dry * thickness;
        gamma_saturated_sum = gamma_saturated_sum + sat * thickness;
        prev_depth = prev_depth + thickness;
        i = i + 1;
    }
    // the stopping layer contributes only down to the limit when it reaches it
    proof {
        lemma_prefix_depth_mono(layers, 0, li);
        lemma_prefix_depth_mono(layers, li, li + 1);
        lemma_prefix_depth_mono(layers, li + 1, layers.len() as int);
        if li > 0 {
            assert(prefix_depth(layers, (li - 1) + 1) < depth_limit as int);
        }
        assert((MAX_UNIT_WEIGHT as int) * prefix_depth(layers, li) <= (MAX_UNIT_WEIGHT as int) * (
        MAX_DIMENSION as int)) by (nonlinear_arith)
            requires 0 <= prefix_depth(layers, li) <= MAX_DIMENSION as int;
    }
    let layer = profile.layers[depth_index];
    let layer_depth = layer.depth.unwrap();
    let thickness: i64 = if layer_depth >= depth_limit {
        depth_limit - prev_depth
    } else {
        layer.thickness.unwrap()
    };
    let dry = match layer.dry_unit_weight {
        Some(w) => w,
        None => 0,
    };
    let sat = match layer.saturated_unit_weight {
        Some(w) => w,
        None => 0,
    };
    proof {
        let tseg = thickness as int;
        assert(tseg == eq_seg_t(layers, depth_limit as int, li));
        assert(0 <= dry0(layers[li]) * tseg <= (MAX_UNIT_WEIGHT as int) * tseg)
            by (nonlinear_arith)
            requires
                0 <= dry0(layers[li]) <= MAX_UNIT_WEIGHT as int,
                tseg >= 0,
        ;
        assert(0 <= sat0(layers[li]) * tseg <= (MAX_UNIT_WEIGHT as int) * tseg)
            by (nonlinear_arith)
            requires
                0 <= sat0(layers[li]) <= MAX_UNIT_WEIGHT as int,
                tseg >= 0,
        ;
        assert((MAX_UNIT_WEIGHT as int) * tseg <= (MAX_UNIT_WEIGHT as int) * (
        MAX_DIMENSION as int)) by (nonlinear_arith)
            requires 0 <= tseg <= MAX_DIMENSION as int;
    }
    gamma_dry_sum = gamma_dry_sum + dry * thickness;
    gamma_saturated_sum = gamma_saturated_sum + sat * thickness;

    let last_depth = profile.layers[profile.layers.len() - 1].depth.unwrap();
    let total_depth: i64 = if depth_limit < last_depth {
        depth_limit
    } else {
        last_depth
    };
    proof {
        lemma_prefix_depth_mono(layers, 0, 1);
        lemma_prefix_depth_mono(layers, 1, layers.len() as int);
        assert(thick0(layers[0]) > 0);
        assert(total_depth as int == eq_total_depth(*profile, depth_limit as int));
        assert(total_depth > 0);
        lemma_equivalent_weight_bounds(*profile, depth_limit);
    }
    let gamma_dry = div_round_half_up(gamma_dry_sum, total_depth);
    let gamma_saturated = div_round_half_up(gamma_saturated_sum, total_depth);
    (gamma_dry, gamma_saturated)
}

/// The groundwater depth one analysis term assumes: the measured one for the
/// short term, the bottom of the influence zone for the long term.
pub open spec fn term_gwt(p: SoilProfile, df: int, width: int, term: AnalysisTerm) -> int {
    match term {
        AnalysisTerm::Short => p.gwl(),
        AnalysisTerm::Long => df + width,
    }
}

/// Effective surcharge at foundation level: equivalent dry weight above the
/// water table, equivalent submerged weight below it.
pub open spec fn spec_effective_surcharge(
    p: SoilProfile,
    df: int,
    width: int,
    term: AnalysisTerm,
    limit: i64,
) -> int {
    let gd = spec_equivalent_dry(p, limit);
    let ge = spec_equivalent_sat(p, limit) - WATER_UNIT_WEIGHT as int;
    let gwt = term_gwt(p, df, width, term);
    if gwt <= df {
        gd * gwt + ge * (df - gwt)
    } else {
        gd * df
    }
}

/// Calculates the effective surcharge (overburden pressure) at the foundation
/// level: the equivalent unit weights down to the foundation depth, applied
/// dry above the governing groundwater depth and submerged below it.
///
/// # Arguments
/// * `soil_profile` - SoilProfile with unit weights and groundwater depth.
/// * `foundation_data` - Foundation data containing foundation depth and width.
/// * `term` - Load duration term (`Short` or `Long`).
///
/// # Returns
/// * Effective vertical stress at foundation level.
pub fn calc_effective_surcharge(
    soil_profile: &SoilProfile,
    foundation_data: &Foundation,
    term: AnalysisTerm,
) -> (r: i64)
    requires
        soil_profile.layers_wf(),
        soil_profile.depths_computed(),
        soil_profile.weights_wf(),
        foundation_data.foundation_depth matches Some(df) && 0 < df <= MAX_DIMENSION,
        foundation_data.effective_width matches Some(w) && 0 <= w <= MAX_DIMENSION,
    ensures
        r as int == spec_effective_surcharge(
            *soil_profile,
            foundation_data.foundation_depth->0 as int,
            foundation_data.effective_width->0 as int,
            term,
            foundation_data.foundation_depth->0,
        ),
{
    let df = foundation_data.foundation_depth.unwrap();
    let width = foundation_data.effective_width.unwrap();

    let (gamma_dry, gamma_saturated) = compute_equivalent_unit_weights(soil_profile, df);
    let gamma_effective = gamma_saturated - WATER_UNIT_WEIGHT;

    let gwt: i64 = match term {
        AnalysisTerm::Short => soil_profile.ground_water_level.unwrap(),
        AnalysisTerm::Long => df + width,
    };
    proof {
        lemma_equivalent_weight_bounds(*soil_profile, df);
        let gd = gamma_dry as int;
        let ge = gamma_effective as int;
        assert(0 <= gd * gwt <= (MAX_UNIT_WEIGHT as int) * (2 * (MAX_DIMENSION as int)))
            by (nonlinear_arith)
            requires
                0 <= gd <= MAX_UNIT_WEIGHT as int,
                0 <= gwt <= 2 * (MAX_DIMENSION as int),
        ;
        if gwt <= df {
            assert(-((MAX_UNIT_WEIGHT as int) * (2 * (MAX_DIMENSION as int))) <= ge * (df - gwt)
                <= (MAX_UNIT_WEIGHT as int) * (2 * (MAX_DIMENSION as int))) by (nonlinear_arith)
                requires
                    -(2 * MAX_UNIT_WEIGHT as int) <= ge <= 2 * MAX_UNIT_WEIGHT as int,
                    0 <= df - gwt <= MAX_DIMENSION as int,
            ;
        }
        assert(0 <= gd * df <= (MAX_UNIT_WEIGHT as int) * (2 * (MAX_DIMENSION as int)))
            by (nonlinear_arith)
            requires
                0 <= gd <= 2 * MAX_UNIT_WEIGHT as int,
                0 <= df <= MAX_DIMENSION as int,
        ;
    }
    if gwt <= df {
        gamma_dry * gwt + gamma_effective * (df - gwt)
    } else {
        gamma_dry * df
    }
}

/// Effective unit weight of the zone between the foundation level and one
/// foundation width below it: submerged when the water table is above the
/// zone, dry when below it, and linearly interpolated when it cuts the zone.
/// The interpolation quotient rounds toward negative infinity.
pub open spec fn spec_effective_unit_weight(
    p: SoilProfile,
    df: int,
    width: int,
    term: AnalysisTerm,
    limit: i64,
) -> int {
    let gd = spec_equivalent_dry(p, limit);
    let ge = spec_equivalent_sat(p, limit) - WATER_UNIT_WEIGHT as int;
    let gwt = term_gwt(p, df, width, term);
    if gwt <= df {
        ge
    } else if gwt < df + width {
        let d = df + width - gwt;
        ge + (d * (gd - ge)) / width
    } else {
        gd
    }
}

/// Calculates the effective unit weight between the foundation level and
/// `Df + B`, depending on groundwater position and load duration.
///
/// # Arguments
/// * `soil_profile` - The soil profile with layers and water level.
/// * `foundation` - The foundation depth and width.
/// * `term` - Short-term or long-term condition.
///
/// # Returns
/// * Effective unit weight.
pub fn calc_effective_unit_weight(
    soil_profile: &SoilProfile,
    foundation: &Foundation,
    term: AnalysisTerm,
) -> (r: i64)
    requires
        soil_profile.layers_wf(),
        soil_profile.depths_computed(),
        soil_profile.weights_wf(),
        foundation.foundation_depth matches Some(df) && 0 < df <= MAX_DIMENSION,
        foundation.effective_width matches Some(w) && 0 < w <= MAX_DIMENSION,
    ensures
        r as int == spec_effective_unit_weight(
            *soil_profile,
            foundation.foundation_depth->0 as int,
            foundation.effective_width->0 as int,
            term,
            foundation.foundation_depth->0,
        ),
{
    let df = foundation.foundation_depth.unwrap();
    let width = foundation.effective_width.unwrap();

    let (gamma_dry, gamma_saturated) = compute_equivalent_unit_weights(soil_profile, df);
    let gamma_effective = gamma_saturated - WATER_UNIT_WEIGHT;

    let gwt: i64 = match term {
        AnalysisTerm::Short => soil_profile.ground_water_level.unwrap(),
        AnalysisTerm::Long => df + width,
    };
    proof {
        lemma_equivalent_weight_bounds(*soil_profile, df);
    }
    if gwt <= df {
        // Entire zone is below groundwater
        gamma_effective
    } else if gwt < df + width {
        // Partially submerged zone
        let d = df + width - gwt;
        proof {
            let di = d as int;
            let diff = gamma_dry as int - gamma_effective as int;
            assert(-((4 * MAX_UNIT_WEIGHT as int) * (MAX_DIMENSION as int)) <= di * diff <= (4
                * MAX_UNIT_WEIGHT as int) * (MAX_DIMENSION as int)) by (nonlinear_arith)
                requires
                    0 <= di <= MAX_DIMENSION as int,
                    -(4 * MAX_UNIT_WEIGHT as int) <= diff <= 4 * MAX_UNIT_WEIGHT as int,
            ;
            vstd::arithmetic::div_mod::lemma_div_is_ordered(
                -((4 * MAX_UNIT_WEIGHT as int) * (MAX_DIMENSION as int)),
                di * diff,
                width as int,
            );
            vstd::arithmetic::div_mod::lemma_div_is_ordered(
                di * diff,
                (4 * MAX_UNIT_WEIGHT as int) * (MAX_DIMENSION as int),
                width as int,
            );
        }
        gamma_effective + div_floor(d * (gamma_dry - gamma_effective), width)
    } else {
        // Entire zone is above groundwater
        gamma_dry
    }
}

/// Retrieves the soil parameters (friction angle, cohesion, unit weight) for a
/// given foundation depth and term. Short-term analyses read the undrained
/// parameters of the layer at the foundation depth, long-term ones the
/// effective parameters; the unit weight comes from `calc_effective_unit_weight`.
///
/// # Arguments
/// * `soil_profile` - The soil profile with layers and water level.
/// * `foundation` - The foundation depth and width.
/// * `term` - Short-term or long-term condition.
///
/// # Returns
/// * `SoilParams`: soil parameters for the foundation depth and term.
pub fn get_soil_params(
    soil_profile: &SoilProfile,
    foundation: &Foundation,
    term: AnalysisTerm,
) -> (r: SoilParams)
    requires
        soil_profile.layers_wf(),
        soil_profile.depths_computed(),
        soil_profile.weights_wf(),
        foundation.foundation_depth matches Some(df) && 0 < df <= MAX_DIMENSION,
        foundation.effective_width matches Some(w) && 0 < w <= MAX_DIMENSION,
        ({
            let l = soil_profile.layers@[soil_profile.layer_index_of(
                foundation.foundation_depth->0,
            )];
            match term {
                AnalysisTerm::Short => l.phi_u is Some && l.cu is Some,
                AnalysisTerm::Long => l.phi_prime is Some && l.c_prime is Some,
            }
        }),
    ensures
        ({
            let l = soil_profile.layers@[soil_profile.layer_index_of(
                foundation.foundation_depth->0,
            )];
            match term {
                AnalysisTerm::Short => r.friction_angle == l.phi_u->0 && r.cohesion == l.cu->0,
                AnalysisTerm::Long => r.friction_angle == l.phi_prime->0 && r.cohesion
                    == l.c_prime->0,
            }
        }),
        r.unit_weight as int == spec_effective_unit_weight(
            *soil_profile,
            foundation.foundation_depth->0 as int,
            foundation.effective_width->0 as int,
            term,
            foundation.foundation_depth->0,
        ),
{
    let depth = foundation.foundation_depth.unwrap();
    let layer = soil_profile.get_layer_at_depth(depth);

    let (friction_angle, cohesion) = match term {
        AnalysisTerm::Short => (layer.phi_u.unwrap(), layer.cu.unwrap()),
        AnalysisTerm::Long => (layer.phi_prime.unwrap(), layer.c_prime.unwrap()),
    };

    let unit_weight = calc_effective_unit_weight(soil_profile, foundation, term);

    SoilParams { friction_angle, cohesion, unit_weight }
}

/// Over layers that end above the limit, the cut-at-limit weighted sums are
/// plain thickness-weighted sums, bounded by the weight cap times the depth
/// covered.
proof fn lemma_eq_sum_prefix(layers: Seq<crate::models::soil_profile::SoilLayer>, limit: int, i: int)
    requires
        forall|k: int| 0 <= k < layers.len() ==> {
            let l = #[trigger] layers[k];
            &&& l.thickness is Some && thick0(l) > 0
            &&& 0 <= dry0(l) <= MAX_UNIT_WEIGHT as int
            &&& 0 <= sat0(l) <= MAX_UNIT_WEIGHT as int
        },
        0 <= i <= layers.len(),
        forall|j: int| 0 <= j < i ==> #[trigger] prefix_depth(layers, j + 1) < limit,
    ensures
        0 <= eq_dry_sum(layers, limit, i) <= (MAX_UNIT_WEIGHT as int) * prefix_depth(layers, i),
        0 <= eq_sat_sum(layers, limit, i) <= (MAX_UNIT_WEIGHT as int) * prefix_depth(layers, i),
    decreases i,
{
    if i > 0 {
        lemma_eq_sum_prefix(layers, limit, i - 1);
        let t = thick0(layers[i - 1]);
        assert(eq_seg_t(layers, limit, i - 1) == t);
        assert(0 <= dry0(layers[i - 1]) * t <= (MAX_UNIT_WEIGHT as int) * t) by (nonlinear_arith)
            requires 0 <= dry0(layers[i - 1]) <= MAX_UNIT_WEIGHT as int, t >= 0;
        assert(0 <= sat0(layers[i - 1]) * t <= (MAX_UNIT_WEIGHT as int) * t) by (nonlinear_arith)
            requires 0 <= sat0(layers[i - 1]) <= MAX_UNIT_WEIGHT as int, t >= 0;
        assert((MAX_UNIT_WEIGHT as int) * prefix_depth(layers, i - 1) + (MAX_UNIT_WEIGHT as int)
            * t == (MAX_UNIT_WEIGHT as int) * (prefix_depth(layers, i - 1) + t))
            by (nonlinear_arith);
    }
}

/// The equivalent unit weights are thickness-weighted averages of in-range
/// weights over exactly the averaging depth, so they lie within the admissible
/// weight range.
proof fn lemma_equivalent_weight_bounds(p: SoilProfile, limit: i64)
    requires
        p.layers_wf(),
        p.depths_computed(),
        p.weights_wf(),
        0 < limit <= MAX_DIMENSION,
    ensures
        0 <= spec_equivalent_dry(p, limit) <= MAX_UNIT_WEIGHT as int,
        0 <= spec_equivalent_sat(p, limit) <= MAX_UNIT_WEIGHT as int,
{
    let layers = p.layers@;
    let li = p.layer_index_of(limit);
    crate::aggregate::lemma_sample_index_props(p.depth_keys(), limit);
    assert forall|j: int| 0 <= j < li implies #[trigger] prefix_depth(layers, j + 1)
        < limit as int by {
        assert(p.depth_keys()[j] == layers[j].depth->0);
        assert(p.depth_keys()[j] < limit);
    }
    lemma_prefix_depth_mono(layers, 0, li);
    lemma_prefix_depth_mono(layers, li, li + 1);
    lemma_prefix_depth_mono(layers, li + 1, layers.len() as int);
    let total = eq_total_depth(p, limit as int);
    let w = MAX_UNIT_WEIGHT as int;
    lemma_eq_sum_prefix(layers, limit as int, li);
    let ds = eq_dry_sum(layers, limit as int, li + 1);
    let ss = eq_sat_sum(layers, limit as int, li + 1);
    // the weighted sums cover exactly the averaging depth
    if prefix_depth(layers, li + 1) >= limit as int {
        assert(eq_seg_t(layers, limit as int, li) == limit as int - prefix_depth(layers, li));
        assert(prefix_depth(layers, li) < limit as int || li == 0);
        assert(total == limit as int);
        let t = limit as int - prefix_depth(layers, li);
        assert(0 <= dry0(layers[li]) * t <= w * t) by (nonlinear_arith)
            requires 0 <= dry0(layers[li]) <= w, t >= 0;
        assert(0 <= sat0(layers[li]) * t <= w * t) by (nonlinear_arith)
            requires 0 <= sat0(layers[li]) <= w, t >= 0;
        assert(w * prefix_depth(layers, li) + w * t == w * (prefix_depth(layers, li) + t))
            by (nonlinear_arith);
        assert(ds <= w * total && ss <= w * total && ds >= 0 && ss >= 0);
    } else {
        // the query falls beyond the profile: the last layer keeps its full
        // thickness and the averaging depth is the profile's own depth
        assert(li == layers.len() - 1);
        assert(prefix_depth(layers, li + 1) < limit as int);
        lemma_eq_sum_prefix(layers, limit as int, li + 1);
        assert(total == prefix_depth(layers, li + 1));
        assert(ds <= w * total && ss <= w * total && ds >= 0 && ss >= 0);
    }
    assert(total > 0);
    vstd::arithmetic::div_mod::lemma_div_multiples_vanish_fancy(w, total, 2 * total);
    assert(2 * ds + total <= (2 * total) * w + total) by (nonlinear_arith)
        requires ds <= w * total, total > 0;
    vstd::arithmetic::div_mod::lemma_div_is_ordered(2 * ds + total, (2 * total) * w + total, 2 * total);
    assert(2 * ss + total <= (2 * total) * w + total) by (nonlinear_arith)
        requires ss <= w * total, total > 0;
    vstd::arithmetic::div_mod::lemma_div_is_ordered(2 * ss + total, (2 * total) * w + total, 2 * total);
    vstd::arithmetic::div_mod::lemma_div_pos_is_pos(2 * ds + total, 2 * total);
    vstd::arithmetic::div_mod::lemma_div_pos_is_pos(2 * ss + total, 2 * total);
}

} // verus!
