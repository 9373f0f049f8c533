//! Layered-soil stratigraphy: cumulative depths and total / effective vertical
//! stress, over scaled-integer quantities (lengths in thousandths of a metre,
//! unit weights in thousandths of a tonne per cubic metre, stresses in
//! millionths of a tonne per square metre).
use vstd::prelude::*;

use crate::aggregate::{
    sample_index, sample_index_from, lemma_sample_index_props, lemma_sample_skip, MAX_DIMENSION,
};
use crate::text::str_eq;
use crate::validation::{
    field_error, field_ok, field_views, first_field_error, lemma_first_error_skip, validate_field,
    ValidationError,
};

verus! {

/// Largest accepted scaled unit weight.
pub const MAX_UNIT_WEIGHT: i64 = 100_000;

/// Unit weight of water, in thousandths of a tonne per cubic metre.
pub const WATER_UNIT_WEIGHT: i64 = 981;

/// Represents a single soil layer in a geotechnical engineering model.
///
/// This struct contains essential soil properties used for analysis, such as
/// shear strength, stiffness, and classification parameters. The parameters are
/// divided into **total stress** (undrained) and **effective stress** (drained)
/// conditions for comprehensive modeling. All values are scaled integers in
/// thousandths of the unit named below.
#[derive(Debug, Clone, Copy)]
pub struct SoilLayer {
    pub thickness: Option<i64>,                 // meter
    pub natural_unit_weight: Option<i64>,       // t/m³
    pub dry_unit_weight: Option<i64>,           // t/m³
    pub saturated_unit_weight: Option<i64>,     // t/m³
    pub depth: Option<i64>,                     // meter
    pub center: Option<i64>,                    // meter
    pub damping_ratio: Option<i64>,             // percentage
    pub fine_content: Option<i64>,              // percentage
    pub liquid_limit: Option<i64>,              // percentage
    pub plastic_limit: Option<i64>,             // percentage
    pub plasticity_index: Option<i64>,          // percentage
    pub cu: Option<i64>,                        // Undrained shear strength in t/m²
    pub c_prime: Option<i64>,                   // Effective cohesion in t/m²
    pub phi_u: Option<i64>,                     // Undrained internal friction angle in degrees
    pub phi_prime: Option<i64>,                 // Effective internal friction angle in degrees
    pub water_content: Option<i64>,             // percentage
    pub poissons_ratio: Option<i64>,            // Poisson's ratio
    pub elastic_modulus: Option<i64>,           // t/m²
    pub void_ratio: Option<i64>,                // Void ratio
    pub recompression_index: Option<i64>,       // Recompression index
    pub compression_index: Option<i64>,         // Compression index
    pub preconsolidation_pressure: Option<i64>, // t/m²
    pub mv: Option<i64>,                        // volume compressibility coefficient in m²/t
    pub shear_wave_velocity: Option<i64>,       // m/s
}

/// A layer with every field absent.
pub open spec fn empty_soil_layer() -> SoilLayer {
    SoilLayer {
        thickness: None,
        natural_unit_weight: None,
        dry_unit_weight: None,
        saturated_unit_weight: None,
        depth: None,
        center: None,
        damping_ratio: None,
        fine_content: None,
        liquid_limit: None,
        plastic_limit: None,
        plasticity_index: None,
        cu: None,
        c_prime: None,
        phi_u: None,
        phi_prime: None,
        water_content: None,
        poissons_ratio: None,
        elastic_modulus: None,
        void_ratio: None,
        recompression_index: None,
        compression_index: None,
        preconsolidation_pressure: None,
        mv: None,
        shear_wave_velocity: None,
    }
}

impl Default for SoilLayer {
    fn default() -> (r: SoilLayer)
        ensures
            r == empty_soil_layer(),
    {
        SoilLayer {
            thickness: None,
            natural_unit_weight: None,
            dry_unit_weight: None,
            saturated_unit_weight: None,
            depth: None,
            center: None,
            damping_ratio: None,
            fine_content: None,
            liquid_limit: None,
            plastic_limit: None,
            plasticity_index: None,
            cu: None,
            c_prime: None,
            phi_u: None,
            phi_prime: None,
            water_content: None,
            poissons_ratio: None,
            elastic_modulus: None,
            void_ratio: None,
            recompression_index: None,
            compression_index: None,
            preconsolidation_pressure: None,
            mv: None,
            shear_wave_velocity: None,
        }
    }
}

impl SoilLayer {
    /// A layer of the given thickness with every other field absent.
    pub fn new(thickness: i64) -> (r: SoilLayer)
        ensures
            r == (SoilLayer { thickness: Some(thickness), ..empty_soil_layer() }),
    {
        SoilLayer { thickness: Some(thickness), ..Default::default() }
    }
}

/// The error that validating one named field of a `SoilLayer` reports. Bounds
/// are in thousandths of the field's unit.
pub open spec fn soil_layer_field_error(l: SoilLayer, f: Seq<char>) -> Option<
    (Seq<char>, Seq<char>),
> {
    if f == "thickness"@ {
        field_error(f, l.thickness, Some(1), None, "soil_profile"@)
    } else if f == "natural_unit_weight"@ {
        field_error(f, l.natural_unit_weight, Some(100), Some(10000), "soil_profile"@)
    } else if f == "dry_unit_weight"@ {
        field_error(f, l.dry_unit_weight, Some(100), Some(10000), "soil_profile"@)
    } else if f == "saturated_unit_weight"@ {
        field_error(f, l.saturated_unit_weight, Some(100), Some(10000), "soil_profile"@)
    } else if f == "damping_ratio"@ {
        field_error(f, l.damping_ratio, Some(100), Some(100000), "soil_profile"@)
    } else if f == "fine_content"@ {
        field_error(f, l.fine_content, Some(0), Some(100000), "soil_profile"@)
    } else if f == "liquid_limit"@ {
        field_error(f, l.liquid_limit, Some(0), Some(100000), "soil_profile"@)
    } else if f == "plastic_limit"@ {
        field_error(f, l.plastic_limit, Some(0), Some(100000), "soil_profile"@)
    } else if f == "plasticity_index"@ {
        field_error(f, l.plasticity_index, Some(0), Some(100000), "soil_profile"@)
    } else if f == "cu"@ {
        field_error(f, l.cu, Some(0), None, "soil_profile"@)
    } else if f == "c_prime"@ {
        field_error(f, l.c_prime, Some(0), None, "soil_profile"@)
    } else if f == "phi_u"@ {
        field_error(f, l.phi_u, Some(0), Some(90000), "soil_profile"@)
    } else if f == "phi_prime"@ {
        field_error(f, l.phi_prime, Some(0), Some(90000), "soil_profile"@)
    } else if f == "water_content"@ {
        field_error(f, l.water_content, Some(0), Some(100000), "soil_profile"@)
    } else if f == "poissons_ratio"@ {
        field_error(f, l.poissons_ratio, Some(1), Some(500), "soil_profile"@)
    } else if f == "elastic_modulus"@ {
        field_error(f, l.elastic_modulus, Some(1), None, "soil_profile"@)
    } else if f == "void_ratio"@ {
        field_error(f, l.void_ratio, Some(0), None, "soil_profile"@)
    } else if f == "compression_index"@ {
        field_error(f, l.compression_index, Some(0), None, "soil_profile"@)
    } else if f == "recompression_index"@ {
        field_error(f, l.recompression_index, Some(0), None, "soil_profile"@)
    } else if f == "preconsolidation_pressure"@ {
        field_error(f, l.preconsolidation_pressure, Some(0), None, "soil_profile"@)
    } else if f == "mv"@ {
        field_error(f, l.mv, Some(0), None, "soil_profile"@)
    } else if f == "shear_wave_velocity"@ {
        field_error(f, l.shear_wave_velocity, Some(0), None, "soil_profile"@)
    } else {
        Some(("soil_profile.invalid_field"@, "Field '"@ + f + "' is not valid for SoilLayer."@))
    }
}

impl SoilLayer {
    /// Validate based on a list of required fields by name.
    ///
    /// # Arguments
    /// * `fields` - A slice of field names to validate.
    ///
    /// # Returns
    /// * `Ok(())` if all required fields are valid, or the first error found.
    pub fn validate_fields(&self, fields: &[&str]) -> (r: Result<(), ValidationError>)
        ensures
            ({
                let e = first_field_error(
                    field_views(fields@),
                    |f: Seq<char>| soil_layer_field_error(*self, f),
                );
                &&& r is Ok <==> e is None
                &&& r is Err ==> e == Some((r->Err_0.code@, r->Err_0.message@))
            }),
    {
        let ghost check = |f: Seq<char>| soil_layer_field_error(*self, f);
        let ghost views = field_views(fields@);
        let mut i: usize = 0;
        while i < fields.len()
            invariant
                0 <= i <= fields@.len(),
                views == field_views(fields@),
                check == (|f: Seq<char>| soil_layer_field_error(*self, f)),
                forall|j: int| 0 <= j < i ==> check(#[trigger] views[j]) is None,
            decreases fields@.len() - i,
        {
            let field = fields[i];
            let result: Result<(), ValidationError> = if str_eq(field, "thickness") {
                validate_field("thickness", self.thickness, Some(1), None, "soil_profile")
            } else if str_eq(field, "natural_unit_weight") {
                validate_field(
                    "natural_unit_weight",
                    self.natural_unit_weight,
                    Some(100),
                    Some(10000),
                    "soil_profile",
                )
            } else if str_eq(field, "dry_unit_weight") {
                validate_field(
                    "dry_unit_weight",
                    self.dry_unit_weight,
                    Some(100),
                    Some(10000),
                    "soil_profile",
                )
            } else if str_eq(field, "saturated_unit_weight") {
                validate_field(
                    "saturated_unit_weight",
                    self.saturated_unit_weight,
                    Some(100),
                    Some(10000),
                    "soil_profile",
                )
            } else if str_eq(field, "damping_ratio") {
                validate_field(
                    "damping_ratio",
                    self.damping_ratio,
                    Some(100),
                    Some(100000),
                    "soil_profile",
                )
            } else if str_eq(field, "fine_content") {
                validate_field(
                    "fine_content",
                    self.fine_content,
                    Some(0),
                    Some(100000),
                    "soil_profile",
                )
            } else if str_eq(field, "liquid_limit") {
                validate_field(
                    "liquid_limit",
                    self.liquid_limit,
                    Some(0),
                    Some(100000),
                    "soil_profile",
                )
            } else if str_eq(field, "plastic_limit") {
                validate_field(
                    "plastic_limit",
                    self.plastic_limit,
                    Some(0),
                    Some(100000),
                    "soil_profile",
                )
            } else if str_eq(field, "plasticity_index") {
                validate_field(
                    "plasticity_index",
                    self.plasticity_index,
                    Some(0),
                    Some(100000),
                    "soil_profile",
                )
            } else if str_eq(field, "cu") {
                validate_field("cu", self.cu, Some(0), None, "soil_profile")
            } else if str_eq(field, "c_prime") {
                validate_field("c_prime", self.c_prime, Some(0), None, "soil_profile")
            } else if str_eq(field, "phi_u") {
                validate_field("phi_u", self.phi_u, Some(0), Some(90000), "soil_profile")
            } else if str_eq(field, "phi_prime") {
                validate_field("phi_prime", self.phi_prime, Some(0), Some(90000), "soil_profile")
            } else if str_eq(field, "water_content") {
                validate_field(
                    "water_content",
                    self.water_content,
                    Some(0),
                    Some(100000),
                    "soil_profile",
                )
            } else if str_eq(field, "poissons_ratio") {
                validate_field(
                    "poissons_ratio",
                    self.poissons_ratio,
                    Some(1),
                    Some(500),
                    "soil_profile",
                )
            } else if str_eq(field, "elastic_modulus") {
                validate_field("elastic_modulus", self.elastic_modulus, Some(1), None, "soil_profile")
            } else if str_eq(field, "void_ratio") {
                validate_field("void_ratio", self.void_ratio, Some(0), None, "soil_profile")
            } else if str_eq(field, "compression_index") {
                validate_field(
                    "compression_index",
                    self.compression_index,
                    Some(0),
                    None,
                    "soil_profile",
                )
            } else if str_eq(field, "recompression_index") {
                validate_field(
                    "recompression_index",
                    self.recompression_index,
                    Some(0),
                    None,
                    "soil_profile",
                )
            } else if str_eq(field, "preconsolidation_pressure") {
                validate_field(
                    "preconsolidation_pressure",
                    self.preconsolidation_pressure,
                    Some(0),
                    None,
                    "soil_profile",
                )
            } else if str_eq(field, "mv") {
                validate_field("mv", self.mv, Some(0), None, "soil_profile")
            } else if str_eq(field, "shear_wave_velocity") {
                validate_field(
                    "shear_wave_velocity",
                    self.shear_wave_velocity,
                    Some(0),
                    None,
                    "soil_profile",
                )
            } else {
                let mut msg = String::from_str("Field '");
                msg.append(field);
                msg.append("' is not valid for SoilLayer.");
                proof {
                    assert(msg@ =~= "Field '"@ + field@ + "' is not valid for SoilLayer."@);
                }
                Err(
                    ValidationError {
                        code: String::from_str("soil_profile.invalid_field"),
                        message: msg,
                    },
                )
            };
            proof {
                assert(views[i as int] == field@);
            }
            match result {
                Ok(()) => {},
                Err(e) => {
                    proof {
                        lemma_first_error_skip(views, check, i as int);
                        assert(views.skip(i as int)[0] == views[i as int]);
                    }
                    return Err(e);
                },
            }
            i = i + 1;
        }
        proof {
            lemma_first_error_skip(views, check, fields@.len() as int);
            assert(views.skip(views.len() as int) =~= Seq::<Seq<char>>::empty());
        }
        Ok(())
    }
}

/// The layer's thickness, absent fields reading as zero.
pub open spec fn thick0(l: SoilLayer) -> int {
    if l.thickness is Some {
        l.thickness->0 as int
    } else {
        0
    }
}

/// The layer's dry unit weight, absent fields reading as zero.
pub open spec fn dry0(l: SoilLayer) -> int {
    if l.dry_unit_weight is Some {
        l.dry_unit_weight->0 as int
    } else {
        0
    }
}

/// The layer's saturated unit weight, absent fields reading as zero.
pub open spec fn sat0(l: SoilLayer) -> int {
    if l.saturated_unit_weight is Some {
        l.saturated_unit_weight->0 as int
    } else {
        0
    }
}

/// Cumulative thickness of the first `i` layers: the depth at which layer `i`
/// begins.
pub open spec fn prefix_depth(layers: Seq<SoilLayer>, i: int) -> int
    decreases i,
{
    if i <= 0 {
        0
    } else {
        prefix_depth(layers, i - 1) + thick0(layers[i - 1])
    }
}

/// With non-negative thicknesses, cumulative depths are non-decreasing.
pub proof fn lemma_prefix_depth_mono(layers: Seq<SoilLayer>, i: int, j: int)
    requires
        forall|k: int| 0 <= k < layers.len() ==> thick0(#[trigger] layers[k]) >= 0,
        0 <= i <= j <= layers.len(),
    ensures
        prefix_depth(layers, i) <= prefix_depth(layers, j),
    decreases j - i,
{
    if i < j {
        lemma_prefix_depth_mono(layers, i, j - 1);
    }
}

/// Total-stress contribution of one soil segment: `prev` is the depth at which
/// it begins, `t` its thickness; above the water table the dry unit weight
/// applies, below it the saturated one, and a segment straddling the water
/// table is split at it.
pub open spec fn segment_stress(prev: int, t: int, dry: int, sat: int, gwl: int) -> int {
    if gwl >= prev + t {
        dry * t
    } else if gwl <= prev {
        sat * t
    } else {
        dry * (gwl - prev) + sat * (prev + t - gwl)
    }
}

pub proof fn lemma_segment_nonneg(prev: int, t: int, dry: int, sat: int, gwl: int)
    requires
        t >= 0,
        dry >= 0,
        sat >= 0,
    ensures
        segment_stress(prev, t, dry, sat, gwl) >= 0,
{
    assert(segment_stress(prev, t, dry, sat, gwl) >= 0) by (nonlinear_arith)
        requires t >= 0, dry >= 0, sat >= 0;
}

pub proof fn lemma_segment_ub(prev: int, t: int, dry: int, sat: int, gwl: int, w: int)
    requires
        t >= 0,
        0 <= dry <= w,
        0 <= sat <= w,
    ensures
        segment_stress(prev, t, dry, sat, gwl) <= w * t,
{
    assert(segment_stress(prev, t, dry, sat, gwl) <= w * t) by (nonlinear_arith)
        requires t >= 0, 0 <= dry <= w, 0 <= sat <= w;
}

/// A shorter segment never contributes more stress.
pub proof fn lemma_segment_mono(prev: int, t1: int, t2: int, dry: int, sat: int, gwl: int)
    requires
        0 <= t1 <= t2,
        dry >= 0,
        sat >= 0,
    ensures
        segment_stress(prev, t1, dry, sat, gwl) <= segment_stress(prev, t2, dry, sat, gwl),
{
    assert(segment_stress(prev, t1, dry, sat, gwl) <= segment_stress(prev, t2, dry, sat, gwl))
        by (nonlinear_arith)
        requires 0 <= t1 <= t2, dry >= 0, sat >= 0;
}

/// Total stress accumulated over the first `i` segments of a query that stops
/// in layer `li` at depth `qd`: every earlier layer contributes its full
/// thickness, layer `li` only the part from its top down to `qd`.
pub open spec fn stress_upto(
    layers: Seq<SoilLayer>,
    gwl: int,
    qd: int,
    li: int,
    i: int,
) -> int
    decreases i,
{
    if i <= 0 {
        0
    } else {
        let j = i - 1;
        let prev = prefix_depth(layers, j);
        let t = if j == li {
            qd - prev
        } else {
            thick0(layers[j])
        };
        stress_upto(layers, gwl, qd, li, j) + segment_stress(prev, t, dry0(layers[j]), sat0(layers[j]), gwl)
    }
}

/// Total stress of `i` whole layers, no query cut-off.
pub open spec fn stress_full(layers: Seq<SoilLayer>, gwl: int, i: int) -> int
    decreases i,
{
    if i <= 0 {
        0
    } else {
        let j = i - 1;
        stress_full(layers, gwl, j) + segment_stress(
            prefix_depth(layers, j),
            thick0(layers[j]),
            dry0(layers[j]),
            sat0(layers[j]),
            gwl,
        )
    }
}

pub proof fn lemma_stress_upto_is_full(layers: Seq<SoilLayer>, gwl: int, qd: int, li: int, i: int)
    requires
        0 <= i <= li,
    ensures
        stress_upto(layers, gwl, qd, li, i) == stress_full(layers, gwl, i),
    decreases i,
{
    if i > 0 {
        lemma_stress_upto_is_full(layers, gwl, qd, li, i - 1);
    }
}

pub proof fn lemma_stress_full_nonneg_mono(layers: Seq<SoilLayer>, gwl: int, i: int, j: int)
    requires
        forall|k: int| 0 <= k < layers.len() ==> thick0(#[trigger] layers[k]) >= 0 && dry0(
            layers[k],
        ) >= 0 && sat0(layers[k]) >= 0,
        0 <= i <= j <= layers.len(),
    ensures
        stress_full(layers, gwl, i) <= stress_full(layers, gwl, j),
    decreases j - i,
{
    if i < j {
        lemma_stress_full_nonneg_mono(layers, gwl, i, j - 1);
        lemma_segment_nonneg(
            prefix_depth(layers, j - 1),
            thick0(layers[j - 1]),
            dry0(layers[j - 1]),
            sat0(layers[j - 1]),
            gwl,
        );
    }
}

/// Adds one segment's contribution to a running total stress, splitting the
/// segment at the water table when it straddles it.
fn add_segment_stress(total: i64, prev: i64, t: i64, dry: i64, sat: i64, gwl: i64) -> (r: i64)
    requires
        0 <= t <= MAX_DIMENSION,
        0 <= prev <= MAX_DIMENSION,
        0 <= dry <= MAX_UNIT_WEIGHT,
        0 <= sat <= MAX_UNIT_WEIGHT,
        0 <= total as int <= (MAX_UNIT_WEIGHT as int) * (MAX_DIMENSION as int),
    ensures
        r as int == total as int + segment_stress(
            prev as int,
            t as int,
            dry as int,
            sat as int,
            gwl as int,
        ),
        total <= r,
        r as int <= total as int + (MAX_UNIT_WEIGHT as int) * (t as int),
{
    proof {
        lemma_segment_nonneg(prev as int, t as int, dry as int, sat as int, gwl as int);
        lemma_segment_ub(
            prev as int,
            t as int,
            dry as int,
            sat as int,
            gwl as int,
            MAX_UNIT_WEIGHT as int,
        );
        assert((MAX_UNIT_WEIGHT as int) * (t as int) <= (MAX_UNIT_WEIGHT as int) * (
        MAX_DIMENSION as int)) by (nonlinear_arith)
            requires 0 <= t as int <= MAX_DIMENSION as int;
        assert((dry as int) * (t as int) <= (MAX_UNIT_WEIGHT as int) * (t as int))
            by (nonlinear_arith)
            requires 0 <= dry <= MAX_UNIT_WEIGHT, t >= 0;
        assert((sat as int) * (t as int) <= (MAX_UNIT_WEIGHT as int) * (t as int))
            by (nonlinear_arith)
            requires 0 <= sat <= MAX_UNIT_WEIGHT, t >= 0;
        assert((dry as int) * (t as int) >= 0 && (sat as int) * (t as int) >= 0)
            by (nonlinear_arith)
            requires dry >= 0, sat >= 0, t >= 0;
    }
    if gwl >= prev + t {
        // Entirely above groundwater table (dry unit weight applies)
        total + dry * t
    } else if gwl <= prev {
        // Entirely below groundwater table (saturated unit weight applies)
        total + sat * t
    } else {
        // Partially submerged (both dry and saturated weights apply)
        let dry_thickness = gwl - prev;
        let submerged_thickness = t - dry_thickness;
        proof {
            assert((dry as int) * (gwl - prev) + (sat as int) * (prev + t - gwl) >= 0)
                by (nonlinear_arith)
                requires dry >= 0, sat >= 0, prev < gwl < prev + t;
            assert((dry as int) * (gwl - prev) <= (MAX_UNIT_WEIGHT as int) * (t as int) && (
            sat as int) * (prev + t - gwl) <= (MAX_UNIT_WEIGHT as int) * (t as int))
                by (nonlinear_arith)
                requires
                    0 <= dry <= MAX_UNIT_WEIGHT,
                    0 <= sat <= MAX_UNIT_WEIGHT,
                    prev < gwl < prev + t,
            ;
        }
        total + dry * dry_thickness + sat * submerged_thickness
    }
}

/// Represents a soil profile consisting of multiple soil layers.
/// This structure stores soil layers and calculates normal and effective stresses.
#[derive(Debug, Clone)]
pub struct SoilProfile {
    /// A list of soil layers in the profile.
    pub layers: Vec<SoilLayer>,
    /// Depth of the groundwater table.
    pub ground_water_level: Option<i64>,
}

impl SoilProfile {
    /// The groundwater depth, when present.
    pub open spec fn gwl(&self) -> int {
        self.ground_water_level->0 as int
    }

    /// The stored bottom depth of each layer.
    pub open spec fn depth_keys(&self) -> Seq<i64> {
        self.layers@.map_values(|l: SoilLayer| l.depth->0)
    }

    /// Structural well-formedness: at least one layer, every thickness present
    /// and positive, the total depth within range, and a groundwater level in
    /// range.
    pub open spec fn layers_wf(&self) -> bool {
        &&& self.layers@.len() > 0
        &&& forall|i: int| 0 <= i < self.layers@.len() ==> (#[trigger] self.layers@[i]).thickness
            is Some && thick0(self.layers@[i]) > 0
        &&& prefix_depth(self.layers@, self.layers@.len() as int) <= MAX_DIMENSION as int
        &&& self.ground_water_level is Some
        &&& 0 <= self.gwl() <= MAX_DIMENSION as int
    }

    /// The derived depth fields agree with the cumulative thicknesses: each
    /// layer's `depth` is its bottom, its `center` the midpoint of the layer
    /// (the midpoint of an odd thickness rounds down).
    pub open spec fn depths_computed(&self) -> bool {
        forall|i: int| 0 <= i < self.layers@.len() ==> {
            let l = #[trigger] self.layers@[i];
            &&& l.depth is Some
            &&& l.depth->0 as int == prefix_depth(self.layers@, i + 1)
            &&& l.center is Some
            &&& l.center->0 as int == prefix_depth(self.layers@, i) + thick0(l) / 2
        }
    }

    /// Unit weights usable for stress integration: in range, and each layer's
    /// governing weight above that of water.
    pub open spec fn weights_wf(&self) -> bool {
        forall|i: int| 0 <= i < self.layers@.len() ==> {
            let l = #[trigger] self.layers@[i];
            &&& 0 <= dry0(l) <= MAX_UNIT_WEIGHT as int
            &&& 0 <= sat0(l) <= MAX_UNIT_WEIGHT as int
            &&& (dry0(l) > WATER_UNIT_WEIGHT + 19 || sat0(l) > WATER_UNIT_WEIGHT + 19)
        }
    }

    /// The index of the layer in which a query at depth `qd` stops.
    pub open spec fn layer_index_of(&self, qd: i64) -> int {
        sample_index(self.depth_keys(), qd)
    }

    /// Total vertical stress at depth `qd`.
    pub open spec fn spec_normal_stress(&self, qd: i64) -> int {
        stress_upto(self.layers@, self.gwl(), qd as int, self.layer_index_of(qd), self.layer_index_of(qd) + 1)
    }

    /// Effective vertical stress at depth `qd`: total stress, less hydrostatic
    /// pore pressure below the water table.
    pub open spec fn spec_effective_stress(&self, qd: i64) -> int {
        if self.gwl() >= qd as int {
            self.spec_normal_stress(qd)
        } else {
            self.spec_normal_stress(qd) - (qd as int - self.gwl()) * WATER_UNIT_WEIGHT as int
        }
    }

    /// Creates a new soil profile and initializes layer depths.
    ///
    /// # Arguments
    /// * `layers` - A vector of `SoilLayer` objects.
    /// * `ground_water_level` - Depth of the groundwater table.
    pub fn new(layers: Vec<SoilLayer>, ground_water_level: i64) -> (r: SoilProfile)
        requires
            layers@.len() > 0,
            forall|i: int| 0 <= i < layers@.len() ==> (#[trigger] layers@[i]).thickness is Some
                && thick0(layers@[i]) > 0,
            prefix_depth(layers@, layers@.len() as int) <= MAX_DIMENSION as int,
        ensures
            r.ground_water_level == Some(ground_water_level),
            r.layers@.len() == layers@.len(),
            forall|i: int| 0 <= i < layers@.len() ==> r.layers@[i] == (SoilLayer {
                depth: Some((prefix_depth(layers@, i + 1)) as i64),
                center: Some((prefix_depth(layers@, i) + thick0(layers@[i]) / 2) as i64),
                ..layers@[i]
            }),
            r.depths_computed(),
    {
        let mut profile = SoilProfile { layers, ground_water_level: Some(ground_water_level) };
        profile.calc_layer_depths();
        profile
    }

    /// Calculates center and bottom depth for each soil layer.
    pub fn calc_layer_depths(&mut self)
        requires
            forall|i: int| 0 <= i < old(self).layers@.len() ==> (#[trigger] old(
                self,
            ).layers@[i]).thickness is Some && thick0(old(self).layers@[i]) > 0,
            prefix_depth(old(self).layers@, old(self).layers@.len() as int) <= MAX_DIMENSION as int,
        ensures
            final(self).ground_water_level == old(self).ground_water_level,
            final(self).layers@.len() == old(self).layers@.len(),
            forall|i: int| 0 <= i < old(self).layers@.len() ==> final(self).layers@[i]
                == (SoilLayer {
                depth: Some((prefix_depth(old(self).layers@, i + 1)) as i64),
                center: Some(
                    (prefix_depth(old(self).layers@, i) + thick0(old(self).layers@[i]) / 2) as i64,
                ),
                ..old(self).layers@[i]
            }),
            final(self).depths_computed(),
    {
        let ghost orig = self.layers@;
        let n = self.layers.len();
        let mut out: Vec<SoilLayer> = Vec::new();
        let mut bottom: i64 = 0;
        let mut i: usize = 0;
        while i < n
            invariant
                n == self.layers@.len(),
                self.layers@ == orig,
                forall|k: int| 0 <= k < n ==> (#[trigger] orig[k]).thickness is Some && thick0(
                    orig[k],
                ) > 0,
                prefix_depth(orig, n as int) <= MAX_DIMENSION as int,
                0 <= i <= n,
                out@.len() == i,
                bottom as int == prefix_depth(orig, i as int),
                forall|k: int| 0 <= k < i ==> out@[k] == (SoilLayer {
                    depth: Some((prefix_depth(orig, k + 1)) as i64),
                    center: Some((prefix_depth(orig, k) + thick0(orig[k]) / 2) as i64),
                    ..orig[k]
                }),
            decreases n - i,
        {
            proof {
                lemma_prefix_depth_mono(orig, 0, i as int);
                lemma_prefix_depth_mono(orig, i as int, n as int);
                lemma_prefix_depth_mono(orig, i + 1, n as int);
            }
            let mut layer = self.layers[i];
            let t = layer.thickness.unwrap();
            let half = ((t as u64) / 2) as i64;
            layer.center = Some(bottom + half);
            bottom = bottom + t;
            layer.depth = Some(bottom);
            out.push(layer);
            i = i + 1;
        }
        self.layers = out;
        proof {
            assert forall|k: int| 0 <= k < self.layers@.len() implies {
                let l = #[trigger] self.layers@[k];
                &&& l.depth is Some
                &&& l.depth->0 as int == prefix_depth(self.layers@, k + 1)
                &&& l.center is Some
                &&& l.center->0 as int == prefix_depth(self.layers@, k) + thick0(l) / 2
            } by {
                lemma_prefix_depth_same(orig, self.layers@, k + 1);
                lemma_prefix_depth_same(orig, self.layers@, k);
                lemma_prefix_depth_mono(orig, 0, k);
                lemma_prefix_depth_mono(orig, k, k + 1);
                lemma_prefix_depth_mono(orig, k + 1, n as int);
            }
        }
    }

    /// Returns the index of the soil layer at a specified depth: the first
    /// layer whose bottom depth is at least the query, else the last layer. A
    /// query exactly at a boundary belongs to the layer ending there.
    ///
    /// # Arguments
    /// * `depth` - The depth at which to find the layer.
    pub fn get_layer_index(&self, depth: i64) -> (r: usize)
        requires
            self.layers_wf(),
            self.depths_computed(),
        ensures
            r < self.layers@.len(),
            r as int == self.layer_index_of(depth),
            forall|j: int| 0 <= j < r ==> #[trigger] prefix_depth(self.layers@, j + 1) < depth as int,
            prefix_depth(self.layers@, r + 1) >= depth as int || r as int == self.layers@.len()
                - 1,
    {
        let ghost keys = self.depth_keys();
        let n = self.layers.len();
        let mut i: usize = 0;
        while i < n - 1 && self.layers[i].depth.unwrap() < depth
            invariant
                n == self.layers@.len(),
                n > 0,
                self.layers_wf(),
                self.depths_computed(),
                0 <= i <= n - 1,
                forall|j: int| 0 <= j < i ==> keys[j] < depth,
                keys == self.depth_keys(),
            decreases n - i,
        {
            i = i + 1;
        }
        proof {
            lemma_sample_skip(keys, depth, i as int);
            assert(keys[i as int] == self.layers@[i as int].depth->0);
            if i < n - 1 {
                assert(sample_index_from_unfold_one(keys, depth, i as int));
            }
            lemma_sample_index_props(keys, depth);
            assert forall|j: int| 0 <= j < i implies #[trigger] prefix_depth(self.layers@, j + 1)
                < depth as int by {
                assert(keys[j] < depth);
                assert(keys[j] == self.layers@[j].depth->0);
            }
        }
        i
    }

    /// Returns a reference to the soil layer at a specified depth.
    ///
    /// # Arguments
    /// * `depth` - The depth at which to find the layer.
    pub fn get_layer_at_depth(&self, depth: i64) -> (r: &SoilLayer)
        requires
            self.layers_wf(),
            self.depths_computed(),
        ensures
            r == self.layers@[self.layer_index_of(depth)],
    {
        let index = self.get_layer_index(depth);
        &self.layers[index]
    }

    /// Calculates the total (normal) vertical stress at a given depth,
    /// integrating layer by layer from the surface and splitting any layer
    /// that straddles the water table.
    ///
    /// # Arguments
    /// * `depth` - The depth at which to calculate total stress.
    pub fn calc_normal_stress(&self, depth: i64) -> (r: i64)
        requires
            self.layers_wf(),
            self.depths_computed(),
            self.weights_wf(),
            0 <= depth <= MAX_DIMENSION,
        ensures
            r as int == self.spec_normal_stress(depth),
            0 <= r as int <= (MAX_UNIT_WEIGHT as int) * (2 * MAX_DIMENSION as int),
    {
        let layer_index = self.get_layer_index(depth);
        let ghost layers = self.layers@;
        let ghost gwlg = self.gwl();
        let ghost li = self.layer_index_of(depth);

        let mut total_stress: i64 = 0;
        let mut previous_depth: i64 = 0;
        let gwt = self.ground_water_level.unwrap();
        let mut i: usize = 0;
        while i < layer_index
            invariant
                self.layers_wf(),
                self.depths_computed(),
                self.weights_wf(),
                0 <= depth <= MAX_DIMENSION,
                layers == self.layers@,
                gwlg == self.gwl(),
                gwt == self.ground_water_level->0,
                li == layer_index as int,
                layer_index < layers.len(),
                forall|j: int| 0 <= j < li ==> #[trigger] prefix_depth(layers, j + 1)
                    < depth as int,
                0 <= i <= layer_index,
                previous_depth as int == prefix_depth(layers, i as int),
                total_stress as int == stress_upto(layers, gwlg, depth as int, li, i as int),
                total_stress as int >= 0,
                total_stress as int <= (MAX_UNIT_WEIGHT as int) * prefix_depth(layers, i as int),
            decreases layer_index - i,
        {
            let ghost previ = prefix_depth(layers, i as int);
            proof {
                lemma_prefix_depth_mono(layers, 0, i as int);
                lemma_prefix_depth_mono(layers, i + 1, layers.len() as int);
                assert(prefix_depth(layers, i + 1) == previ + thick0(layers[i as int]));
                assert((MAX_UNIT_WEIGHT as int) * previ + (MAX_UNIT_WEIGHT as int) * thick0(
                    layers[i as int],
                ) == (MAX_UNIT_WEIGHT as int) * (previ + thick0(layers[i as int])))
                    by (nonlinear_arith);
                assert((MAX_UNIT_WEIGHT as int) * prefix_depth(layers, i as int) <= (
                MAX_UNIT_WEIGHT as int) * (MAX_DIMENSION as int)) by (nonlinear_arith)
                    requires 0 <= prefix_depth(layers, i as int) <= MAX_DIMENSION as int;
            }
            let layer = self.layers[i];
            let layer_thickness = layer.thickness.unwrap();
            let dry_unit_weight = match layer.dry_unit_weight {
                Some(w) => w,
                None => 0,
            };
            let saturated_unit_weight = match layer.saturated_unit_weight {
                Some(w) => w,
                None => 0,
            };
            total_stress = add_segment_stress(
                total_stress,
                previous_depth,
                layer_thickness,
                dry_unit_weight,
                saturated_unit_weight,
                gwt,
            );
            previous_depth = previous_depth + layer_thickness;
            i = i + 1;
        }
        // The stopping layer contributes only the part from its top down to
        // the query depth.
        proof {
            lemma_prefix_depth_mono(layers, 0, li);
            lemma_prefix_depth_mono(layers, li, layers.len() as int);
            assert((MAX_UNIT_WEIGHT as int) * prefix_depth(layers, li) <= (MAX_UNIT_WEIGHT as int)
                * (MAX_DIMENSION as int)) by (nonlinear_arith)
                requires 0 <= prefix_depth(layers, li) <= MAX_DIMENSION as int;
            if li > 0 {
                assert(prefix_depth(layers, (li - 1) + 1) < depth as int);
            }
        }
        let layer = self.layers[layer_index];
        let dry_unit_weight = match layer.dry_unit_weight {
            Some(w) => w,
            None => 0,
        };
        let saturated_unit_weight = match layer.saturated_unit_weight {
            Some(w) => w,
            None => 0,
        };
        total_stress = add_segment_stress(
            total_stress,
            previous_depth,
            depth - previous_depth,
            dry_unit_weight,
            saturated_unit_weight,
            gwt,
        );
        total_stress
    }

    /// Calculates the effective vertical stress at a given depth: the total
    /// stress, less hydrostatic pore pressure when the depth lies below the
    /// water table.
    ///
    /// # Arguments
    /// * `depth` - The depth at which to calculate effective stress.
    pub fn calc_effective_stress(&self, depth: i64) -> (r: i64)
        requires
            self.layers_wf(),
            self.depths_computed(),
            self.weights_wf(),
            0 <= depth <= MAX_DIMENSION,
        ensures
            r as int == self.spec_effective_stress(depth),
            self.gwl() >= depth as int ==> r as int == self.spec_normal_stress(depth),
            self.gwl() < depth as int ==> r as int == self.spec_normal_stress(depth) - (
            depth as int - self.gwl()) * WATER_UNIT_WEIGHT as int,
            self.gwl() < depth as int ==> (r as int) < self.spec_normal_stress(depth),
            -((MAX_DIMENSION as int) * (WATER_UNIT_WEIGHT as int)) <= r as int <= (
            MAX_UNIT_WEIGHT as int) * (2 * MAX_DIMENSION as int),
    {
        let normal_stress = self.calc_normal_stress(depth);
        let gwl = self.ground_water_level.unwrap();
        if gwl >= depth {
            normal_stress
        } else {
            let pore_pressure = (depth - gwl) * WATER_UNIT_WEIGHT;
            proof {
                assert((depth as int - self.gwl()) * WATER_UNIT_WEIGHT as int
                    >= WATER_UNIT_WEIGHT as int) by (nonlinear_arith)
                    requires depth as int - self.gwl() >= 1;
                assert((depth as int - self.gwl()) * WATER_UNIT_WEIGHT as int <= (
                MAX_DIMENSION as int) * WATER_UNIT_WEIGHT as int) by (nonlinear_arith)
                    requires 1 <= depth as int - self.gwl() <= MAX_DIMENSION as int;
            }
            normal_stress - pore_pressure
        }
    }
}

impl SoilProfile {
    /// The condition under which `validate` accepts the profile: at least one
    /// layer, every named field of every layer valid, and a groundwater level
    /// at or below the surface.
    pub open spec fn spec_validate_ok(&self, fields: Seq<&str>) -> bool {
        &&& self.layers@.len() > 0
        &&& forall|i: int| 0 <= i < self.layers@.len() ==> first_field_error(
            field_views(fields),
            |f: Seq<char>| soil_layer_field_error(#[trigger] self.layers@[i], f),
        ) is None
        &&& field_ok(self.ground_water_level, Some(0), None)
    }

    /// Validates the soil profile and its layers: rejects an empty profile,
    /// checks the named fields of every layer, then the groundwater level.
    ///
    /// # Arguments
    /// * `fields` - A slice of field names to validate.
    ///
    /// # Returns
    /// * `Ok(())` if the profile is valid, or the first error found.
    pub fn validate(&self, fields: &[&str]) -> (r: Result<(), ValidationError>)
        ensures
            self.layers@.len() == 0 ==> r is Err && r->Err_0.code@ == "soil_profile.empty"@
                && r->Err_0.message@ == "Soil profile must contain at least one layer."@,
            r is Ok <==> self.spec_validate_ok(fields@),
    {
        if self.layers.len() == 0 {
            return Err(
                ValidationError {
                    code: String::from_str("soil_profile.empty"),
                    message: String::from_str("Soil profile must contain at least one layer."),
                },
            );
        }
        let mut i: usize = 0;
        while i < self.layers.len()
            invariant
                0 <= i <= self.layers@.len(),
                forall|j: int| 0 <= j < i ==> first_field_error(
                    field_views(fields@),
                    |f: Seq<char>| soil_layer_field_error(#[trigger] self.layers@[j], f),
                ) is None,
            decreases self.layers@.len() - i,
        {
            let layer = self.layers[i];
            match layer.validate_fields(fields) {
                Ok(()) => {},
                Err(e) => {
                    return Err(e);
                },
            }
            i = i + 1;
        }
        match validate_field(
            "ground_water_level",
            self.ground_water_level,
            Some(0),
            None,
            "soil_profile",
        ) {
            Ok(()) => {},
            Err(e) => {
                return Err(e);
            },
        }
        Ok(())
    }
}

/// Cumulative depths depend only on thicknesses, which `calc_layer_depths`
/// leaves unchanged.
proof fn lemma_prefix_depth_same(a: Seq<SoilLayer>, b: Seq<SoilLayer>, i: int)
    requires
        a.len() == b.len(),
        forall|k: int| 0 <= k < a.len() ==> thick0(#[trigger] b[k]) == thick0(a[k]),
        i <= a.len(),
    ensures
        prefix_depth(b, i) == prefix_depth(a, i),
    decreases i,
{
    if i > 0 {
        lemma_prefix_depth_same(a, b, i - 1);
    }
}

/// One unfolding of the nearest-depth lookup, phrased for the exec loop.
pub open spec fn sample_index_from_unfold_one(depths: Seq<i64>, d: i64, i: int) -> bool {
    0 <= i < depths.len() - 1 && depths[i] >= d ==> sample_index_from(depths, d, i) == i
}

/// The bottom depth stored on each layer equals the cumulative thickness of
/// the layers above and including it.
proof fn lemma_keys_are_prefix_depths(p: SoilProfile, j: int)
    requires
        p.depths_computed(),
        0 <= j < p.layers@.len(),
    ensures
        p.depth_keys()[j] as int == prefix_depth(p.layers@, j + 1),
{
    assert(p.depth_keys()[j] == p.layers@[j].depth->0);
}

/// Total vertical stress vanishes at the surface.
pub proof fn lemma_normal_stress_at_surface(p: SoilProfile)
    requires
        p.layers_wf(),
        p.depths_computed(),
    ensures
        p.spec_normal_stress(0) == 0,
{
    let keys = p.depth_keys();
    lemma_keys_are_prefix_depths(p, 0);
    assert(keys[0] >= 0);
    let li = p.layer_index_of(0);
    assert(li == 0);
    assert(stress_upto(p.layers@, p.gwl(), 0, 0, 0) == 0);
    assert(segment_stress(0, 0, dry0(p.layers@[0]), sat0(p.layers@[0]), p.gwl()) == 0)
        by (nonlinear_arith)
        requires p.gwl() >= 0;
}

/// Total vertical stress is non-decreasing in depth: integrating further down
/// only adds non-negative segment contributions.
pub proof fn lemma_normal_stress_monotone(p: SoilProfile, d1: i64, d2: i64)
    requires
        p.layers_wf(),
        p.depths_computed(),
        p.weights_wf(),
        0 <= d1 <= d2 <= MAX_DIMENSION,
    ensures
        p.spec_normal_stress(d1) <= p.spec_normal_stress(d2),
{
    let layers = p.layers@;
    let g = p.gwl();
    let keys = p.depth_keys();
    let li1 = p.layer_index_of(d1);
    let li2 = p.layer_index_of(d2);
    crate::aggregate::lemma_sample_index_mono(keys, d1, d2);
    lemma_sample_index_props(keys, d1);
    lemma_sample_index_props(keys, d2);
    assert forall|k: int| 0 <= k < layers.len() implies thick0(#[trigger] layers[k]) >= 0 && dry0(
        layers[k],
    ) >= 0 && sat0(layers[k]) >= 0 by {}
    // the top of the stopping layer lies above the query depth
    if li1 > 0 {
        lemma_keys_are_prefix_depths(p, li1 - 1);
        assert(keys[li1 - 1] < d1);
    }
    if li2 > 0 {
        lemma_keys_are_prefix_depths(p, li2 - 1);
        assert(keys[li2 - 1] < d2);
    }
    let p1 = prefix_depth(layers, li1);
    let p2 = prefix_depth(layers, li2);
    assert(p1 <= d1 as int && p2 <= d2 as int);
    lemma_stress_upto_is_full(layers, g, d1 as int, li1, li1);
    lemma_stress_upto_is_full(layers, g, d2 as int, li2, li2);
    assert(p.spec_normal_stress(d1) == stress_full(layers, g, li1) + segment_stress(
        p1,
        d1 as int - p1,
        dry0(layers[li1]),
        sat0(layers[li1]),
        g,
    ));
    assert(p.spec_normal_stress(d2) == stress_full(layers, g, li2) + segment_stress(
        p2,
        d2 as int - p2,
        dry0(layers[li2]),
        sat0(layers[li2]),
        g,
    ));
    if li1 == li2 {
        lemma_segment_mono(p1, d1 as int - p1, d2 as int - p1, dry0(layers[li1]), sat0(layers[li1]), g);
    } else {
        // the shallower query stops before the last layer, so its layer's
        // bottom is at least as deep as the query
        assert(li1 < keys.len() - 1);
        assert(keys[li1] >= d1);
        lemma_keys_are_prefix_depths(p, li1);
        assert(d1 as int - p1 <= thick0(layers[li1]));
        lemma_segment_mono(p1, d1 as int - p1, thick0(layers[li1]), dry0(layers[li1]), sat0(layers[li1]), g);
        assert(stress_full(layers, g, li1 + 1) == stress_full(layers, g, li1) + segment_stress(
            p1,
            thick0(layers[li1]),
            dry0(layers[li1]),
            sat0(layers[li1]),
            g,
        ));
        lemma_stress_full_nonneg_mono(layers, g, li1 + 1, li2);
        lemma_segment_nonneg(p2, d2 as int - p2, dry0(layers[li2]), sat0(layers[li2]), g);
    }
}

} // verus!
