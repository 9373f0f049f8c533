//! Foundation geometry: plan dimensions, embedment depth and the effective
//! dimensions left after load eccentricity. Lengths are in thousandths of a
//! metre, angles in thousandths of a degree, the friction coefficient in
//! thousandths.
use vstd::prelude::*;

use crate::aggregate::MAX_DIMENSION;
use crate::text::str_eq;
use crate::validation::{
    field_error, field_views, first_field_error, lemma_first_error_skip, validate_field,
    ValidationError,
};

verus! {

/// Represents a foundation with geometry and load effects.
///
/// # Fields
///
/// * `foundation_depth` - Depth of the foundation.
/// * `foundation_length` - Length of the foundation.
/// * `foundation_width` - Width of the foundation.
/// * `foundation_area` - Area of the foundation.
/// * `base_tilt_angle` - Foundation inclination angle.
/// * `slope_angle` - Slope angle of the ground.
/// * `effective_length` - Effective length of the foundation after load effects.
/// * `effective_width` - Effective width of the foundation after load effects.
/// * `surface_friction_coefficient` - Friction coefficient for horizontal sliding.
#[derive(Debug, Clone, Copy)]
pub struct Foundation {
    pub foundation_depth: Option<i64>,
    pub foundation_length: Option<i64>,
    pub foundation_width: Option<i64>,
    pub foundation_area: Option<i64>,
    pub base_tilt_angle: Option<i64>,
    pub slope_angle: Option<i64>,
    pub effective_length: Option<i64>,
    pub effective_width: Option<i64>,
    pub surface_friction_coefficient: Option<i64>,
}

impl Default for Foundation {
    fn default() -> (r: Foundation)
        ensures
            r == (Foundation {
                foundation_depth: None,
                foundation_length: None,
                foundation_width: None,
                foundation_area: None,
                base_tilt_angle: None,
                slope_angle: None,
                effective_length: None,
                effective_width: None,
                surface_friction_coefficient: None,
            }),
    {
        Foundation {
            foundation_depth: None,
            foundation_length: None,
            foundation_width: None,
            foundation_area: None,
            base_tilt_angle: None,
            slope_angle: None,
            effective_length: None,
            effective_width: None,
            surface_friction_coefficient: None,
        }
    }
}

/// The error that validating one named field of a `Foundation` reports. The
/// width's maximum is the foundation's own length, when present.
pub open spec fn foundation_field_error(fd: Foundation, f: Seq<char>) -> Option<
    (Seq<char>, Seq<char>),
> {
    if f == "foundation_depth"@ {
        field_error(f, fd.foundation_depth, Some(0), None, "foundation"@)
    } else if f == "foundation_length"@ {
        field_error(f, fd.foundation_length, Some(1), None, "foundation"@)
    } else if f == "foundation_width"@ {
        field_error(f, fd.foundation_width, Some(1), fd.foundation_length, "foundation"@)
    } else if f == "foundation_area"@ {
        field_error(f, fd.foundation_area, Some(1), None, "foundation"@)
    } else if f == "base_tilt_angle"@ {
        field_error(f, fd.base_tilt_angle, Some(0), Some(45000), "foundation"@)
    } else if f == "slope_angle"@ {
        field_error(f, fd.slope_angle, Some(0), Some(90000), "foundation"@)
    } else if f == "effective_width"@ {
        field_error(f, fd.effective_width, Some(0), None, "foundation"@)
    } else if f == "effective_length"@ {
        field_error(f, fd.effective_length, Some(0), None, "foundation"@)
    } else if f == "surface_friction_coefficient"@ {
        field_error(f, fd.surface_friction_coefficient, Some(0), Some(1000), "foundation"@)
    } else {
        Some(("foundation.invalid_field"@, "Field '"@ + f + "' is not valid for Foundation."@))
    }
}

impl Foundation {
    /// Creates a new `Foundation` instance.
    ///
    /// # Arguments
    /// * `depth` - Depth of the foundation.
    /// * `length` - Length of the foundation.
    /// * `width` - Width of the foundation.
    /// * `angle` - Foundation inclination angle.
    /// * `slope` - Slope angle of the ground.
    /// * `area` - Area of the foundation.
    /// * `surface_friction_coefficient` - Friction coefficient for horizontal sliding.
    ///
    /// # Returns
    /// A new `Foundation` instance.
    pub fn new(
        depth: Option<i64>,
        length: Option<i64>,
        width: Option<i64>,
        angle: Option<i64>,
        slope: Option<i64>,
        area: Option<i64>,
        surface_friction_coefficient: Option<i64>,
    ) -> (r: Foundation)
        ensures
            r == (Foundation {
                foundation_depth: depth,
                foundation_length: length,
                foundation_width: width,
                foundation_area: area,
                base_tilt_angle: angle,
                slope_angle: slope,
                effective_length: None,
                effective_width: None,
                surface_friction_coefficient,
            }),
    {
        Foundation {
            foundation_depth: depth,
            foundation_length: length,
            foundation_width: width,
            foundation_area: area,
            base_tilt_angle: angle,
            slope_angle: slope,
            effective_length: None,
            effective_width: None,
            surface_friction_coefficient,
        }
    }

    /// Calculates effective dimensions from the load eccentricities: each plan
    /// dimension shrinks by twice its eccentricity, negative results clamp to
    /// zero, and the smaller of the two becomes the effective width.
    ///
    /// # Arguments
    ///
    /// * `ex` - Eccentricity along the width.
    /// * `ey` - Eccentricity along the length.
    pub fn calc_effective_lengths(&mut self, ex: i64, ey: i64)
        requires
            old(self).foundation_width is Some,
            old(self).foundation_length is Some,
            0 <= old(self).foundation_width->0 <= MAX_DIMENSION,
            0 <= old(self).foundation_length->0 <= MAX_DIMENSION,
            0 <= ex <= MAX_DIMENSION,
            0 <= ey <= MAX_DIMENSION,
        ensures
            *final(self) == (Foundation {
                effective_width: Some(
                    (min_clamped(
                        old(self).foundation_width->0 - 2 * ex,
                        old(self).foundation_length->0 - 2 * ey,
                    )) as i64,
                ),
                effective_length: Some(
                    (max_clamped(
                        old(self).foundation_width->0 - 2 * ex,
                        old(self).foundation_length->0 - 2 * ey,
                    )) as i64,
                ),
                ..*old(self)
            }),
    {
        let b_ = self.foundation_width.unwrap() - 2 * ex;
        let l_ = self.foundation_length.unwrap() - 2 * ey;
        let lo = if b_ < l_ {
            b_
        } else {
            l_
        };
        let hi = if b_ > l_ {
            b_
        } else {
            l_
        };
        self.effective_width = Some(
            if lo > 0 {
                lo
            } else {
                0
            },
        );
        self.effective_length = Some(
            if hi > 0 {
                hi
            } else {
                0
            },
        );
    }

    /// Validates specific fields of the Foundation using field names.
    /// This enables context-specific validation like `["foundation_depth", "effective_width"]`
    ///
    /// # Arguments
    /// * `fields` - A slice of field names to validate.
    ///
    /// # Returns
    /// Ok(()) if all fields are valid, or the first error found.
    pub fn validate(&self, fields: &[&str]) -> (r: Result<(), ValidationError>)
        ensures
            ({
                let e = first_field_error(
                    field_views(fields@),
                    |f: Seq<char>| foundation_field_error(*self, f),
                );
                &&& r is Ok <==> e is None
                &&& r is Err ==> e == Some((r->Err_0.code@, r->Err_0.message@))
            }),
    {
        let ghost check = |f: Seq<char>| foundation_field_error(*self, f);
        let ghost views = field_views(fields@);
        let mut i: usize = 0;
        while i < fields.len()
            invariant
                0 <= i <= fields@.len(),
                views == field_views(fields@),
                check == (|f: Seq<char>| foundation_field_error(*self, f)),
                forall|j: int| 0 <= j < i ==> check(#[trigger] views[j]) is None,
            decreases fields@.len() - i,
        {
            let field = fields[i];
            let result: Result<(), ValidationError> = if str_eq(field, "foundation_depth") {
                validate_field("foundation_depth", self.foundation_depth, Some(0), None, "foundation")
            } else if str_eq(field, "foundation_length") {
                validate_field(
                    "foundation_length",
                    self.foundation_length,
                    Some(1),
                    None,
                    "foundation",
                )
            } else if str_eq(field, "foundation_width") {
                validate_field(
                    "foundation_width",
                    self.foundation_width,
                    Some(1),
                    self.foundation_length,
                    "foundation",
                )
            } else if str_eq(field, "foundation_area") {
                validate_field("foundation_area", self.foundation_area, Some(1), None, "foundation")
            } else if str_eq(field, "base_tilt_angle") {
                validate_field(
                    "base_tilt_angle",
                    self.base_tilt_angle,
                    Some(0),
                    Some(45000),
                    "foundation",
                )
            } else if str_eq(field, "slope_angle") {
                validate_field("slope_angle", self.slope_angle, Some(0), Some(90000), "foundation")
            } else if str_eq(field, "effective_width") {
                validate_field("effective_width", self.effective_width, Some(0), None, "foundation")
            } else if str_eq(field, "effective_length") {
                validate_field(
                    "effective_length",
                    self.effective_length,
                    Some(0),
                    None,
                    "foundation",
                )
            } else if str_eq(field, "surface_friction_coefficient") {
                validate_field(
                    "surface_friction_coefficient",
                    self.surface_friction_coefficient,
                    Some(0),
                    Some(1000),
                    "foundation",
                )
            } else {
                let mut msg = String::from_str("Field '");
                msg.append(field);
                msg.append("' is not valid for Foundation.");
                proof {
                    assert(msg@ =~= "Field '"@ + field@ + "' is not valid for Foundation."@);
                }
                Err(
                    ValidationError {
                        code: String::from_str("foundation.invalid_field"),
                        message: msg,
                    },
                )
            };
            proof {
                assert(views[i as int] == field@);
            }
            match result {
                Ok(()) => {},
                Err(e) => {
                    proof {
                        lemma_first_error_skip(views, check, i as int);
                        assert(views.skip(i as int)[0] == views[i as int]);
                    }
                    return Err(e);
                },
            }
            i = i + 1;
        }
        proof {
            lemma_first_error_skip(views, check, fields@.len() as int);
            assert(views.skip(views.len() as int) =~= Seq::<Seq<char>>::empty());
        }
        Ok(())
    }
}

/// The smaller of two values, clamped below at zero.
pub open spec fn min_clamped(a: int, b: int) -> int {
    let lo = if a < b {
        a
    } else {
        b
    };
    if lo > 0 {
        lo
    } else {
        0
    }
}

/// The larger of two values, clamped below at zero.
pub open spec fn max_clamped(a: int, b: int) -> int {
    let hi = if a > b {
        a
    } else {
        b
    };
    if hi > 0 {
        hi
    } else {
        0
    }
}

} // verus!
