//! Loading conditions: stress envelopes per load case, horizontal loads,
//! moments and the eccentricities they induce. Stresses are in millionths of a
//! tonne per square metre, loads in thousandths of a tonne, moments in
//! thousandths of a tonne-metre, eccentricities in thousandths of a metre.
use vstd::prelude::*;

use crate::aggregate::{rounded_div, div_round_half_up, MAX_VALUE};
use crate::enums::{LoadCase, SelectionMethod};
use crate::text::str_eq;
use crate::validation::{
    field_error, field_views, first_field_error, lemma_first_error_skip, validate_field,
    ValidationError,
};

verus! {

/// Stress values for one load case.
///
/// # Fields
/// * `min` - Minimum vertical stress
/// * `avg` - Average vertical stress
/// * `max` - Maximum vertical stress
#[derive(Debug, Clone, Copy)]
pub struct Stress {
    pub min: Option<i64>,
    pub avg: Option<i64>,
    pub max: Option<i64>,
}

impl Default for Stress {
    fn default() -> (r: Stress)
        ensures
            r == (Stress { min: None, avg: None, max: None }),
    {
        Stress { min: None, avg: None, max: None }
    }
}

/// The error that validating a `Stress` reports: each of its three values must
/// be present.
pub open spec fn stress_error(s: Stress) -> Option<(Seq<char>, Seq<char>)> {
    if s.min is None {
        field_error("min"@, s.min, None, None, "loads"@)
    } else if s.avg is None {
        field_error("avg"@, s.avg, None, None, "loads"@)
    } else if s.max is None {
        field_error("max"@, s.max, None, None, "loads"@)
    } else {
        None
    }
}

impl Stress {
    /// Checks that all three stress values are present.
    pub fn validate(&self) -> (r: Result<(), ValidationError>)
        ensures
            r is Ok <==> stress_error(*self) is None,
            r is Err ==> stress_error(*self) == Some((r->Err_0.code@, r->Err_0.message@)),
    {
        match validate_field("min", self.min, None, None, "loads") {
            Ok(()) => {},
            Err(e) => {
                return Err(e);
            },
        }
        match validate_field("avg", self.avg, None, None, "loads") {
            Ok(()) => {},
            Err(e) => {
                return Err(e);
            },
        }
        match validate_field("max", self.max, None, None, "loads") {
            Ok(()) => {},
            Err(e) => {
                return Err(e);
            },
        }
        Ok(())
    }
}

/// Loading conditions
///
/// # Fields
/// * `service_load` - Service load stress values
/// * `ultimate_load` - Ultimate load stress values
/// * `seismic_load` - Seismic load stress values
/// * `horizontal_load_x` - Horizontal load in x-direction
/// * `horizontal_load_y` - Horizontal load in y-direction
/// * `moment_x` - Moment in x-direction
/// * `moment_y` - Moment in y-direction
/// * `vertical_load` - Vertical load
#[derive(Debug, Clone, Copy)]
pub struct Loads {
    pub service_load: Option<Stress>,
    pub ultimate_load: Option<Stress>,
    pub seismic_load: Option<Stress>,
    pub horizontal_load_x: Option<i64>,
    pub horizontal_load_y: Option<i64>,
    pub moment_x: Option<i64>,
    pub moment_y: Option<i64>,
    pub vertical_load: Option<i64>,
}

impl Default for Loads {
    fn default() -> (r: Loads)
        ensures
            r == (Loads {
                service_load: None,
                ultimate_load: None,
                seismic_load: None,
                horizontal_load_x: None,
                horizontal_load_y: None,
                moment_x: None,
                moment_y: None,
                vertical_load: None,
            }),
    {
        Loads {
            service_load: None,
            ultimate_load: None,
            seismic_load: None,
            horizontal_load_x: None,
            horizontal_load_y: None,
            moment_x: None,
            moment_y: None,
            vertical_load: None,
        }
    }
}

/// The stress envelope of one load case.
pub open spec fn case_of(l: Loads, load_case: LoadCase) -> Option<Stress> {
    match load_case {
        LoadCase::ServiceLoad => l.service_load,
        LoadCase::UltimateLoad => l.ultimate_load,
        LoadCase::SeismicLoad => l.seismic_load,
    }
}

/// The stress value one severity selects from an envelope, an absent value
/// reading as zero.
pub open spec fn severity_of(s: Stress, load_severity: SelectionMethod) -> int {
    let v = match load_severity {
        SelectionMethod::Min => s.min,
        SelectionMethod::Avg => s.avg,
        SelectionMethod::Max => s.max,
    };
    if v is Some {
        v->0 as int
    } else {
        0
    }
}

/// The error that validating one named field of `Loads` reports.
pub open spec fn loads_field_error(l: Loads, f: Seq<char>) -> Option<(Seq<char>, Seq<char>)> {
    if f == "horizontal_load_x"@ {
        field_error(f, l.horizontal_load_x, Some(0), None, "loads"@)
    } else if f == "horizontal_load_y"@ {
        field_error(f, l.horizontal_load_y, Some(0), None, "loads"@)
    } else if f == "moment_x"@ {
        field_error(f, l.moment_x, Some(0), None, "loads"@)
    } else if f == "moment_y"@ {
        field_error(f, l.moment_y, Some(0), None, "loads"@)
    } else if f == "vertical_load"@ {
        field_error(f, l.vertical_load, Some(0), None, "loads"@)
    } else if f == "service_load"@ {
        match l.service_load {
            Some(s) => stress_error(s),
            None => Some(("loads.service_load_not_set"@, "Service load is not set."@)),
        }
    } else if f == "ultimate_load"@ {
        match l.ultimate_load {
            Some(s) => stress_error(s),
            None => Some(("loads.ultimate_load_not_set"@, "Ultimate load is not set."@)),
        }
    } else if f == "seismic_load"@ {
        match l.seismic_load {
            Some(s) => stress_error(s),
            None => Some(("loads.seismic_load_not_set"@, "Seismic load is not set."@)),
        }
    } else {
        Some(("loads.invalid_field"@, "Field '"@ + f + "' is not valid for Loads."@))
    }
}

impl Loads {
    /// Get the vertical stress for the specified load case and severity; an
    /// absent stress value reads as zero.
    ///
    /// # Arguments
    /// * `load_case` - Load case
    /// * `load_severity` - Load severity
    ///
    /// # Returns
    /// * Vertical stress value
    pub fn get_vertical_stress(&self, load_case: LoadCase, load_severity: SelectionMethod) -> (r:
        i64)
        requires
            case_of(*self, load_case) is Some,
        ensures
            r as int == severity_of(case_of(*self, load_case)->0, load_severity),
    {
        let stress = match load_case {
            LoadCase::ServiceLoad => self.service_load.unwrap(),
            LoadCase::UltimateLoad => self.ultimate_load.unwrap(),
            LoadCase::SeismicLoad => self.seismic_load.unwrap(),
        };
        let v = match load_severity {
            SelectionMethod::Min => stress.min,
            SelectionMethod::Avg => stress.avg,
            SelectionMethod::Max => stress.max,
        };
        match v {
            Some(x) => x,
            None => 0,
        }
    }

    /// Calculates the eccentricity of the loading: each moment divided by the
    /// vertical load, rounded to the scale. Without a positive vertical load,
    /// or without both moments, the eccentricities are zero.
    ///
    /// # Returns
    /// * `(ex, ey)` - Eccentricities.
    pub fn calc_eccentricity(&self) -> (r: (i64, i64))
        requires
            self.vertical_load matches Some(v) ==> 0 <= v <= MAX_VALUE,
            self.moment_x matches Some(m) ==> 0 <= m <= MAX_VALUE,
            self.moment_y matches Some(m) ==> 0 <= m <= MAX_VALUE,
        ensures
            (self.vertical_load is None || self.vertical_load->0 == 0 || self.moment_x is None
                || self.moment_y is None) ==> r == (0i64, 0i64),
            (self.vertical_load matches Some(v) && v != 0 && (self.moment_x matches Some(mx) && (
            self.moment_y matches Some(my) && {
                &&& r.0 as int == rounded_div(mx * 1000, v as int)
                &&& r.1 as int == rounded_div(my * 1000, v as int)
            }))) || self.vertical_load is None || self.vertical_load->0 == 0 || self.moment_x
                is None || self.moment_y is None,
    {
        let v = match self.vertical_load {
            Some(v) => v,
            None => {
                return (0, 0);
            },
        };
        if v == 0 {
            return (0, 0);
        }
        if let (Some(mx), Some(my)) = (self.moment_x, self.moment_y) {
            let ex = div_round_half_up(mx * 1000, v);
            let ey = div_round_half_up(my * 1000, v);
            (ex, ey)
        } else {
            (0, 0)
        }
    }

    /// Validates specific fields of the Loads using field names.
    /// This enables context-specific validation like `["vertical_load", "moment_x"]`.
    ///
    /// # Arguments
    /// * `fields` - A slice of field names to validate.
    ///
    /// # Returns
    /// Ok(()) if all fields are valid, or the first error found.
    pub fn validate(&self, fields: &[&str]) -> (r: Result<(), ValidationError>)
        ensures
            ({
                let e = first_field_error(
                    field_views(fields@),
                    |f: Seq<char>| loads_field_error(*self, f),
                );
                &&& r is Ok <==> e is None
                &&& r is Err ==> e == Some((r->Err_0.code@, r->Err_0.message@))
            }),
    {
        let ghost check = |f: Seq<char>| loads_field_error(*self, f);
        let ghost views = field_views(fields@);
        let mut i: usize = 0;
        while i < fields.len()
            invariant
                0 <= i <= fields@.len(),
                views == field_views(fields@),
                check == (|f: Seq<char>| loads_field_error(*self, f)),
                forall|j: int| 0 <= j < i ==> check(#[trigger] views[j]) is None,
            decreases fields@.len() - i,
        {
            let field = fields[i];
            let result: Result<(), ValidationError> = if str_eq(field, "horizontal_load_x") {
                validate_field("horizontal_load_x", self.horizontal_load_x, Some(0), None, "loads")
            } else if str_eq(field, "horizontal_load_y") {
                validate_field("horizontal_load_y", self.horizontal_load_y, Some(0), None, "loads")
            } else if str_eq(field, "moment_x") {
                validate_field("moment_x", self.moment_x, Some(0), None, "loads")
            } else if str_eq(field, "moment_y") {
                validate_field("moment_y", self.moment_y, Some(0), None, "loads")
            } else if str_eq(field, "vertical_load") {
                validate_field("vertical_load", self.vertical_load, Some(0), None, "loads")
            } else if str_eq(field, "service_load") {
                match self.service_load {
                    Some(s) => s.validate(),
                    None => Err(
                        ValidationError {
                            code: String::from_str("loads.service_load_not_set"),
                            message: String::from_str("Service load is not set."),
                        },
                    ),
                }
            } else if str_eq(field, "ultimate_load") {
                match self.ultimate_load {
                    Some(s) => s.validate(),
                    None => Err(
                        ValidationError {
                            code: String::from_str("loads.ultimate_load_not_set"),
                            message: String::from_str("Ultimate load is not set."),
                        },
                    ),
                }
            } else if str_eq(field, "seismic_load") {
                match self.seismic_load {
                    Some(s) => s.validate(),
                    None => Err(
                        ValidationError {
                            code: String::from_str("loads.seismic_load_not_set"),
                            message: String::from_str("Seismic load is not set."),
                        },
                    ),
                }
            } else {
                let mut msg = String::from_str("Field '");
                msg.append(field);
                msg.append("' is not valid for Loads.");
                proof {
                    assert(msg@ =~= "Field '"@ + field@ + "' is not valid for Loads."@);
                }
                Err(ValidationError { code: String::from_str("loads.invalid_field"), message: msg })
            };
            proof {
                assert(views[i as int] == field@);
            }
            match result {
                Ok(()) => {},
                Err(e) => {
                    proof {
                        lemma_first_error_skip(views, check, i as int);
                        assert(views.skip(i as int)[0] == views[i as int]);
                    }
                    return Err(e);
                },
            }
            i = i + 1;
        }
        proof {
            lemma_first_error_skip(views, check, fields@.len() as int);
            assert(views.skip(views.len() as int) =~= Seq::<Seq<char>>::empty());
        }
        Ok(())
    }
}

} // verus!
