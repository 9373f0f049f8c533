//! Plain-message variant of the bounds-check primitive, and linear
//! interpolation over scaled-integer samples.
use vstd::prelude::*;
use vstd::string::*;

use crate::text::{spec_dec_signed, to_dec_i64};

verus! {

/// Message reported when the value is absent.
pub open spec fn plain_msg_missing(field: Seq<char>) -> Seq<char> {
    field + " must be provided."@
}

/// Message reported when the value is below its minimum.
pub open spec fn plain_msg_too_small(field: Seq<char>, bound: int) -> Seq<char> {
    field + " must be ≥ "@ + spec_dec_signed(bound) + "."@
}

/// Message reported when the value is above its maximum.
pub open spec fn plain_msg_too_large(field: Seq<char>, bound: int) -> Seq<char> {
    field + " must be ≤ "@ + spec_dec_signed(bound) + "."@
}

/// The exact message that `validate_field` reports, `None` when the value is accepted.
pub open spec fn plain_error(
    field: Seq<char>,
    value: Option<i64>,
    min: Option<i64>,
    max: Option<i64>,
) -> Option<Seq<char>> {
    if value is None {
        Some(plain_msg_missing(field))
    } else if min is Some && value->0 < min->0 {
        Some(plain_msg_too_small(field, min->0 as int))
    } else if max is Some && value->0 > max->0 {
        Some(plain_msg_too_large(field, max->0 as int))
    } else {
        None
    }
}

/// Validates a single optional scaled-integer value against optional bounds.
///
/// # Arguments
/// * `field_name` - Field name for use in the error message.
/// * `value` - Value to validate, if present.
/// * `min` - Optional minimum bound (inclusive).
/// * `max` - Optional maximum bound (inclusive).
///
/// # Returns
/// * `Ok(())` if the value is present and within bounds, otherwise `Err(String)`
pub fn validate_field(
    field_name: &str,
    value: Option<i64>,
    min: Option<i64>,
    max: Option<i64>,
) -> (r: Result<(), String>)
    ensures
        r is Ok <==> crate::validation::field_ok(value, min, max),
        r is Err ==> {
            let e = plain_error(field_name@, value, min, max);
            &&& e is Some
            &&& r->Err_0@ == e->0
        },
{
    let val = match value {
        Some(v) => v,
        None => {
            let mut s = String::from_str(field_name);
            s.append(" must be provided.");
            proof {
                assert(s@ =~= plain_msg_missing(field_name@));
            }
            return Err(s);
        },
    };
    if let Some(min_val) = min {
        if val < min_val {
            let mut s = String::from_str(field_name);
            s.append(" must be ≥ ");
            s.append(to_dec_i64(min_val).as_str());
            s.append(".");
            proof {
                assert(s@ =~= plain_msg_too_small(field_name@, min_val as int));
            }
            return Err(s);
        }
    }
    if let Some(max_val) = max {
        if val > max_val {
            let mut s = String::from_str(field_name);
            s.append(" must be ≤ ");
            s.append(to_dec_i64(max_val).as_str());
            s.append(".");
            proof {
                assert(s@ =~= plain_msg_too_large(field_name@, max_val as int));
            }
            return Err(s);
        }
    }
    Ok(())
}

} // verus!
