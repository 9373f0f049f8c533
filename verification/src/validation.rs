//! Structured validation errors and the uniform bounds-check primitive.
//!
//! Scalar fields are carried as scaled integers (thousandths of the base
//! unit), so bounds are scaled the same way and appear in codes and messages
//! as the scaled integer.
use vstd::prelude::*;
use vstd::string::*;

use crate::text::{spec_dec_signed, to_dec_i64};

verus! {

/// A machine-readable error: `code` has the shape
/// `"<entity>.<field>.<reason>[.<bound>]"`, `message` is an English fallback.
#[derive(Debug, Clone)]
pub struct ValidationError {
    pub code: String,
    pub message: String,
}

/// Code for a field that is absent.
pub open spec fn code_missing(prefix: Seq<char>, field: Seq<char>) -> Seq<char> {
    prefix + "."@ + field + "."@ + "missing"@
}

/// Code for a field outside a declared bound; `reason` is `"too_small"` or
/// `"too_large"` and `bound` the violated bound.
pub open spec fn code_bound(
    prefix: Seq<char>,
    field: Seq<char>,
    reason: Seq<char>,
    bound: int,
) -> Seq<char> {
    prefix + "."@ + field + "."@ + reason + "."@ + spec_dec_signed(bound)
}

/// Message for a field that is absent.
pub open spec fn msg_missing(field: Seq<char>) -> Seq<char> {
    field + " must be provided."@
}

/// Message for a field below its minimum.
pub open spec fn msg_too_small(field: Seq<char>, bound: int) -> Seq<char> {
    field + " must be greater than or equal to "@ + spec_dec_signed(bound) + "."@
}

/// Message for a field above its maximum.
pub open spec fn msg_too_large(field: Seq<char>, bound: int) -> Seq<char> {
    field + " must be less than or equal to "@ + spec_dec_signed(bound) + "."@
}

/// The condition under which a bounded optional field is accepted.
pub open spec fn field_ok(value: Option<i64>, min: Option<i64>, max: Option<i64>) -> bool {
    &&& value is Some
    &&& (min is Some ==> value->0 >= min->0)
    &&& (max is Some ==> value->0 <= max->0)
}

/// The exact error that `validate_field` reports, `None` when the field is accepted.
pub open spec fn field_error(
    field: Seq<char>,
    value: Option<i64>,
    min: Option<i64>,
    max: Option<i64>,
    prefix: Seq<char>,
) -> Option<(Seq<char>, Seq<char>)> {
    if value is None {
        Some((code_missing(prefix, field), msg_missing(field)))
    } else if min is Some && value->0 < min->0 {
        Some(
            (
                code_bound(prefix, field, "too_small"@, min->0 as int),
                msg_too_small(field, min->0 as int),
            ),
        )
    } else if max is Some && value->0 > max->0 {
        Some(
            (
                code_bound(prefix, field, "too_large"@, max->0 as int),
                msg_too_large(field, max->0 as int),
            ),
        )
    } else {
        None
    }
}

fn make_code_missing(prefix: &str, field: &str) -> (r: String)
    ensures
        r@ == code_missing(prefix@, field@),
{
    let mut s = String::from_str(prefix);
    s.append(".");
    s.append(field);
    s.append(".");
    s.append("missing");
    proof {
        assert(s@ =~= code_missing(prefix@, field@));
    }
    s
}

fn make_code_bound(prefix: &str, field: &str, reason: &str, bound: i64) -> (r: String)
    ensures
        r@ == code_bound(prefix@, field@, reason@, bound as int),
{
    let mut s = String::from_str(prefix);
    s.append(".");
    s.append(field);
    s.append(".");
    s.append(reason);
    s.append(".");
    s.append(to_dec_i64(bound).as_str());
    proof {
        assert(s@ =~= code_bound(prefix@, field@, reason@, bound as int));
    }
    s
}

fn make_msg_missing(field: &str) -> (r: String)
    ensures
        r@ == msg_missing(field@),
{
    let mut s = String::from_str(field);
    s.append(" must be provided.");
    proof {
        assert(s@ =~= msg_missing(field@));
    }
    s
}

fn make_msg_too_small(field: &str, bound: i64) -> (r: String)
    ensures
        r@ == msg_too_small(field@, bound as int),
{
    let mut s = String::from_str(field);
    s.append(" must be greater than or equal to ");
    s.append(to_dec_i64(bound).as_str());
    s.append(".");
    proof {
        assert(s@ =~= msg_too_small(field@, bound as int));
    }
    s
}

fn make_msg_too_large(field: &str, bound: i64) -> (r: String)
    ensures
        r@ == msg_too_large(field@, bound as int),
{
    let mut s = String::from_str(field);
    s.append(" must be less than or equal to ");
    s.append(to_dec_i64(bound).as_str());
    s.append(".");
    proof {
        assert(s@ =~= msg_too_large(field@, bound as int));
    }
    s
}

/// Validates a single optional scaled-integer field against optional bounds,
/// returning a structured error.
///
/// # Arguments
/// * `field_name` - A name for the field (e.g. "cu")
/// * `value` - Value to validate, if present
/// * `min` - Optional minimum value (inclusive)
/// * `max` - Optional maximum value (inclusive)
/// * `error_code_prefix` - A short prefix for generating the error code, e.g., "layer"
///
/// # Returns
/// Ok(()) if valid, Err(ValidationError) otherwise
pub fn validate_field(
    field_name: &str,
    value: Option<i64>,
    min: Option<i64>,
    max: Option<i64>,
    error_code_prefix: &str,
) -> (r: Result<(), ValidationError>)
    ensures
        r is Ok <==> field_ok(value, min, max),
        r is Err ==> {
            let e = field_error(field_name@, value, min, max, error_code_prefix@);
            &&& e is Some
            &&& r->Err_0.code@ == (e->0).0
            &&& r->Err_0.message@ == (e->0).1
        },
{
    let val = match value {
        Some(v) => v,
        None => {
            return Err(
                ValidationError {
                    code: make_code_missing(error_code_prefix, field_name),
                    message: make_msg_missing(field_name),
                },
            );
        },
    };
    if let Some(min_val) = min {
        if val < min_val {
            return Err(
                ValidationError {
                    code: make_code_bound(error_code_prefix, field_name, "too_small", min_val),
                    message: make_msg_too_small(field_name, min_val),
                },
            );
        }
    }
    if let Some(max_val) = max {
        if val > max_val {
            return Err(
                ValidationError {
                    code: make_code_bound(error_code_prefix, field_name, "too_large", max_val),
                    message: make_msg_too_large(field_name, max_val),
                },
            );
        }
    }
    Ok(())
}

/// The character sequences of a list of field names.
pub open spec fn field_views(fields: Seq<&str>) -> Seq<Seq<char>> {
    fields.map_values(|s: &str| s@)
}

/// The first error that checking the named fields in order reports, `None`
/// when every field passes; `check` is the per-field rule of one record type.
pub open spec fn first_field_error(
    fields: Seq<Seq<char>>,
    check: spec_fn(Seq<char>) -> Option<(Seq<char>, Seq<char>)>,
) -> Option<(Seq<char>, Seq<char>)>
    decreases fields.len(),
{
    if fields.len() == 0 {
        None
    } else if check(fields[0]) is Some {
        check(fields[0])
    } else {
        first_field_error(fields.drop_first(), check)
    }
}

/// A scan that has passed the first `i` fields without an error continues as
/// if it had started at `i`.
pub proof fn lemma_first_error_skip(
    fields: Seq<Seq<char>>,
    check: spec_fn(Seq<char>) -> Option<(Seq<char>, Seq<char>)>,
    i: int,
)
    requires
        0 <= i <= fields.len(),
        forall|j: int| 0 <= j < i ==> check(#[trigger] fields[j]) is None,
    ensures
        first_field_error(fields, check) == first_field_error(fields.skip(i), check),
    decreases i,
{
    if i == 0 {
        assert(fields.skip(0) =~= fields);
    } else {
        lemma_first_error_skip(fields, check, i - 1);
        let s1 = fields.skip(i - 1);
        assert(s1[0] == fields[i - 1]);
        assert(check(s1[0]) is None);
        assert(s1.drop_first() =~= fields.skip(i));
        assert(first_field_error(s1, check) == first_field_error(s1.drop_first(), check));
    }
}

impl ValidationError {
    /// The combined rendering `"[<code>] <message>"`.
    pub open spec fn spec_text(&self) -> Seq<char> {
        "["@ + self.code@ + "] "@ + self.message@
    }

    /// Renders the error as `"[<code>] <message>"`.
    pub fn to_text(&self) -> (r: String)
        ensures
            r@ == self.spec_text(),
    {
        let mut s = String::from_str("[");
        s.append(self.code.as_str());
        s.append("] ");
        s.append(self.message.as_str());
        proof {
            assert(s@ =~= self.spec_text());
        }
        s
    }
}

} // verus!
