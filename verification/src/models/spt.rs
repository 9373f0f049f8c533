//! SPT (Standard Penetration Test) data: blow counts with a refusal sentinel,
//! depth-tagged blows, one sequence per borehole, and the reduction of several
//! boreholes into one idealized experiment. Depths are in thousandths of a
//! metre, correction factors in thousandths.
use vstd::prelude::*;

use crate::aggregate::{
    insert_sorted, lemma_mean_bounds, lemma_min_max_elem, lemma_min_max_le,
    lemma_sample_index_props, lemma_sample_skip, lemma_sorted_unique_eq, mean_rounded,
    lemma_reduce_singleton, lemma_sample_index_own_key, sample_index, seq_max, seq_min, seq_sum,
    strictly_increasing, MAX_DIMENSION,
};
use crate::enums::SelectionMethod;
use crate::text::{spec_dec_signed, str_eq, to_dec_i64};
use crate::validation::{
    field_error, field_views, first_field_error, lemma_first_error_skip, validate_field,
    ValidationError,
};

verus! {

/// Largest blow-count value the correction helpers accept.
pub const MAX_BLOW_VALUE: i64 = 1_000_000;

/// Largest scaled correction factor the correction helpers accept.
pub const MAX_FACTOR: i64 = 1_000_000;

/// A measured blow count, or the refusal sentinel recording that the test was
/// terminated without reaching the full count.
#[derive(Debug, Clone, Copy, PartialEq, Eq, Structural)]
pub enum NValue {
    Value(i32),
    Refusal,
}

/// The numeric reading of a blow count: a refusal reads as the fixed ceiling
/// of 50 blows.
pub open spec fn nv_to_int(v: NValue) -> int {
    match v {
        NValue::Value(n) => n as int,
        NValue::Refusal => 50,
    }
}

/// The reduction order on blow counts: a refusal outranks every finite count.
pub open spec fn nv_le(a: NValue, b: NValue) -> bool {
    match (a, b) {
        (_, NValue::Refusal) => true,
        (NValue::Refusal, NValue::Value(_)) => false,
        (NValue::Value(x), NValue::Value(y)) => x <= y,
    }
}

/// Smallest blow count of a non-empty sequence under the refusal-topped order.
pub open spec fn nv_min_seq(s: Seq<NValue>) -> NValue
    recommends
        s.len() > 0,
    decreases s.len(),
{
    if s.len() <= 1 {
        s[0]
    } else {
        let m = nv_min_seq(s.drop_last());
        if nv_le(m, s.last()) {
            m
        } else {
            s.last()
        }
    }
}

/// Largest blow count of a non-empty sequence under the refusal-topped order.
pub open spec fn nv_max_seq(s: Seq<NValue>) -> NValue
    recommends
        s.len() > 0,
    decreases s.len(),
{
    if s.len() <= 1 {
        s[0]
    } else {
        let m = nv_max_seq(s.drop_last());
        if nv_le(m, s.last()) {
            s.last()
        } else {
            m
        }
    }
}

/// The numeric readings of a sequence of blow counts.
pub open spec fn nv_ints(s: Seq<NValue>) -> Seq<i64> {
    s.map_values(|v: NValue| nv_to_int(v) as i64)
}

/// What one aggregation policy makes of the blow counts sampled at one depth:
/// minimum and maximum under the refusal-topped order; the average first maps
/// a refusal to its 50-blow ceiling, then takes the rounded mean.
pub open spec fn nv_reduce(mode: SelectionMethod, s: Seq<NValue>) -> NValue {
    match mode {
        SelectionMethod::Min => nv_min_seq(s),
        SelectionMethod::Max => nv_max_seq(s),
        SelectionMethod::Avg => NValue::Value(mean_rounded(nv_ints(s)) as i32),
    }
}

/// Every element lies between the minimum and the maximum, which are
/// themselves elements.
pub proof fn lemma_nv_min_max(s: Seq<NValue>, i: int)
    requires
        0 <= i < s.len(),
    ensures
        nv_le(nv_min_seq(s), s[i]),
        nv_le(s[i], nv_max_seq(s)),
        s.contains(nv_min_seq(s)),
        s.contains(nv_max_seq(s)),
    decreases s.len(),
{
    if s.len() <= 1 {
        assert(s[0] == nv_min_seq(s));
    } else {
        lemma_nv_min_max(s.drop_last(), 0);
        if i < s.len() - 1 {
            lemma_nv_min_max(s.drop_last(), i);
            assert(s.drop_last()[i] == s[i]);
        }
        if s.drop_last().contains(nv_min_seq(s)) {
            let k = choose|k: int|
                0 <= k < s.drop_last().len() && s.drop_last()[k] == nv_min_seq(s);
            assert(s[k] == nv_min_seq(s));
        }
        if s.drop_last().contains(nv_max_seq(s)) {
            let k = choose|k: int|
                0 <= k < s.drop_last().len() && s.drop_last()[k] == nv_max_seq(s);
            assert(s[k] == nv_max_seq(s));
        }
    }
}

impl NValue {
    /// Converts from `i32` to `NValue`; only positive counts are meaningful.
    pub fn from_i32(n: i32) -> (r: NValue)
        requires
            n > 0,
        ensures
            r == NValue::Value(n),
    {
        NValue::Value(n)
    }

    /// Converts to `i32`, reading a refusal as 50.
    pub fn to_i32(self) -> (r: i32)
        ensures
            r as int == nv_to_int(self),
    {
        match self {
            NValue::Value(n) => n,
            NValue::Refusal => 50,
        }
    }

    /// Converts to `Option<i32>`, treating Refusal as 50.
    pub fn to_option(self) -> (r: Option<i32>)
        ensures
            r is Some,
            r->0 as int == nv_to_int(self),
    {
        match self {
            NValue::Value(n) => Some(n),
            NValue::Refusal => Some(50),
        }
    }

    /// Sum up with another NValue; any refusal makes the sum a refusal.
    pub fn sum_with(self, other: NValue) -> (r: NValue)
        requires
            self matches NValue::Value(a) && other matches NValue::Value(b) ==> i32::MIN <= a + b
                <= i32::MAX,
        ensures
            r == nv_sum_with(self, other),
    {
        match (self, other) {
            (NValue::Value(n1), NValue::Value(n2)) => NValue::Value(n1 + n2),
            _ => NValue::Refusal,
        }
    }

    /// Multiplies a finite count by a factor in thousandths, rounding the
    /// result up; a refusal stays a refusal.
    pub fn mul_by_milli(self, factor: i64) -> (r: NValue)
        requires
            0 <= factor,
            self matches NValue::Value(v) ==> 0 <= v && (v as int) * (factor as int)
                <= 2_000_000_000_000,
        ensures
            r == nv_mul_milli(self, factor as int),
    {
        match self {
            NValue::Value(n) => {
                proof {
                    assert((n as int) * (factor as int) >= 0) by (nonlinear_arith)
                        requires n >= 0, factor >= 0;
                }
                let p: i64 = (n as i64) * factor;
                let q: u64 = ((p as u64) + 999) / 1000;
                proof {
                    vstd::arithmetic::div_mod::lemma_div_is_ordered(
                        p as int + 999,
                        2_000_000_000_999,
                        1000,
                    );
                    assert(2_000_000_000_999int / 1000 == 2_000_000_000);
                }
                NValue::Value(q as i32)
            },
            NValue::Refusal => NValue::Refusal,
        }
    }

    /// Adds an amount in thousandths to a finite count, rounding the result
    /// up; a refusal stays a refusal.
    pub fn add_milli(self, other: i64) -> (r: NValue)
        requires
            0 <= other <= MAX_FACTOR,
            self matches NValue::Value(v) ==> 0 <= v <= MAX_BLOW_VALUE * 2,
        ensures
            r == nv_add_milli(self, other as int),
    {
        match self {
            NValue::Value(n) => {
                let q: u64 = ((other as u64) + 999) / 1000;
                proof {
                    vstd::arithmetic::div_mod::lemma_div_is_ordered(
                        other as int + 999,
                        1_000_999,
                        1000,
                    );
                    assert(1_000_999int / 1000 == 1000);
                }
                NValue::Value(n + q as i32)
            },
            NValue::Refusal => NValue::Refusal,
        }
    }

    /// Renders the count as text: the decimal digits of a finite count, `R`
    /// for a refusal.
    pub fn text(self) -> (r: String)
        ensures
            self matches NValue::Value(n) ==> r@ == spec_dec_signed(n as int),
            self is Refusal ==> r@ == "R"@,
    {
        match self {
            NValue::Value(n) => to_dec_i64(n as i64),
            NValue::Refusal => String::from_str("R"),
        }
    }
}

/// The sum of two blow counts; any refusal makes the sum a refusal.
pub open spec fn nv_sum_with(a: NValue, b: NValue) -> NValue {
    match (a, b) {
        (NValue::Value(n1), NValue::Value(n2)) => NValue::Value((n1 + n2) as i32),
        _ => NValue::Refusal,
    }
}

/// A finite count scaled by a factor in thousandths, rounded up.
pub open spec fn nv_mul_milli(v: NValue, factor: int) -> NValue {
    match v {
        NValue::Value(n) => NValue::Value(((n * factor + 999) / 1000) as i32),
        NValue::Refusal => NValue::Refusal,
    }
}

/// A finite count plus an amount in thousandths, rounded up.
pub open spec fn nv_add_milli(v: NValue, other: int) -> NValue {
    match v {
        NValue::Value(n) => NValue::Value((n + (other + 999) / 1000) as i32),
        NValue::Refusal => NValue::Refusal,
    }
}

impl Default for NValue {
    fn default() -> (r: NValue)
        ensures
            r == NValue::Value(0),
    {
        NValue::Value(0)
    }
}

impl PartialOrd for NValue {
    fn partial_cmp(&self, other: &NValue) -> (r: Option<core::cmp::Ordering>) {
        Some(
            match (self, other) {
                (NValue::Refusal, NValue::Refusal) => core::cmp::Ordering::Equal,
                (NValue::Refusal, _) => core::cmp::Ordering::Greater,
                (_, NValue::Refusal) => core::cmp::Ordering::Less,
                (NValue::Value(a), NValue::Value(b)) => {
                    if a < b {
                        core::cmp::Ordering::Less
                    } else if a == b {
                        core::cmp::Ordering::Equal
                    } else {
                        core::cmp::Ordering::Greater
                    }
                },
            },
        )
    }
}

impl vstd::std_specs::cmp::PartialOrdSpecImpl for NValue {
    open spec fn obeys_partial_cmp_spec() -> bool {
        true
    }

    open spec fn partial_cmp_spec(&self, other: &NValue) -> Option<core::cmp::Ordering> {
        Some(
            match (*self, *other) {
                (NValue::Refusal, NValue::Refusal) => core::cmp::Ordering::Equal,
                (NValue::Refusal, _) => core::cmp::Ordering::Greater,
                (_, NValue::Refusal) => core::cmp::Ordering::Less,
                (NValue::Value(a), NValue::Value(b)) => {
                    if a < b {
                        core::cmp::Ordering::Less
                    } else if a == b {
                        core::cmp::Ordering::Equal
                    } else {
                        core::cmp::Ordering::Greater
                    }
                },
            },
        )
    }
}

/// Reduces the blow counts sampled from every borehole at one depth under the
/// given policy.
pub fn reduce_n(mode: SelectionMethod, values: &Vec<NValue>) -> (r: NValue)
    requires
        values@.len() > 0,
        forall|i: int| 0 <= i < values@.len() ==> (#[trigger] values@[i] matches NValue::Value(v)
            ==> v >= 1),
    ensures
        r == nv_reduce(mode, values@),
{
    let n = values.len();
    match mode {
        SelectionMethod::Min => {
            let mut m: NValue = values[0];
            let mut i: usize = 1;
            while i < n
                invariant
                    n == values@.len(),
                    1 <= i <= n,
                    m == nv_min_seq(values@.take(i as int)),
                decreases n - i,
            {
                proof {
                    assert(values@.take(i + 1).drop_last() =~= values@.take(i as int));
                }
                let keep = match (m, values[i]) {
                    (_, NValue::Refusal) => true,
                    (NValue::Refusal, NValue::Value(_)) => false,
                    (NValue::Value(x), NValue::Value(y)) => x <= y,
                };
                if !keep {
                    m = values[i];
                }
                i = i + 1;
            }
            proof {
                assert(values@.take(n as int) =~= values@);
            }
            m
        },
        SelectionMethod::Max => {
            let mut m: NValue = values[0];
            let mut i: usize = 1;
            while i < n
                invariant
                    n == values@.len(),
                    1 <= i <= n,
                    m == nv_max_seq(values@.take(i as int)),
                decreases n - i,
            {
                proof {
                    assert(values@.take(i + 1).drop_last() =~= values@.take(i as int));
                }
                let take_new = match (m, values[i]) {
                    (_, NValue::Refusal) => true,
                    (NValue::Refusal, NValue::Value(_)) => false,
                    (NValue::Value(x), NValue::Value(y)) => x <= y,
                };
                if take_new {
                    m = values[i];
                }
                i = i + 1;
            }
            proof {
                assert(values@.take(n as int) =~= values@);
            }
            m
        },
        SelectionMethod::Avg => {
            let ghost ints = nv_ints(values@);
            proof {
                assert forall|k: int| 0 <= k < ints.len() implies 1 <= #[trigger] ints[k]
                    <= i32::MAX as i64 by {
                    assert(ints[k] as int == nv_to_int(values@[k]));
                }
            }
            let mut sum: u128 = 0;
            let mut i: usize = 0;
            while i < n
                invariant
                    n == values@.len(),
                    ints == nv_ints(values@),
                    forall|k: int| 0 <= k < ints.len() ==> 1 <= #[trigger] ints[k]
                        <= i32::MAX as i64,
                    0 <= i <= n,
                    sum as int == seq_sum(ints.take(i as int)),
                    sum as int <= i * (i32::MAX as int),
                decreases n - i,
            {
                proof {
                    assert(ints.take(i + 1).drop_last() =~= ints.take(i as int));
                    assert(ints[i as int] as int == nv_to_int(values@[i as int]));
                    assert((i + 1) * (i32::MAX as int) == i * (i32::MAX as int) + i32::MAX as int)
                        by (nonlinear_arith);
                    assert(i * (i32::MAX as int) <= usize::MAX * (i32::MAX as int))
                        by (nonlinear_arith)
                        requires 0 <= i <= usize::MAX as int;
                }
                let v = values[i].to_i32();
                sum = sum + v as u128;
                i = i + 1;
            }
            proof {
                assert(ints.take(n as int) =~= ints);
                assert(n as int * (i32::MAX as int) <= usize::MAX * (i32::MAX as int))
                    by (nonlinear_arith)
                    requires 0 <= n as int <= usize::MAX as int;
                lemma_mean_bounds(ints);
                lemma_min_max_elem(ints);
                let ka = choose|k: int| 0 <= k < ints.len() && ints[k] == seq_min(ints);
                let kb = choose|k: int| 0 <= k < ints.len() && ints[k] == seq_max(ints);
            }
            let q: u128 = (2 * sum + n as u128) / (2 * n as u128);
            NValue::Value(q as i32)
        },
    }
}

// -------------------------------------------------------------------------------------------
/// One SPT blow: the recorded depth and the blow counts measured there, with
/// the counts derived from them by the energy corrections.
#[derive(Debug, Clone, Copy)]
pub struct SPTBlow {
    pub thickness: Option<i64>,
    pub depth: Option<i64>,
    pub n1: Option<NValue>,
    pub n2: Option<NValue>,
    pub n3: Option<NValue>,
    pub n: Option<NValue>,
    pub n60: Option<NValue>,
    pub n90: Option<NValue>,
}

/// A blow with every field absent.
pub open spec fn empty_blow() -> SPTBlow {
    SPTBlow {
        thickness: None,
        depth: None,
        n1: None,
        n2: None,
        n3: None,
        n: None,
        n60: None,
        n90: None,
    }
}

impl Default for SPTBlow {
    fn default() -> (r: SPTBlow)
        ensures
            r == empty_blow(),
    {
        SPTBlow {
            thickness: None,
            depth: None,
            n1: None,
            n2: None,
            n3: None,
            n: None,
            n60: None,
            n90: None,
        }
    }
}

/// The error that validating one named field of an `SPTBlow` reports.
pub open spec fn spt_blow_field_error(b: SPTBlow, f: Seq<char>) -> Option<(Seq<char>, Seq<char>)> {
    if f == "depth"@ {
        field_error(f, b.depth, Some(0), None, "spt"@)
    } else if f == "thickness"@ {
        field_error(f, b.thickness, Some(0), None, "spt"@)
    } else if f == "n1"@ {
        nv_field_error(f, b.n1, "spt.n1.missing"@, "N1 value is missing in SptBlow"@)
    } else if f == "n2"@ {
        nv_field_error(f, b.n2, "spt.n2.missing"@, "N2 value is missing in SptBlow"@)
    } else if f == "n3"@ {
        nv_field_error(f, b.n3, "spt.n3.missing"@, "N3 value is missing in SptBlow"@)
    } else if f == "n"@ {
        nv_field_error(f, b.n, "spt.n.missing"@, "N value is missing in SptBlow"@)
    } else {
        Some(("spt.invalid_field"@, "Field '"@ + f + "' is not valid for Loads."@))
    }
}

/// The error that validating one optional blow count reports: absent counts
/// get the named code, present ones must read at least one blow.
pub open spec fn nv_field_error(
    f: Seq<char>,
    v: Option<NValue>,
    missing_code: Seq<char>,
    missing_msg: Seq<char>,
) -> Option<(Seq<char>, Seq<char>)> {
    match v {
        Some(nv) => field_error(f, Some((nv_to_int(nv)) as i64), Some(1), None, "spt"@),
        None => Some((missing_code, missing_msg)),
    }
}

impl SPTBlow {
    /// Create a new SPTBlow; the total `n` is the sum of the second and third
    /// counts.
    ///
    /// # Arguments
    /// * `depth` - Depth of the blow
    /// * `n1` - N-value of the first increment
    /// * `n2` - N-value of the second increment
    /// * `n3` - N-value of the third increment
    pub fn new(depth: i64, n1: NValue, n2: NValue, n3: NValue) -> (r: SPTBlow)
        requires
            n2 matches NValue::Value(a) && n3 matches NValue::Value(b) ==> i32::MIN <= a + b
                <= i32::MAX,
        ensures
            r == (SPTBlow {
                depth: Some(depth),
                n1: Some(n1),
                n2: Some(n2),
                n3: Some(n3),
                n: Some(nv_sum_with(n2, n3)),
                ..empty_blow()
            }),
    {
        SPTBlow {
            depth: Some(depth),
            n1: Some(n1),
            n2: Some(n2),
            n3: Some(n3),
            n: Some(n2.sum_with(n3)),
            ..Default::default()
        }
    }

    /// Calculate the total N value from the second and third increments.
    pub fn calc_n(&mut self)
        requires
            old(self).n2 matches Some(NValue::Value(a)) && old(self).n3 matches Some(
                NValue::Value(b),
            ) ==> i32::MIN <= a + b <= i32::MAX,
        ensures
            old(self).n2 is Some && old(self).n3 is Some ==> *final(self) == (SPTBlow {
                n: Some(nv_sum_with(old(self).n2->0, old(self).n3->0)),
                ..*old(self)
            }),
            !(old(self).n2 is Some && old(self).n3 is Some) ==> *final(self) == *old(self),
    {
        if let (Some(n2), Some(n3)) = (self.n2, self.n3) {
            self.n = Some(n2.sum_with(n3));
        }
    }

    /// Apply energy correction: `n60` is the total count scaled by the energy
    /// correction factor, `n90` is `n60` scaled by a further one and a half.
    ///
    /// # Arguments
    /// * `energy_correction_factor` - factor in thousandths converting N to N60
    pub fn apply_energy_correction(&mut self, energy_correction_factor: i64)
        requires
            old(self).n is Some,
            old(self).n->0 matches NValue::Value(v) ==> 0 <= v <= MAX_BLOW_VALUE,
            0 <= energy_correction_factor <= MAX_FACTOR,
        ensures
            *final(self) == (SPTBlow {
                n60: Some(nv_mul_milli(old(self).n->0, energy_correction_factor as int)),
                n90: Some(
                    nv_mul_milli(
                        nv_mul_milli(old(self).n->0, energy_correction_factor as int),
                        1500,
                    ),
                ),
                ..*old(self)
            }),
    {
        proof {
            match old(self).n->0 {
                NValue::Value(v) => {
                    assert((v as int) * (energy_correction_factor as int) <= 1_000_000_000_000)
                        by (nonlinear_arith)
                        requires
                            0 <= v <= MAX_BLOW_VALUE,
                            0 <= energy_correction_factor <= MAX_FACTOR,
                    ;
                },
                NValue::Refusal => {},
            }
        }
        let n60 = self.n.unwrap().mul_by_milli(energy_correction_factor);
        proof {
            match n60 {
                NValue::Value(v60) => {
                    match old(self).n->0 {
                        NValue::Value(v) => {
                            vstd::arithmetic::div_mod::lemma_div_is_ordered(
                                (v as int) * (energy_correction_factor as int) + 999,
                                1_000_000_000_999,
                                1000,
                            );
                            assert(1_000_000_000_999int / 1000 == 1_000_000_000);
                            assert((v60 as int) * 1500 <= 2_000_000_000_000) by (nonlinear_arith)
                                requires 0 <= v60 as int <= 1_000_000_000;
                        },
                        NValue::Refusal => {},
                    }
                },
                NValue::Refusal => {},
            }
        }
        self.n60 = Some(n60);
        self.n90 = Some(n60.mul_by_milli(1500));
    }

    /// Validates specific fields of the SPTBlow using field names.
    ///
    /// # Arguments
    /// * `fields` - A slice of field names to validate.
    ///
    /// # Returns
    /// Ok(()) if all fields are valid, or the first error found.
    pub fn validate(&self, fields: &[&str]) -> (r: Result<(), ValidationError>)
        ensures
            ({
                let e = first_field_error(
                    field_views(fields@),
                    |f: Seq<char>| spt_blow_field_error(*self, f),
                );
                &&& r is Ok <==> e is None
                &&& r is Err ==> e == Some((r->Err_0.code@, r->Err_0.message@))
            }),
    {
        let ghost check = |f: Seq<char>| spt_blow_field_error(*self, f);
        let ghost views = field_views(fields@);
        let mut i: usize = 0;
        while i < fields.len()
            invariant
                0 <= i <= fields@.len(),
                views == field_views(fields@),
                check == (|f: Seq<char>| spt_blow_field_error(*self, f)),
                forall|j: int| 0 <= j < i ==> check(#[trigger] views[j]) is None,
            decreases fields@.len() - i,
        {
            let field = fields[i];
            let result: Result<(), ValidationError> = if str_eq(field, "depth") {
                validate_field("depth", self.depth, Some(0), None, "spt")
            } else if str_eq(field, "thickness") {
                validate_field("thickness", self.thickness, Some(0), None, "spt")
            } else if str_eq(field, "n1") {
                validate_nv("n1", self.n1, "spt.n1.missing", "N1 value is missing in SptBlow")
            } else if str_eq(field, "n2") {
                validate_nv("n2", self.n2, "spt.n2.missing", "N2 value is missing in SptBlow")
            } else if str_eq(field, "n3") {
                validate_nv("n3", self.n3, "spt.n3.missing", "N3 value is missing in SptBlow")
            } else if str_eq(field, "n") {
                validate_nv("n", self.n, "spt.n.missing", "N value is missing in SptBlow")
            } else {
                let mut msg = String::from_str("Field '");
                msg.append(field);
                msg.append("' is not valid for Loads.");
                proof {
                    assert(msg@ =~= "Field '"@ + field@ + "' is not valid for Loads."@);
                }
                Err(ValidationError { code: String::from_str("spt.invalid_field"), message: msg })
            };
            proof {
                assert(views[i as int] == field@);
            }
            match result {
                Ok(()) => {},
                Err(e) => {
                    proof {
                        lemma_first_error_skip(views, check, i as int);
                        assert(views.skip(i as int)[0] == views[i as int]);
                    }
                    return Err(e);
                },
            }
            i = i + 1;
        }
        proof {
            lemma_first_error_skip(views, check, fields@.len() as int);
            assert(views.skip(views.len() as int) =~= Seq::<Seq<char>>::empty());
        }
        Ok(())
    }
}

// -------------------------------------------------------------------------------------------
/// One borehole's SPT log: its blows in depth order, under a name.
#[derive(Debug, Clone)]
pub struct SPTExp {
    pub blows: Vec<SPTBlow>,
    pub name: String,
}

impl SPTExp {
    /// The depth of each blow, in order.
    pub open spec fn depth_keys(&self) -> Seq<i64> {
        self.blows@.map_values(|b: SPTBlow| b.depth->0)
    }

    /// At least one blow, each with a depth.
    pub open spec fn depths_present(&self) -> bool {
        &&& self.blows@.len() > 0
        &&& forall|i: int| 0 <= i < self.blows@.len() ==> (#[trigger] self.blows@[i]).depth is Some
    }

    /// Blows complete and in range, as the idealization engine samples them.
    pub open spec fn records_wf(&self) -> bool {
        &&& self.depths_present()
        &&& forall|i: int| 0 <= i < self.blows@.len() ==> {
            let b = #[trigger] self.blows@[i];
            &&& 0 <= b.depth->0 <= MAX_DIMENSION
            &&& b.n is Some
            &&& (b.n->0 matches NValue::Value(v) ==> v >= 1)
        }
    }

    /// Create a new SPTExp
    ///
    /// # Arguments
    /// * `blows` - List of SPTBlow
    /// * `name` - Name of the experiment
    pub fn new(blows: Vec<SPTBlow>, name: String) -> (r: SPTExp)
        ensures
            r.blows == blows,
            r.name == name,
    {
        SPTExp { blows, name }
    }

    /// Add a new blow to the experiment
    ///
    /// # Arguments
    /// * `depth` - Depth of the blow
    /// * `n1` - N-value of the first increment
    /// * `n2` - N-value of the second increment
    /// * `n3` - N-value of the third increment
    pub fn add_blow(&mut self, depth: i64, n1: NValue, n2: NValue, n3: NValue)
        requires
            n2 matches NValue::Value(a) && n3 matches NValue::Value(b) ==> i32::MIN <= a + b
                <= i32::MAX,
        ensures
            final(self).name == old(self).name,
            final(self).blows@ == old(self).blows@.push(
                SPTBlow {
                    depth: Some(depth),
                    n1: Some(n1),
                    n2: Some(n2),
                    n3: Some(n3),
                    n: Some(nv_sum_with(n2, n3)),
                    ..empty_blow()
                },
            ),
    {
        self.blows.push(SPTBlow::new(depth, n1, n2, n3));
    }

    /// Calculate the total N value of every blow from its increments.
    pub fn calc_all_n(&mut self)
        requires
            forall|i: int| 0 <= i < old(self).blows@.len() ==> ((#[trigger] old(
                self,
            ).blows@[i]).n2 matches Some(NValue::Value(a)) && old(self).blows@[i].n3 matches Some(
                NValue::Value(b),
            ) ==> i32::MIN <= a + b <= i32::MAX),
        ensures
            final(self).name == old(self).name,
            final(self).blows@.len() == old(self).blows@.len(),
            forall|i: int| 0 <= i < old(self).blows@.len() ==> final(self).blows@[i] == {
                let b = #[trigger] old(self).blows@[i];
                if b.n2 is Some && b.n3 is Some {
                    SPTBlow { n: Some(nv_sum_with(b.n2->0, b.n3->0)), ..b }
                } else {
                    b
                }
            },
    {
        let n = self.blows.len();
        let mut out: Vec<SPTBlow> = Vec::new();
        let mut i: usize = 0;
        while i < n
            invariant
                n == self.blows@.len(),
                self.blows@ == old(self).blows@,
                self.name == old(self).name,
                forall|k: int| 0 <= k < n ==> ((#[trigger] self.blows@[k]).n2 matches Some(
                    NValue::Value(a),
                ) && self.blows@[k].n3 matches Some(NValue::Value(b)) ==> i32::MIN <= a + b
                    <= i32::MAX),
                0 <= i <= n,
                out@.len() == i,
                forall|k: int| 0 <= k < i ==> out@[k] == {
                    let b = #[trigger] self.blows@[k];
                    if b.n2 is Some && b.n3 is Some {
                        SPTBlow { n: Some(nv_sum_with(b.n2->0, b.n3->0)), ..b }
                    } else {
                        b
                    }
                },
            decreases n - i,
        {
            let mut b = self.blows[i];
            b.calc_n();
            out.push(b);
            i = i + 1;
        }
        self.blows = out;
    }

    /// Apply the energy correction to every blow.
    ///
    /// # Arguments
    /// * `energy_correction_factor` - factor in thousandths converting N to N60
    pub fn apply_energy_correction(&mut self, energy_correction_factor: i64)
        requires
            0 <= energy_correction_factor <= MAX_FACTOR,
            forall|i: int| 0 <= i < old(self).blows@.len() ==> {
                let b = #[trigger] old(self).blows@[i];
                &&& b.n is Some
                &&& (b.n->0 matches NValue::Value(v) ==> 0 <= v <= MAX_BLOW_VALUE)
            },
        ensures
            final(self).name == old(self).name,
            final(self).blows@.len() == old(self).blows@.len(),
            forall|i: int| 0 <= i < old(self).blows@.len() ==> final(self).blows@[i] == {
                let b = #[trigger] old(self).blows@[i];
                SPTBlow {
                    n60: Some(nv_mul_milli(b.n->0, energy_correction_factor as int)),
                    n90: Some(
                        nv_mul_milli(nv_mul_milli(b.n->0, energy_correction_factor as int), 1500),
                    ),
                    ..b
                }
            },
    {
        let n = self.blows.len();
        let mut out: Vec<SPTBlow> = Vec::new();
        let mut i: usize = 0;
        while i < n
            invariant
                n == self.blows@.len(),
                self.blows@ == old(self).blows@,
                self.name == old(self).name,
                0 <= energy_correction_factor <= MAX_FACTOR,
                forall|k: int| 0 <= k < n ==> {
                    let b = #[trigger] self.blows@[k];
                    &&& b.n is Some
                    &&& (b.n->0 matches NValue::Value(v) ==> 0 <= v <= MAX_BLOW_VALUE)
                },
                0 <= i <= n,
                out@.len() == i,
                forall|k: int| 0 <= k < i ==> out@[k] == {
                    let b = #[trigger] self.blows@[k];
                    SPTBlow {
                        n60: Some(nv_mul_milli(b.n->0, energy_correction_factor as int)),
                        n90: Some(
                            nv_mul_milli(
                                nv_mul_milli(b.n->0, energy_correction_factor as int),
                                1500,
                            ),
                        ),
                        ..b
                    }
                },
            decreases n - i,
        {
            let mut b = self.blows[i];
            b.apply_energy_correction(energy_correction_factor);
            out.push(b);
            i = i + 1;
        }
        self.blows = out;
    }

    /// Calculate the thickness of each blow: the depth step down from the
    /// previous blow.
    pub fn calc_thicknesses(&mut self)
        requires
            forall|i: int| 0 <= i < old(self).blows@.len() ==> {
                let b = #[trigger] old(self).blows@[i];
                &&& b.depth is Some
                &&& -MAX_DIMENSION <= b.depth->0 <= MAX_DIMENSION
            },
        ensures
            final(self).name == old(self).name,
            final(self).blows@.len() == old(self).blows@.len(),
            forall|i: int| 0 <= i < old(self).blows@.len() ==> final(self).blows@[i] == {
                let b = #[trigger] old(self).blows@[i];
                let prev: int = if i == 0 {
                    0
                } else {
                    old(self).blows@[i - 1].depth->0 as int
                };
                SPTBlow { thickness: Some((b.depth->0 - prev) as i64), ..b }
            },
    {
        let n = self.blows.len();
        let mut out: Vec<SPTBlow> = Vec::new();
        let mut prev_depth: i64 = 0;
        let mut i: usize = 0;
        while i < n
            invariant
                n == self.blows@.len(),
                self.blows@ == old(self).blows@,
                self.name == old(self).name,
                forall|k: int| 0 <= k < n ==> {
                    let b = #[trigger] self.blows@[k];
                    &&& b.depth is Some
                    &&& -MAX_DIMENSION <= b.depth->0 <= MAX_DIMENSION
                },
                0 <= i <= n,
                out@.len() == i,
                prev_depth as int == if i == 0 {
                    0
                } else {
                    self.blows@[i - 1].depth->0 as int
                },
                forall|k: int| 0 <= k < i ==> out@[k] == {
                    let b = #[trigger] self.blows@[k];
                    let prev: int = if k == 0 {
                        0
                    } else {
                        self.blows@[k - 1].depth->0 as int
                    };
                    SPTBlow { thickness: Some((b.depth->0 - prev) as i64), ..b }
                },
            decreases n - i,
        {
            let mut b = self.blows[i];
            let d = b.depth.unwrap();
            b.thickness = Some(d - prev_depth);
            prev_depth = d;
            out.push(b);
            i = i + 1;
        }
        self.blows = out;
    }

    /// The condition under which `validate` accepts the borehole: at least one
    /// blow, every named field of every blow valid.
    pub open spec fn spec_validate_ok(&self, views: Seq<Seq<char>>) -> bool {
        &&& self.blows@.len() > 0
        &&& forall|i: int| 0 <= i < self.blows@.len() ==> first_field_error(
            views,
            |f: Seq<char>| spt_blow_field_error(#[trigger] self.blows@[i], f),
        ) is None
    }

    /// Validates specific fields of every blow of the SPTExp, rejecting an
    /// experiment without blows.
    ///
    /// # Arguments
    /// * `fields` - A slice of field names to validate.
    ///
    /// # Returns
    /// Ok(()) if all fields of all blows are valid, or the first error found.
    pub fn validate(&self, fields: &[&str]) -> (r: Result<(), ValidationError>)
        ensures
            self.blows@.len() == 0 ==> r is Err && r->Err_0.code@ == "spt.empty_blows"@
                && r->Err_0.message@ == "No blows provided for SPTExp."@,
            r is Ok <==> self.spec_validate_ok(field_views(fields@)),
            self.blows@.len() > 0 && r is Err ==> exists|i: int| 0 <= i < self.blows@.len()
                && first_field_error(
                field_views(fields@),
                |f: Seq<char>| spt_blow_field_error(#[trigger] self.blows@[i], f),
            ) == Some((r->Err_0.code@, r->Err_0.message@)),
    {
        if self.blows.len() == 0 {
            return Err(
                ValidationError {
                    code: String::from_str("spt.empty_blows"),
                    message: String::from_str("No blows provided for SPTExp."),
                },
            );
        }
        let mut i: usize = 0;
        while i < self.blows.len()
            invariant
                0 <= i <= self.blows@.len(),
                forall|j: int| 0 <= j < i ==> first_field_error(
                    field_views(fields@),
                    |f: Seq<char>| spt_blow_field_error(#[trigger] self.blows@[j], f),
                ) is None,
            decreases self.blows@.len() - i,
        {
            let blow = self.blows[i];
            match blow.validate(fields) {
                Ok(()) => {},
                Err(e) => {
                    return Err(e);
                },
            }
            i = i + 1;
        }
        Ok(())
    }
}

// -------------------------------------------------------------------------------------------
/// Some blow of some borehole sits exactly at depth `d`.
pub open spec fn spt_union_has(exps: Seq<SPTExp>, d: i64) -> bool {
    exists|a: int, b: int|
        0 <= a < exps.len() && 0 <= b < exps[a].blows@.len() && exps[a].blows@[b].depth == Some(d)
}

/// Some blow of boreholes strictly before position `(i, j)` sits exactly at
/// depth `d`.
pub open spec fn spt_union_has_upto(exps: Seq<SPTExp>, i: int, j: int, d: i64) -> bool {
    exists|a: int, b: int|
        {
            &&& 0 <= a < exps.len()
            &&& 0 <= b < exps[a].blows@.len()
            &&& (a < i || (a == i && b < j))
            &&& exps[a].blows@[b].depth == Some(d)
        }
}

/// The blow count that borehole `e` reports for depth `d` under its own
/// nearest-depth lookup.
pub open spec fn n_sample(e: SPTExp, d: i64) -> NValue {
    e.blows@[sample_index(e.depth_keys(), d)].n->0
}

/// The blow counts that all boreholes report for depth `d`.
pub open spec fn n_samples(exps: Seq<SPTExp>, d: i64) -> Seq<NValue> {
    Seq::new(exps.len(), |i: int| n_sample(exps[i], d))
}

/// A full SPT campaign: the boreholes, the correction factors, and the policy
/// used to reduce them into one idealized experiment.
#[derive(Debug, Clone)]
pub struct SPT {
    pub exps: Vec<SPTExp>,
    pub energy_correction_factor: Option<i64>,
    pub diameter_correction_factor: Option<i64>,
    pub sampler_correction_factor: Option<i64>,
    pub rod_length_correction_factor: Option<i64>,
    pub idealization_method: SelectionMethod,
}

impl SPT {
    /// Every borehole of the collection is complete enough to sample.
    pub open spec fn collection_wf(&self) -> bool {
        forall|i: int| 0 <= i < self.exps@.len() ==> (#[trigger] self.exps@[i]).records_wf()
    }

    /// Create a new SPT
    ///
    /// # Arguments
    /// * `energy_correction_factor` - factor converting N to N60, in thousandths
    /// * `diameter_correction_factor` - Borehole diameter correction factor, in thousandths
    /// * `sampler_correction_factor` - Sampler correction factor, in thousandths
    /// * `rod_length_correction_factor` - Rod length correction factor, in thousandths
    /// * `idealization_method` - Idealization method to use when combining the boreholes
    pub fn new(
        energy_correction_factor: i64,
        diameter_correction_factor: i64,
        sampler_correction_factor: i64,
        rod_length_correction_factor: i64,
        idealization_method: SelectionMethod,
    ) -> (r: SPT)
        ensures
            r.exps@.len() == 0,
            r.energy_correction_factor == Some(energy_correction_factor),
            r.diameter_correction_factor == Some(diameter_correction_factor),
            r.sampler_correction_factor == Some(sampler_correction_factor),
            r.rod_length_correction_factor == Some(rod_length_correction_factor),
            r.idealization_method == idealization_method,
    {
        SPT {
            exps: Vec::new(),
            energy_correction_factor: Some(energy_correction_factor),
            diameter_correction_factor: Some(diameter_correction_factor),
            sampler_correction_factor: Some(sampler_correction_factor),
            rod_length_correction_factor: Some(rod_length_correction_factor),
            idealization_method,
        }
    }

    /// Calculate the total N value of every blow of every borehole.
    pub fn calc_all_n(&mut self)
        requires
            forall|e: int, i: int|
                0 <= e < old(self).exps@.len() && 0 <= i < old(self).exps@[e].blows@.len() ==> ((
                #[trigger] old(self).exps@[e].blows@[i]).n2 matches Some(NValue::Value(a)) && old(
                    self,
                ).exps@[e].blows@[i].n3 matches Some(NValue::Value(b)) ==> i32::MIN <= a + b
                    <= i32::MAX),
        ensures
            final(self).idealization_method == old(self).idealization_method,
            final(self).energy_correction_factor == old(self).energy_correction_factor,
            final(self).diameter_correction_factor == old(self).diameter_correction_factor,
            final(self).sampler_correction_factor == old(self).sampler_correction_factor,
            final(self).rod_length_correction_factor == old(self).rod_length_correction_factor,
            final(self).exps@.len() == old(self).exps@.len(),
            forall|e: int| 0 <= e < old(self).exps@.len() ==> {
                let x = #[trigger] final(self).exps@[e];
                &&& x.name == old(self).exps@[e].name
                &&& x.blows@.len() == old(self).exps@[e].blows@.len()
                &&& forall|i: int| 0 <= i < x.blows@.len() ==> #[trigger] x.blows@[i] == {
                    let b = old(self).exps@[e].blows@[i];
                    if b.n2 is Some && b.n3 is Some {
                        SPTBlow { n: Some(nv_sum_with(b.n2->0, b.n3->0)), ..b }
                    } else {
                        b
                    }
                }
            },
    {
        let ghost orig = old(self).exps@;
        let n = self.exps.len();
        let mut out: Vec<SPTExp> = Vec::new();
        while self.exps.len() > 0
            invariant
                orig.len() == n,
                self.idealization_method == old(self).idealization_method,
                self.energy_correction_factor == old(self).energy_correction_factor,
                self.diameter_correction_factor == old(self).diameter_correction_factor,
                self.sampler_correction_factor == old(self).sampler_correction_factor,
                self.rod_length_correction_factor == old(self).rod_length_correction_factor,
                out@.len() + self.exps@.len() == n,
                self.exps@ == orig.skip(out@.len() as int),
                forall|e: int, i: int| 0 <= e < n && 0 <= i < orig[e].blows@.len() ==> ((
                #[trigger] orig[e].blows@[i]).n2 matches Some(NValue::Value(a))
                    && orig[e].blows@[i].n3 matches Some(NValue::Value(b)) ==> i32::MIN <= a + b
                    <= i32::MAX),
                forall|e: int| 0 <= e < out@.len() ==> {
                    let x = #[trigger] out@[e];
                    &&& x.name == orig[e].name
                    &&& x.blows@.len() == orig[e].blows@.len()
                    &&& forall|i: int| 0 <= i < x.blows@.len() ==> #[trigger] x.blows@[i] == {
                        let b = orig[e].blows@[i];
                        if b.n2 is Some && b.n3 is Some {
                            SPTBlow { n: Some(nv_sum_with(b.n2->0, b.n3->0)), ..b }
                        } else {
                            b
                        }
                    }
                },
            decreases self.exps@.len(),
        {
            let ghost k = out@.len() as int;
            let mut e = self.exps.remove(0);
            proof {
                assert(e == orig.skip(k)[0]);
                assert(e == orig[k]);
                assert(orig.skip(k).remove(0) =~= orig.skip(k + 1));
            }
            e.calc_all_n();
            out.push(e);
        }
        self.exps = out;
    }

    /// Apply the energy correction to every blow of every borehole.
    ///
    /// # Arguments
    /// * `energy_correction_factor` - factor in thousandths converting N to N60
    pub fn apply_energy_correction(&mut self, energy_correction_factor: i64)
        requires
            0 <= energy_correction_factor <= MAX_FACTOR,
            forall|e: int, i: int|
                0 <= e < old(self).exps@.len() && 0 <= i < old(self).exps@[e].blows@.len() ==> {
                    let b = #[trigger] old(self).exps@[e].blows@[i];
                    &&& b.n is Some
                    &&& (b.n->0 matches NValue::Value(v) ==> 0 <= v <= MAX_BLOW_VALUE)
                },
        ensures
            final(self).idealization_method == old(self).idealization_method,
            final(self).energy_correction_factor == old(self).energy_correction_factor,
            final(self).diameter_correction_factor == old(self).diameter_correction_factor,
            final(self).sampler_correction_factor == old(self).sampler_correction_factor,
            final(self).rod_length_correction_factor == old(self).rod_length_correction_factor,
            final(self).exps@.len() == old(self).exps@.len(),
            forall|e: int| 0 <= e < old(self).exps@.len() ==> {
                let x = #[trigger] final(self).exps@[e];
                &&& x.name == old(self).exps@[e].name
                &&& x.blows@.len() == old(self).exps@[e].blows@.len()
                &&& forall|i: int| 0 <= i < x.blows@.len() ==> #[trigger] x.blows@[i] == {
                    let b = old(self).exps@[e].blows@[i];
                    SPTBlow {
                        n60: Some(nv_mul_milli(b.n->0, energy_correction_factor as int)),
                        n90: Some(
                            nv_mul_milli(
                                nv_mul_milli(b.n->0, energy_correction_factor as int),
                                1500,
                            ),
                        ),
                        ..b
                    }
                }
            },
    {
        let ghost orig = old(self).exps@;
        let n = self.exps.len();
        let mut out: Vec<SPTExp> = Vec::new();
        while self.exps.len() > 0
            invariant
                orig.len() == n,
                0 <= energy_correction_factor <= MAX_FACTOR,
                self.idealization_method == old(self).idealization_method,
                self.energy_correction_factor == old(self).energy_correction_factor,
                self.diameter_correction_factor == old(self).diameter_correction_factor,
                self.sampler_correction_factor == old(self).sampler_correction_factor,
                self.rod_length_correction_factor == old(self).rod_length_correction_factor,
                out@.len() + self.exps@.len() == n,
                self.exps@ == orig.skip(out@.len() as int),
                forall|e: int, i: int| 0 <= e < n && 0 <= i < orig[e].blows@.len() ==> {
                    let b = #[trigger] orig[e].blows@[i];
                    &&& b.n is Some
                    &&& (b.n->0 matches NValue::Value(v) ==> 0 <= v <= MAX_BLOW_VALUE)
                },
                forall|e: int| 0 <= e < out@.len() ==> {
                    let x = #[trigger] out@[e];
                    &&& x.name == orig[e].name
                    &&& x.blows@.len() == orig[e].blows@.len()
                    &&& forall|i: int| 0 <= i < x.blows@.len() ==> #[trigger] x.blows@[i] == {
                        let b = orig[e].blows@[i];
                        SPTBlow {
                            n60: Some(nv_mul_milli(b.n->0, energy_correction_factor as int)),
                            n90: Some(
                                nv_mul_milli(
                                    nv_mul_milli(b.n->0, energy_correction_factor as int),
                                    1500,
                                ),
                            ),
                            ..b
                        }
                    }
                },
            decreases self.exps@.len(),
        {
            let ghost k = out@.len() as int;
            let mut e = self.exps.remove(0);
            proof {
                assert(e == orig.skip(k)[0]);
                assert(e == orig[k]);
                assert(orig.skip(k).remove(0) =~= orig.skip(k + 1));
            }
            e.apply_energy_correction(energy_correction_factor);
            out.push(e);
        }
        self.exps = out;
    }

    /// Add a new experiment to the SPT
    ///
    /// # Arguments
    /// * `exp` - SPTExp
    pub fn add_exp(&mut self, exp: SPTExp)
        ensures
            final(self).exps@ == old(self).exps@.push(exp),
            final(self).energy_correction_factor == old(self).energy_correction_factor,
            final(self).diameter_correction_factor == old(self).diameter_correction_factor,
            final(self).sampler_correction_factor == old(self).sampler_correction_factor,
            final(self).rod_length_correction_factor == old(self).rod_length_correction_factor,
            final(self).idealization_method == old(self).idealization_method,
    {
        self.exps.push(exp);
    }

    /// Creates an idealized SPT experiment: its depths are exactly the distinct
    /// depths appearing across all boreholes, in ascending order, and at each
    /// such depth the blow count is reduced, under the collection's policy,
    /// over the count each borehole reports for that depth by its own
    /// nearest-depth lookup. An empty collection yields an empty, named
    /// experiment.
    ///
    /// # Arguments
    /// * `name` - Name of the idealized experiment
    ///
    /// # Returns
    /// * `SPTExp` - Idealized experiment
    pub fn get_idealized_exp(&self, name: String) -> (r: SPTExp)
        requires
            self.collection_wf(),
        ensures
            r.name == name,
            self.exps@.len() == 0 ==> r.blows@.len() == 0,
            self.exps@.len() > 0 ==> {
                &&& strictly_increasing(r.depth_keys())
                &&& forall|d: i64| r.depth_keys().contains(d) <==> spt_union_has(self.exps@, d)
                &&& forall|k: int| 0 <= k < r.blows@.len() ==> {
                    let b = #[trigger] r.blows@[k];
                    let d = b.depth->0;
                    &&& b == (SPTBlow {
                        depth: Some(d),
                        n1: Some(NValue::Value(0)),
                        n2: Some(NValue::Value(0)),
                        n3: Some(NValue::Value(0)),
                        n: Some(nv_reduce(self.idealization_method, n_samples(self.exps@, d))),
                        ..empty_blow()
                    })
                }
            },
    {
        if self.exps.len() == 0 {
            let empty: Vec<SPTBlow> = Vec::new();
            return SPTExp::new(empty, name);
        }
        let mode = self.idealization_method;
        let ghost exps = self.exps@;

        // 1. Collect unique depths across all boreholes, in ascending order.
        let mut depths: Vec<i64> = Vec::new();
        let mut i: usize = 0;
        while i < self.exps.len()
            invariant
                self.collection_wf(),
                exps == self.exps@,
                0 <= i <= exps.len(),
                strictly_increasing(depths@),
                forall|d: i64| depths@.contains(d) <==> spt_union_has_upto(exps, i as int, 0, d),
            decreases exps.len() - i,
        {
            let nl = self.exps[i].blows.len();
            let mut j: usize = 0;
            while j < nl
                invariant
                    self.collection_wf(),
                    exps == self.exps@,
                    0 <= i < exps.len(),
                    nl == exps[i as int].blows@.len(),
                    0 <= j <= nl,
                    strictly_increasing(depths@),
                    forall|d: i64| depths@.contains(d) <==> spt_union_has_upto(
                        exps,
                        i as int,
                        j as int,
                        d,
                    ),
                decreases nl - j,
            {
                let ghost before = depths@;
                insert_sorted(&mut depths, self.exps[i].blows[j].depth.unwrap());
                proof {
                    let dij = exps[i as int].blows@[j as int].depth->0;
                    assert forall|d: i64| depths@.contains(d) implies spt_union_has_upto(
                        exps,
                        i as int,
                        j + 1,
                        d,
                    ) by {
                        if before.contains(d) {
                            let (a, b) = choose|a: int, b: int|
                                {
                                    &&& 0 <= a < exps.len()
                                    &&& 0 <= b < exps[a].blows@.len()
                                    &&& (a < i as int || (a == i as int && b < j as int))
                                    &&& exps[a].blows@[b].depth == Some(d)
                                };
                            assert(spt_union_has_upto(exps, i as int, j + 1, d));
                        } else {
                            assert(d == dij);
                            assert(exps[i as int].blows@[j as int].depth == Some(d));
                        }
                    }
                    assert forall|d: i64| spt_union_has_upto(exps, i as int, j + 1, d) implies
                        depths@.contains(d) by {
                        let (a, b) = choose|a: int, b: int|
                            {
                                &&& 0 <= a < exps.len()
                                &&& 0 <= b < exps[a].blows@.len()
                                &&& (a < i as int || (a == i as int && b < j + 1))
                                &&& exps[a].blows@[b].depth == Some(d)
                            };
                        if a == i as int && b == j as int {
                            assert(d == dij);
                        } else {
                            assert(spt_union_has_upto(exps, i as int, j as int, d));
                            assert(before.contains(d));
                        }
                    }
                }
                j = j + 1;
            }
            proof {
                assert forall|d: i64| spt_union_has_upto(exps, i as int, nl as int, d)
                    <==> spt_union_has_upto(exps, i + 1, 0, d) by {
                    if spt_union_has_upto(exps, i as int, nl as int, d) {
                        let (a, b) = choose|a: int, b: int|
                            {
                                &&& 0 <= a < exps.len()
                                &&& 0 <= b < exps[a].blows@.len()
                                &&& (a < i as int || (a == i as int && b < nl as int))
                                &&& exps[a].blows@[b].depth == Some(d)
                            };
                        assert(a < i + 1);
                        assert(spt_union_has_upto(exps, i + 1, 0, d));
                    }
                    if spt_union_has_upto(exps, i + 1, 0, d) {
                        let (a, b) = choose|a: int, b: int|
                            {
                                &&& 0 <= a < exps.len()
                                &&& 0 <= b < exps[a].blows@.len()
                                &&& (a < i + 1 || (a == i + 1 && b < 0))
                                &&& exps[a].blows@[b].depth == Some(d)
                            };
                        if a == i as int {
                            assert(b < exps[i as int].blows@.len());
                        }
                        assert(spt_union_has_upto(exps, i as int, nl as int, d));
                    }
                }
            }
            i = i + 1;
        }

        // 2. Sample every borehole at each depth and reduce the counts.
        let mut blows: Vec<SPTBlow> = Vec::new();
        let mut k: usize = 0;
        while k < depths.len()
            invariant
                self.collection_wf(),
                exps == self.exps@,
                exps.len() > 0,
                mode == self.idealization_method,
                strictly_increasing(depths@),
                forall|d: i64| depths@.contains(d) <==> spt_union_has(exps, d),
                0 <= k <= depths@.len(),
                blows@.len() == k,
                forall|m: int| 0 <= m < k ==> #[trigger] blows@[m] == (SPTBlow {
                    depth: Some(depths@[m]),
                    n1: Some(NValue::Value(0)),
                    n2: Some(NValue::Value(0)),
                    n3: Some(NValue::Value(0)),
                    n: Some(nv_reduce(mode, n_samples(exps, depths@[m]))),
                    ..empty_blow()
                }),
            decreases depths@.len() - k,
        {
            let d = depths[k];
            let mut vn: Vec<NValue> = Vec::new();
            let mut e: usize = 0;
            while e < self.exps.len()
                invariant
                    self.collection_wf(),
                    exps == self.exps@,
                    0 <= e <= exps.len(),
                    vn@.len() == e,
                    forall|m: int| 0 <= m < e ==> #[trigger] vn@[m] == n_sample(exps[m], d),
                decreases exps.len() - e,
            {
                let exp = &self.exps[e];
                let ghost keys = exp.depth_keys();
                proof {
                    lemma_sample_index_props(keys, d);
                }
                let n = exp.blows.len();
                let mut t: usize = 0;
                while t < n - 1 && exp.blows[t].depth.unwrap() < d
                    invariant
                        n == exp.blows@.len(),
                        n > 0,
                        exp.depths_present(),
                        keys == exp.depth_keys(),
                        0 <= t <= n - 1,
                        forall|j: int| 0 <= j < t ==> keys[j] < d,
                    decreases n - t,
                {
                    t = t + 1;
                }
                proof {
                    lemma_sample_skip(keys, d, t as int);
                    assert(keys[t as int] == exp.blows@[t as int].depth->0);
                }
                vn.push(exp.blows[t].n.unwrap());
                e = e + 1;
            }
            proof {
                assert(vn@ =~= n_samples(exps, d));
                assert forall|m: int| 0 <= m < vn@.len() implies (#[trigger] vn@[m] matches
                    NValue::Value(v) ==> v >= 1) by {
                    lemma_sample_index_props(exps[m].depth_keys(), d);
                }
            }
            let selected_n = reduce_n(mode, &vn);
            let mut blow = SPTBlow::new(d, NValue::Value(0), NValue::Value(0), NValue::Value(0));
            blow.n = Some(selected_n);
            blows.push(blow);
            k = k + 1;
        }
        let r = SPTExp::new(blows, name);
        proof {
            assert(r.depth_keys() =~= depths@);
        }
        r
    }

    /// Identity law: any result meeting `get_idealized_exp`'s contract for a
    /// collection of exactly one borehole with strictly ascending depths
    /// carries that borehole's depths and blow counts unchanged, for Min, Avg
    /// and Max alike. Under the Avg policy the law asks that the borehole
    /// reported no refusal, since averaging replaces a refusal by its 50-blow
    /// ceiling.
    pub proof fn lemma_idealize_singleton_identity(
        exps: Seq<SPTExp>,
        r: SPTExp,
        mode: SelectionMethod,
    )
        requires
            exps.len() == 1,
            exps[0].records_wf(),
            strictly_increasing(exps[0].depth_keys()),
            mode is Avg ==> forall|i: int| 0 <= i < exps[0].blows@.len() ==> !((#[trigger]
            exps[0].blows@[i]).n->0 is Refusal),
            strictly_increasing(r.depth_keys()),
            forall|d: i64| r.depth_keys().contains(d) <==> spt_union_has(exps, d),
            forall|k: int| 0 <= k < r.blows@.len() ==> {
                let b = #[trigger] r.blows@[k];
                &&& b.depth is Some
                &&& b.n == Some(nv_reduce(mode, n_samples(exps, b.depth->0)))
            },
        ensures
            r.depth_keys() == exps[0].depth_keys(),
            r.blows@.len() == exps[0].blows@.len(),
            forall|k: int| 0 <= k < r.blows@.len() ==> {
                let b = #[trigger] r.blows@[k];
                let s = exps[0].blows@[k];
                &&& b.depth == s.depth
                &&& b.n == s.n
            },
    {
        let e = exps[0];
        let skeys = e.depth_keys();
        assert forall|d: i64| skeys.contains(d) implies r.depth_keys().contains(d) by {
            let b = choose|b: int| 0 <= b < skeys.len() && skeys[b] == d;
            assert(e.blows@[b].depth == Some(d));
            assert(spt_union_has(exps, d));
        }
        assert forall|d: i64| r.depth_keys().contains(d) implies skeys.contains(d) by {
            assert(spt_union_has(exps, d));
            let (a, b) = choose|a: int, b: int|
                {
                    &&& 0 <= a < exps.len()
                    &&& 0 <= b < exps[a].blows@.len()
                    &&& exps[a].blows@[b].depth == Some(d)
                };
            assert(a == 0);
            assert(skeys[b] == d);
            assert(skeys.contains(d));
        }
        lemma_sorted_unique_eq(r.depth_keys(), skeys);
        assert forall|k: int| 0 <= k < r.blows@.len() implies {
            let b = #[trigger] r.blows@[k];
            let s = exps[0].blows@[k];
            &&& b.depth == s.depth
            &&& b.n == s.n
        } by {
            let d = r.depth_keys()[k];
            assert(r.blows@[k].depth->0 == d);
            lemma_sample_index_own_key(skeys, k);
            let samples = n_samples(exps, d);
            assert(samples[0] == n_sample(e, d));
            assert(samples.len() == 1);
            assert(nv_min_seq(samples) == samples[0]);
            assert(nv_max_seq(samples) == samples[0]);
            if mode is Avg {
                let ints = nv_ints(samples);
                assert(ints[0] as int == nv_to_int(samples[0]));
                assert(seq_sum(ints) == seq_sum(ints.drop_last()) + ints.last());
                assert(seq_sum(ints.drop_last()) == 0);
                lemma_reduce_singleton(mode, ints);
                assert(mean_rounded(ints) == ints[0] as int);
                assert(!(e.blows@[k].n->0 is Refusal));
            }
        }
    }

    /// Policy-order law for blow counts, under the refusal-topped order: the
    /// Avg-policy count never exceeds the Max-policy count; and when no
    /// borehole reported a refusal at the depth, the Min-policy count never
    /// exceeds the Avg-policy count. (When some borehole did report a refusal
    /// the minimum can exceed the ceiling-substituted average: the documented
    /// exception for the refusal sentinel.)
    pub proof fn lemma_idealize_policy_order(exps: Seq<SPTExp>, d: i64)
        requires
            exps.len() > 0,
            forall|i: int| 0 <= i < exps.len() ==> (#[trigger] exps[i]).records_wf(),
        ensures
            nv_le(
                nv_reduce(SelectionMethod::Avg, n_samples(exps, d)),
                nv_reduce(SelectionMethod::Max, n_samples(exps, d)),
            ),
            (forall|i: int| 0 <= i < exps.len() ==> !(#[trigger] n_sample(exps[i], d) is Refusal))
                ==> nv_le(
                nv_reduce(SelectionMethod::Min, n_samples(exps, d)),
                nv_reduce(SelectionMethod::Avg, n_samples(exps, d)),
            ),
    {
        let s = n_samples(exps, d);
        let ints = nv_ints(s);
        assert(s.len() == exps.len());
        assert forall|i: int| 0 <= i < s.len() implies (#[trigger] s[i] matches NValue::Value(v)
            ==> v >= 1) by {
            lemma_sample_index_props(exps[i].depth_keys(), d);
        }
        assert forall|i: int| 0 <= i < ints.len() implies 1 <= #[trigger] ints[i]
            <= i32::MAX as i64 by {
            assert(ints[i] as int == nv_to_int(s[i]));
        }
        lemma_mean_bounds(ints);
        lemma_min_max_elem(ints);
        let avg = nv_reduce(SelectionMethod::Avg, s);
        let kx = choose|k: int| 0 <= k < ints.len() && ints[k] == seq_max(ints);
        let kn = choose|k: int| 0 <= k < ints.len() && ints[k] == seq_min(ints);
        lemma_nv_min_max(s, 0);
        match nv_max_seq(s) {
            NValue::Refusal => {
                assert(nv_le(avg, NValue::Refusal));
            },
            NValue::Value(mx) => {
                // no sample is a refusal, so numeric readings are the values
                assert forall|i: int| 0 <= i < s.len() implies !(#[trigger] s[i] is Refusal) by {
                    lemma_nv_min_max(s, i);
                }
                lemma_nv_min_max(s, kx);
                assert(ints[kx] as int == nv_to_int(s[kx]));
                assert(nv_to_int(s[kx]) <= mx as int);
                assert(seq_max(ints) <= mx as i64);
                assert(mean_rounded(ints) <= mx as int);
            },
        }
        if forall|i: int| 0 <= i < exps.len() ==> !(#[trigger] n_sample(exps[i], d) is Refusal) {
            assert forall|i: int| 0 <= i < s.len() implies !(#[trigger] s[i] is Refusal) by {
                assert(s[i] == n_sample(exps[i], d));
            }
            let mn = nv_min_seq(s);
            lemma_nv_min_max(s, 0);
            let km = choose|k: int| 0 <= k < s.len() && s[k] == mn;
            match mn {
                NValue::Refusal => {
                    assert(!(s[km] is Refusal));
                },
                NValue::Value(v) => {
                    assert(ints[km] as int == nv_to_int(s[km]));
                    assert(ints[km] == v as i64);
                    lemma_min_max_le(ints, km);
                    assert(seq_min(ints) <= v as i64);
                    assert forall|i: int| 0 <= i < ints.len() implies v as i64 <= #[trigger]
                    ints[i] by {
                        lemma_nv_min_max(s, i);
                        assert(ints[i] as int == nv_to_int(s[i]));
                    }
                    crate::aggregate::lemma_min_max_le(ints, kn);
                    assert(v as i64 <= seq_min(ints));
                    assert(mean_rounded(ints) >= v as int);
                },
            }
        }
    }

    /// Validates every borehole of the SPT and its correction factors,
    /// rejecting an empty collection.
    ///
    /// # Arguments
    /// * `fields` - A slice of field names to validate.
    ///
    /// # Returns
    /// Ok(()) if all fields are valid, or the first error found.
    pub fn validate(&self, fields: &[&str]) -> (r: Result<(), ValidationError>)
        ensures
            self.exps@.len() == 0 ==> r is Err && r->Err_0.code@ == "spt.empty_exps"@
                && r->Err_0.message@ == "No experiments provided for SPT."@,
            r is Ok <==> {
                &&& self.exps@.len() > 0
                &&& forall|i: int| 0 <= i < self.exps@.len() ==> (#[trigger] self.exps@[i]).spec_validate_ok(
                    field_views(fields@),
                )
                &&& crate::validation::field_ok(self.energy_correction_factor, Some(1), None)
                &&& crate::validation::field_ok(self.rod_length_correction_factor, Some(1), None)
                &&& crate::validation::field_ok(self.diameter_correction_factor, Some(1), None)
                &&& crate::validation::field_ok(self.sampler_correction_factor, Some(1), None)
            },
    {
        if self.exps.len() == 0 {
            return Err(
                ValidationError {
                    code: String::from_str("spt.empty_exps"),
                    message: String::from_str("No experiments provided for SPT."),
                },
            );
        }
        let mut i: usize = 0;
        while i < self.exps.len()
            invariant
                0 <= i <= self.exps@.len(),
                forall|j: int| 0 <= j < i ==> (#[trigger] self.exps@[j]).spec_validate_ok(
                    field_views(fields@),
                ),
            decreases self.exps@.len() - i,
        {
            let exp = &self.exps[i];
            match exp.validate(fields) {
                Ok(()) => {},
                Err(e) => {
                    return Err(e);
                },
            }
            i = i + 1;
        }
        match validate_field(
            "energy_correction_factor",
            self.energy_correction_factor,
            Some(1),
            None,
            "spt",
        ) {
            Ok(()) => {},
            Err(e) => {
                return Err(e);
            },
        }
        match validate_field(
            "rod_length_correction_factor",
            self.rod_length_correction_factor,
            Some(1),
            None,
            "spt",
        ) {
            Ok(()) => {},
            Err(e) => {
                return Err(e);
            },
        }
        match validate_field(
            "diameter_correction_factor",
            self.diameter_correction_factor,
            Some(1),
            None,
            "spt",
        ) {
            Ok(()) => {},
            Err(e) => {
                return Err(e);
            },
        }
        match validate_field(
            "sampler_correction_factor",
            self.sampler_correction_factor,
            Some(1),
            None,
            "spt",
        ) {
            Ok(()) => {},
            Err(e) => {
                return Err(e);
            },
        }
        Ok(())
    }
}

/// Checks one optional blow count: present and reading at least one blow.
fn validate_nv(
    field_name: &str,
    v: Option<NValue>,
    missing_code: &str,
    missing_msg: &str,
) -> (r: Result<(), ValidationError>)
    ensures
        ({
            let e = nv_field_error(field_name@, v, missing_code@, missing_msg@);
            &&& r is Ok <==> e is None
            &&& r is Err ==> e == Some((r->Err_0.code@, r->Err_0.message@))
        }),
{
    match v {
        Some(nv) => validate_field(field_name, Some(nv.to_i32() as i64), Some(1), None, "spt"),
        None => Err(
            ValidationError {
                code: String::from_str(missing_code),
                message: String::from_str(missing_msg),
            },
        ),
    }
}

} // verus!
