//! Bisection root solver for the zone-of-influence boundary: the depth at
//! which the stress increment induced by a loaded foundation falls to one
//! tenth of the effective overburden stress.
use vstd::prelude::*;

use crate::aggregate::{MAX_DIMENSION, MAX_VALUE};
use crate::models::foundation::{foundation_field_error, Foundation};
use crate::models::soil_profile::SoilProfile;
use crate::validation::{field_views, first_field_error, validate_field, ValidationError};

verus! {

/// Tolerance on the difference function, which carries ten times a stress in
/// millionths: one hundredth of a tonne per square metre.
pub const DIFF_TOLERANCE: i128 = 100_000;

/// Iteration cap of the bisection loop.
pub const MAX_ITERATIONS: u32 = 100;

/// Magnitude bound on the net force handed to the solver.
pub const MAX_NET_FORCE: i128 = 1_000_000_000_000_000_000_000_000_000_000_000;

/// Ten times the difference between the induced stress increment and one
/// tenth of the effective stress at depth `z`: the increment spreads the net
/// force `f` over a rectangle grown by `z - df` in both plan directions. The
/// quotient rounds toward negative infinity.
pub open spec fn spec_diff10(p: SoilProfile, f: int, b: int, l: int, df: int, z: i64) -> int {
    let den = (b + z - df) * (l + z - df);
    10 * (f / den) - p.spec_effective_stress(z)
}

/// The magnitude of a difference value.
pub open spec fn abs_diff(d: int) -> int {
    if d >= 0 {
        d
    } else {
        -d
    }
}

/// One run of the bisection loop from the given bracket, midpoint and
/// iteration count: stop when the midpoint's difference is within tolerance or
/// the iteration cap is reached; return the zero fallback when the bracket has
/// collapsed after more than ten iterations; otherwise move the boundary on
/// the midpoint's side of the root and recurse on the new midpoint.
pub open spec fn spec_bisect(
    p: SoilProfile,
    f: int,
    b: int,
    l: int,
    df: int,
    b1: i64,
    b2: i64,
    mid: i64,
    n: int,
) -> i64
    decreases MAX_ITERATIONS as int - n,
{
    if n >= MAX_ITERATIONS as int || abs_diff(spec_diff10(p, f, b, l, df, mid))
        <= DIFF_TOLERANCE as int {
        mid
    } else if b1 == b2 && b1 == mid && n + 1 > 10 {
        0
    } else {
        let b1n = if spec_diff10(p, f, b, l, df, mid) > 0 {
            mid
        } else {
            b1
        };
        let b2n = if spec_diff10(p, f, b, l, df, mid) > 0 {
            b2
        } else {
            mid
        };
        let midn = ((b1n + b2n) / 2) as i64;
        spec_bisect(p, f, b, l, df, b1n, b2n, midn, n + 1)
    }
}

/// The upper end of the initial bracket, widened to one hundred widths when
/// the difference does not change sign over the initial bracket.
pub open spec fn spec_start_b2(p: SoilProfile, f: int, b: int, l: int, df: int) -> i64 {
    let b2a = (df + 3 * b / 2) as i64;
    if spec_diff10(p, f, b, l, df, df as i64) * spec_diff10(p, f, b, l, df, b2a) > 0 {
        (100 * b) as i64
    } else {
        b2a
    }
}

/// The depth the bisection solver returns for net force `f` on a foundation of
/// plan dimensions `b` by `l` founded at depth `df`. The starting midpoint is
/// fixed before any widening of the bracket.
pub open spec fn spec_find_effective_depth(p: SoilProfile, f: int, b: int, l: int, df: int) -> i64 {
    let b2a = (df + 3 * b / 2) as i64;
    let mid0 = ((df + b2a) / 2) as i64;
    spec_bisect(p, f, b, l, df, df as i64, spec_start_b2(p, f, b, l, df), mid0, 0)
}

/// Whatever the bracket does, the solver answers the zero fallback or a depth
/// within the bracket's envelope.
pub proof fn lemma_bisect_range(
    p: SoilProfile,
    f: int,
    b: int,
    l: int,
    df: int,
    b1: i64,
    b2: i64,
    mid: i64,
    n: int,
    lo: i64,
    hi: i64,
)
    requires
        lo <= b1 <= hi,
        lo <= b2 <= hi,
        lo <= mid <= hi,
        0 <= lo,
    ensures
        ({
            let r = spec_bisect(p, f, b, l, df, b1, b2, mid, n);
            r == 0 || lo <= r <= hi
        }),
    decreases MAX_ITERATIONS as int - n,
{
    if n >= MAX_ITERATIONS as int || abs_diff(spec_diff10(p, f, b, l, df, mid))
        <= DIFF_TOLERANCE as int {
    } else if b1 == b2 && b1 == mid && n + 1 > 10 {
    } else {
        let b1n = if spec_diff10(p, f, b, l, df, mid) > 0 {
            mid
        } else {
            b1
        };
        let b2n = if spec_diff10(p, f, b, l, df, mid) > 0 {
            b2
        } else {
            mid
        };
        let midn = ((b1n + b2n) / 2) as i64;
        lemma_midpoint_in_range(b1n as int, b2n as int, lo as int, hi as int);
        lemma_bisect_range(p, f, b, l, df, b1n, b2n, midn, n + 1, lo, hi);
    }
}

/// The floor midpoint of two values in a range stays in the range.
proof fn lemma_midpoint_in_range(a: int, b: int, lo: int, hi: int)
    requires
        lo <= a <= hi,
        lo <= b <= hi,
    ensures
        lo <= (a + b) / 2 <= hi,
{
    vstd::arithmetic::div_mod::lemma_div_is_ordered(2 * lo, a + b, 2);
    vstd::arithmetic::div_mod::lemma_div_is_ordered(a + b, 2 * hi, 2);
    vstd::arithmetic::div_mod::lemma_div_multiples_vanish(lo, 2);
    vstd::arithmetic::div_mod::lemma_div_multiples_vanish(hi, 2);
}

/// The field names the effective-depth calculation checks on the profile.
pub open spec fn profile_check_views() -> Seq<Seq<char>> {
    seq!["thickness"@, "dry_unit_weight"@, "saturated_unit_weight"@]
}

/// The field names the effective-depth calculation checks on the foundation.
pub open spec fn foundation_check_views() -> Seq<Seq<char>> {
    seq!["foundation_depth"@, "foundation_width"@, "foundation_length"@]
}

/// The condition under which the effective-depth inputs are accepted: the
/// profile's thickness and unit weights valid, the foundation's depth, width
/// and length valid, and a non-negative foundation pressure.
pub open spec fn effective_depth_input_ok(
    sp: SoilProfile,
    fd: Foundation,
    foundation_pressure: i64,
) -> bool {
    &&& sp.layers@.len() > 0
    &&& forall|i: int| 0 <= i < sp.layers@.len() ==> first_field_error(
        profile_check_views(),
        |f: Seq<char>| crate::models::soil_profile::soil_layer_field_error(
            #[trigger] sp.layers@[i],
            f,
        ),
    ) is None
    &&& crate::validation::field_ok(sp.ground_water_level, Some(0), None)
    &&& first_field_error(foundation_check_views(), |f: Seq<char>| foundation_field_error(fd, f))
        is None
    &&& foundation_pressure >= 0
}

/// Validates the input data for the effective-depth calculation.
///
/// # Arguments
/// * `soil_profile` - The soil profile data.
/// * `foundation` - The foundation data.
/// * `foundation_pressure` - The foundation pressure (q).
///
/// # Returns
/// * Ok if valid, the first validation error otherwise.
pub fn validate_input(
    soil_profile: &SoilProfile,
    foundation: &Foundation,
    foundation_pressure: i64,
) -> (r: Result<(), ValidationError>)
    ensures
        r is Ok <==> effective_depth_input_ok(*soil_profile, *foundation, foundation_pressure),
        r is Ok ==> {
            &&& foundation.foundation_depth matches Some(d) && d >= 0
            &&& foundation.foundation_width matches Some(w) && w >= 1
            &&& foundation.foundation_length matches Some(le) && le >= 1
        },
{
    let mut profile_fields: Vec<&str> = Vec::new();
    profile_fields.push("thickness");
    profile_fields.push("dry_unit_weight");
    profile_fields.push("saturated_unit_weight");
    proof {
        assert(field_views(profile_fields@) =~= profile_check_views());
    }
    match soil_profile.validate(profile_fields.as_slice()) {
        Ok(()) => {},
        Err(e) => {
            return Err(e);
        },
    }
    let mut foundation_fields: Vec<&str> = Vec::new();
    foundation_fields.push("foundation_depth");
    foundation_fields.push("foundation_width");
    foundation_fields.push("foundation_length");
    proof {
        assert(field_views(foundation_fields@) =~= foundation_check_views());
    }
    match foundation.validate(foundation_fields.as_slice()) {
        Ok(()) => {},
        Err(e) => {
            return Err(e);
        },
    }
    proof {
        let check = |f: Seq<char>| foundation_field_error(*foundation, f);
        let vs = foundation_check_views();
        assert(first_field_error(vs, check) is None);
        assert(vs[0] == "foundation_depth"@);
        assert(check(vs[0]) is None);
        assert(first_field_error(vs.drop_first(), check) is None);
        assert(vs.drop_first()[0] == "foundation_width"@);
        assert(check("foundation_width"@) is None);
        assert(first_field_error(vs.drop_first().drop_first(), check) is None);
        assert(vs.drop_first().drop_first()[0] == "foundation_length"@);
        assert(check("foundation_length"@) is None);
        reveal_strlit("foundation_depth");
        reveal_strlit("foundation_width");
        reveal_strlit("foundation_length");
        assert("foundation_width"@ != "foundation_depth"@) by {
            assert("foundation_width"@[11] == 'w');
            assert("foundation_depth"@[11] == 'd');
        }
        assert("foundation_length"@ != "foundation_depth"@);
        assert("foundation_length"@ != "foundation_width"@);
        assert(foundation_field_error(*foundation, "foundation_width"@) == crate::validation::field_error(
            "foundation_width"@,
            foundation.foundation_width,
            Some(1),
            foundation.foundation_length,
            "foundation"@,
        ));
        assert(foundation_field_error(*foundation, "foundation_length"@) == crate::validation::field_error(
            "foundation_length"@,
            foundation.foundation_length,
            Some(1),
            None,
            "foundation"@,
        ));
    }
    match validate_field("foundation_pressure", Some(foundation_pressure), Some(0), None, "loads") {
        Ok(()) => {},
        Err(e) => {
            return Err(e);
        },
    }
    Ok(())
}

/// Divides by a positive divisor, rounding toward negative infinity, matching
/// the quotient `/` denotes in specifications.
fn div_floor_i128(a: i128, b: i128) -> (r: i128)
    requires
        0 < b,
        -MAX_NET_FORCE <= a <= MAX_NET_FORCE,
    ensures
        r == a as int / b as int,
        a >= 0 ==> 0 <= r <= a,
        a < 0 ==> a <= r <= 0,
{
    if a >= 0 {
        proof {
            vstd::arithmetic::div_mod::lemma_div_pos_is_pos(a as int, b as int);
            vstd::arithmetic::div_mod::lemma_div_nonincreasing(a as int, b as int);
        }
        ((a as u128) / (b as u128)) as i128
    } else {
        let m: u128 = (-a) as u128;
        let q: u128 = (m + (b as u128) - 1) / (b as u128);
        proof {
            let mi = m as int;
            let bi = b as int;
            let qi = q as int;
            vstd::arithmetic::div_mod::lemma_fundamental_div_mod(mi + bi - 1, bi);
            assert(bi * qi <= mi + bi - 1);
            assert(bi * qi >= mi);
            assert(mi + bi - 1 <= bi * mi + bi - 1) by (nonlinear_arith)
                requires mi >= 1, bi >= 1;
            vstd::arithmetic::div_mod::lemma_div_is_ordered(mi + bi - 1, bi * mi + bi - 1, bi);
            vstd::arithmetic::div_mod::lemma_div_multiples_vanish_fancy(mi, bi - 1, bi);
            assert(qi <= mi);
            assert((-qi) * bi == -(bi * qi)) by (nonlinear_arith);
            vstd::arithmetic::div_mod::lemma_fundamental_div_mod_converse(
                -mi,
                bi,
                -qi,
                bi * qi - mi,
            );
            vstd::arithmetic::div_mod::lemma_div_pos_is_pos(mi, bi);
        }
        -(q as i128)
    }
}

/// Ten times the difference between the induced stress increment and one tenth
/// of the effective stress at depth `z`.
fn get_difference(z: i64, f: i128, b: i64, df: i64, l: i64, sp: &SoilProfile) -> (r: i128)
    requires
        sp.layers_wf(),
        sp.depths_computed(),
        sp.weights_wf(),
        0 <= z <= MAX_DIMENSION,
        1 <= b <= MAX_DIMENSION,
        1 <= l <= MAX_DIMENSION,
        0 <= df <= z,
        -MAX_NET_FORCE <= f <= MAX_NET_FORCE,
    ensures
        r == spec_diff10(*sp, f as int, b as int, l as int, df as int, z),
        -20 * MAX_NET_FORCE <= r <= 20 * MAX_NET_FORCE,
{
    proof {
        assert(1 <= ((b + z - df) as int) * ((l + z - df) as int) <= (3 * MAX_DIMENSION as int) * (
        3 * MAX_DIMENSION as int)) by (nonlinear_arith)
            requires
                1 <= (b + z - df) as int <= 3 * MAX_DIMENSION as int,
                1 <= (l + z - df) as int <= 3 * MAX_DIMENSION as int,
        ;
    }
    let den: i128 = ((b + z - df) as i128) * ((l + z - df) as i128);
    let dg: i128 = div_floor_i128(f, den);
    let effective_stress = sp.calc_effective_stress(z);
    10 * dg - effective_stress as i128
}

/// Finds the effective depth where the stress increment equals one tenth of
/// the effective stress, by bisection over the bracket from the foundation
/// depth to one and a half widths below it, widened to one hundred widths when
/// the difference does not change sign over it.
fn find_effective_depth(f: i128, b: i64, df: i64, l: i64, sp: &SoilProfile) -> (r: i64)
    requires
        sp.layers_wf(),
        sp.depths_computed(),
        sp.weights_wf(),
        1 <= b <= MAX_DIMENSION,
        1 <= l <= MAX_DIMENSION,
        0 <= df,
        df <= 100 * b,
        df + 2 * b <= MAX_DIMENSION,
        100 * b <= MAX_DIMENSION,
        -MAX_NET_FORCE <= f <= MAX_NET_FORCE,
    ensures
        r == spec_find_effective_depth(*sp, f as int, b as int, l as int, df as int),
        r == 0 || df <= r <= MAX_DIMENSION,
{
    let ghost fi = f as int;
    let ghost bi = b as int;
    let ghost li = l as int;
    let ghost dfi = df as int;
    let ghost target = spec_find_effective_depth(*sp, fi, bi, li, dfi);
    let ghost hi: int = if dfi + 3 * bi / 2 > 100 * bi {
        dfi + 3 * bi / 2
    } else {
        100 * bi
    };
    let mut boundary1: i64 = df;
    let threeb: i64 = ((3 * (b as u64)) / 2) as i64;
    let mut boundary2: i64 = df + threeb;
    let mut middle: i64 = ((boundary1 as u64 + boundary2 as u64) / 2) as i64;
    let mut n: u32 = 0;
    proof {
        assert(threeb as int == 3 * bi / 2);
        vstd::arithmetic::div_mod::lemma_div_is_ordered(3 * bi, 4 * bi, 2);
        vstd::arithmetic::div_mod::lemma_div_multiples_vanish(2 * bi, 2);
        assert(3 * bi / 2 <= 2 * bi);
        assert(hi <= MAX_DIMENSION as int);
        lemma_midpoint_in_range(boundary1 as int, boundary2 as int, dfi, hi);
    }

    // Check if both ends have same sign, then widen the boundary
    let d1 = get_difference(boundary1, f, b, df, l, sp);
    let d2 = get_difference(boundary2, f, b, df, l, sp);
    let same_sign = (d1 > 0 && d2 > 0) || (d1 < 0 && d2 < 0);
    proof {
        assert((((d1 as int) > 0 && (d2 as int) > 0) || ((d1 as int) < 0 && (d2 as int) < 0)) == ((
        d1 as int) * (d2 as int) > 0)) by (nonlinear_arith);
    }
    if same_sign {
        boundary2 = 100 * b;
    }
    proof {
        assert(boundary2 == spec_start_b2(*sp, fi, bi, li, dfi));
        assert(target == spec_bisect(*sp, fi, bi, li, dfi, boundary1, boundary2, middle, n as int));
    }

    // Bisection loop
    let diff0 = get_difference(middle, f, b, df, l, sp);
    let mut diff_middle: i128 = diff0;
    let mut abs_middle: i128 = if diff0 >= 0 {
        diff0
    } else {
        -diff0
    };
    while abs_middle > DIFF_TOLERANCE && n < MAX_ITERATIONS
        invariant
            sp.layers_wf(),
            sp.depths_computed(),
            sp.weights_wf(),
            1 <= b <= MAX_DIMENSION,
            1 <= l <= MAX_DIMENSION,
            0 <= df,
            df <= 100 * b,
            df + 2 * b <= MAX_DIMENSION,
            100 * b <= MAX_DIMENSION,
            -MAX_NET_FORCE <= f <= MAX_NET_FORCE,
            fi == f as int && bi == b as int && li == l as int && dfi == df as int,
            target == spec_find_effective_depth(*sp, fi, bi, li, dfi),
            hi == if dfi + 3 * bi / 2 > 100 * bi {
                dfi + 3 * bi / 2
            } else {
                100 * bi
            },
            hi <= MAX_DIMENSION as int,
            dfi <= boundary1 as int <= hi,
            dfi <= boundary2 as int <= hi,
            dfi <= middle as int <= hi,
            0 <= n <= MAX_ITERATIONS,
            diff_middle == spec_diff10(*sp, fi, bi, li, dfi, middle),
            abs_middle == abs_diff(spec_diff10(*sp, fi, bi, li, dfi, middle)),
            target == spec_bisect(*sp, fi, bi, li, dfi, boundary1, boundary2, middle, n as int),
        decreases MAX_ITERATIONS - n,
    {
        let ghost ob1 = boundary1;
        let ghost ob2 = boundary2;
        let ghost omid = middle;
        let ghost on = n as int;
        n = n + 1;
        if boundary1 == boundary2 && boundary1 == middle && n > 10 {
            proof {
                assert(n as int == on + 1);
                assert(abs_diff(spec_diff10(*sp, fi, bi, li, dfi, omid)) > DIFF_TOLERANCE as int);
                assert(on < MAX_ITERATIONS as int);
                assert(ob1 == ob2 && ob1 == omid && on + 1 > 10);
                assert(spec_bisect(*sp, fi, bi, li, dfi, ob1, ob2, omid, on) == 0);
                assert(target == 0);
            }
            return 0;
        }
        if diff_middle > 0 {
            boundary1 = middle;
        } else {
            boundary2 = middle;
        }
        middle = ((boundary1 as u64 + boundary2 as u64) / 2) as i64;
        proof {
            lemma_midpoint_in_range(boundary1 as int, boundary2 as int, dfi, hi);
            assert(spec_bisect(*sp, fi, bi, li, dfi, ob1, ob2, omid, on) == spec_bisect(
                *sp,
                fi,
                bi,
                li,
                dfi,
                boundary1,
                boundary2,
                middle,
                on + 1,
            ));
        }
        let d = get_difference(middle, f, b, df, l, sp);
        diff_middle = d;
        abs_middle = if d >= 0 {
            d
        } else {
            -d
        };
    }
    proof {
        assert(target == middle);
    }
    middle
}

/// Public function to calculate the effective depth — the depth at which the
/// stress increment induced by the foundation falls to one tenth of the
/// effective stress — based on foundation and soil data.
///
/// # Arguments
/// * `soil_profile` - A reference to a `SoilProfile` object.
/// * `foundation_data` - A reference to a `Foundation` object.
/// * `foundation_pressure` - The pressure applied by the foundation.
///
/// # Returns
/// * The effective depth, or the first validation error.
pub fn calc_effective_depth(
    soil_profile: &SoilProfile,
    foundation_data: &Foundation,
    foundation_pressure: i64,
) -> (r: Result<i64, ValidationError>)
    requires
        soil_profile.layers_wf(),
        soil_profile.depths_computed(),
        soil_profile.weights_wf(),
        foundation_data.foundation_depth matches Some(d) ==> 0 <= d,
        foundation_data.foundation_width matches Some(w) ==> w <= MAX_DIMENSION,
        foundation_data.foundation_length matches Some(le) ==> le <= MAX_DIMENSION,
        foundation_data.foundation_depth matches Some(d) ==> (foundation_data.foundation_width
            matches Some(w) ==> (d <= 100 * w && d + 2 * w <= MAX_DIMENSION && 100 * w
            <= MAX_DIMENSION)),
        0 <= foundation_pressure <= MAX_VALUE,
    ensures
        r is Ok <==> effective_depth_input_ok(
            *soil_profile,
            *foundation_data,
            foundation_pressure,
        ),
        r matches Ok(depth) ==> {
            let df = foundation_data.foundation_depth->0;
            let b = foundation_data.foundation_width->0;
            let l = foundation_data.foundation_length->0;
            let q_net = foundation_pressure - soil_profile.spec_normal_stress(df);
            &&& depth == spec_find_effective_depth(
                *soil_profile,
                q_net * b * l,
                b as int,
                l as int,
                df as int,
            )
            &&& (depth == 0 || df <= depth <= MAX_DIMENSION)
        },
{
    match validate_input(soil_profile, foundation_data, foundation_pressure) {
        Ok(()) => {},
        Err(e) => {
            return Err(e);
        },
    }

    let df = foundation_data.foundation_depth.unwrap();
    let b = foundation_data.foundation_width.unwrap();
    let l = foundation_data.foundation_length.unwrap();

    let q_net = foundation_pressure - soil_profile.calc_normal_stress(df);
    proof {
        assert(-1000000000000000000000000 <= (q_net as int) * (b as int)
            <= 1000000000000000000000000) by (nonlinear_arith)
            requires
                -300000000000000 <= q_net as int <= 1000000000000,
                1 <= b as int <= MAX_DIMENSION as int,
        ;
        assert(-MAX_NET_FORCE as int <= ((q_net as int) * (b as int)) * (l as int)
            <= MAX_NET_FORCE as int) by (nonlinear_arith)
            requires
                -1000000000000000000000000 <= (q_net as int) * (b as int)
                    <= 1000000000000000000000000,
                1 <= l as int <= MAX_DIMENSION as int,
        ;
    }
    let fq: i128 = (q_net as i128) * (b as i128) * (l as i128);

    let result = find_effective_depth(fq, b, df, l, soil_profile);
    proof {
        lemma_bisect_range(
            *soil_profile,
            fq as int,
            b as int,
            l as int,
            df as int,
            df,
            spec_start_b2(*soil_profile, fq as int, b as int, l as int, df as int),
            (((df as int) + ((df as int) + 3 * (b as int) / 2) as i64 as int) / 2) as i64,
            0,
            df,
            MAX_DIMENSION as i64,
        );
    }

    Ok(result)
}

} // verus!
