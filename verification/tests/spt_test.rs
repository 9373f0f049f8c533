//! SPT blow counts: the refusal sentinel, blow arithmetic and the idealization
//! of several boreholes. Depths are thousandths of a metre, factors
//! thousandths.
use soilrust::enums::SelectionMethod;
use soilrust::models::spt::{NValue, SPTBlow, SPTExp, SPT};

// -------------------------------------------------------------------------------------------
// Test NValue
#[test]
fn test_nvalue_from_i32() {
    assert_eq!(NValue::from_i32(10), NValue::Value(10));
}

#[test]
fn test_nvalue_to_i32() {
    assert_eq!(NValue::Value(10).to_i32(), 10);
    assert_eq!(NValue::Value(0).to_i32(), 0);
    assert_eq!(NValue::Refusal.to_i32(), 50);
}

#[test]
fn test_nvalue_to_option() {
    assert_eq!(NValue::Value(10).to_option(), Some(10));
    assert_eq!(NValue::Refusal.to_option(), Some(50));
}

#[test]
fn test_nvalue_mul_by_f64() {
    assert_eq!(NValue::Value(10).mul_by_milli(2000), NValue::Value(20));
    // 5 * 2.5 = 12.5 -> rounded up to 13
    assert_eq!(NValue::Value(5).mul_by_milli(2500), NValue::Value(13));
    assert_eq!(NValue::Refusal.mul_by_milli(3000), NValue::Refusal);
}

#[test]
fn test_nvalue_sum_with() {
    assert_eq!(
        NValue::Value(10).sum_with(NValue::Value(5)),
        NValue::Value(15)
    );
    assert_eq!(
        NValue::Value(0).sum_with(NValue::Value(0)),
        NValue::Value(0)
    );
    assert_eq!(NValue::Value(10).sum_with(NValue::Refusal), NValue::Refusal);
    assert_eq!(NValue::Refusal.sum_with(NValue::Value(5)), NValue::Refusal);
    assert_eq!(NValue::Refusal.sum_with(NValue::Refusal), NValue::Refusal);
}

#[test]
fn test_nvalue_add_f64() {
    // 10 + 5.5 -> rounded up to 16
    assert_eq!(NValue::Value(10).add_milli(5500), NValue::Value(16));
    // 3 + 1.9 -> rounded up to 5
    assert_eq!(NValue::Value(3).add_milli(1900), NValue::Value(5));
    assert_eq!(NValue::Refusal.add_milli(5000), NValue::Refusal);
}

#[test]
fn test_nvalue_default() {
    assert_eq!(NValue::default(), NValue::Value(0));
}

#[test]
fn test_nvalue_display() {
    assert_eq!(NValue::Value(42).text(), "42");
    assert_eq!(NValue::Refusal.text(), "R");
}

#[test]
fn test_nvalue_ordering() {
    assert!(NValue::Refusal > NValue::Value(1000));
    assert!(NValue::Refusal > NValue::Value(0));
    assert!(NValue::Refusal > NValue::Value(-50));
    assert!(NValue::Value(10) > NValue::Value(5));
    assert!(NValue::Value(5) < NValue::Value(10));
    assert_eq!(NValue::Refusal, NValue::Refusal);
    assert_eq!(NValue::Value(10), NValue::Value(10));
}
// -------------------------------------------------------------------------------------------

// Test SPTBlow
#[test]
fn test_sptblow_new() {
    let spt = SPTBlow::new(10_000, NValue::from_i32(25), NValue::from_i32(12), NValue::from_i32(13));

    assert_eq!(spt.depth, Some(10_000));
    assert_eq!(spt.n, Some(NValue::from_i32(25)));
    assert_eq!(spt.n60, None);
    assert_eq!(spt.n90, None);
    assert_eq!(spt.thickness, None);
}

#[test]
fn test_apply_energy_correction() {
    let mut spt = SPTBlow::new(10_000, NValue::from_i32(25), NValue::from_i32(12), NValue::from_i32(13));
    spt.apply_energy_correction(1200);

    assert_eq!(spt.n60, Some(NValue::from_i32(30))); // 25 * 1.2 = 30
    assert_eq!(spt.n90, Some(NValue::from_i32(45))); // 30 * 1.5 = 45
}

// -------------------------------------------------------------------------------------------

fn blow(depth: i64, n: NValue) -> SPTBlow {
    SPTBlow {
        depth: Some(depth),
        n: Some(n),
        ..Default::default()
    }
}

// Test SPT: each borehole is sampled at every distinct depth by its own
// nearest-depth lookup before the policy reduces the counts.
#[test]
fn test_get_idealized_exp() {
    let exp1 = SPTExp::new(
        vec![
            blow(1500, NValue::Value(10)),
            blow(2000, NValue::Value(20)),
            blow(3000, NValue::Refusal),
        ],
        "exp1".to_string(),
    );
    let exp2 = SPTExp::new(
        vec![blow(1500, NValue::Value(15)), blow(3000, NValue::Value(14))],
        "exp2".to_string(),
    );

    let cr = 1100;
    let cs = 900;
    let cb = 1050;
    let ce = 1200;
    let mut spt = SPT::new(ce, cb, cs, cr, SelectionMethod::Min);
    spt.add_exp(exp1);
    spt.add_exp(exp2);

    let idealized_exp_min = spt.get_idealized_exp("idealized_exp_min".to_string());

    spt.idealization_method = SelectionMethod::Avg;
    let idealized_exp_avg = spt.get_idealized_exp("idealized_exp_avg".to_string());

    spt.idealization_method = SelectionMethod::Max;
    let idealized_exp_max = spt.get_idealized_exp("idealized_exp_max".to_string());

    assert_eq!(idealized_exp_min.name, "idealized_exp_min");
    assert_eq!(idealized_exp_avg.name, "idealized_exp_avg");
    assert_eq!(idealized_exp_max.name, "idealized_exp_max");

    assert_eq!(idealized_exp_min.blows.len(), 3);
    assert_eq!(idealized_exp_avg.blows.len(), 3);
    assert_eq!(idealized_exp_max.blows.len(), 3);

    assert_eq!(idealized_exp_min.blows[0].depth.unwrap(), 1500);
    assert_eq!(idealized_exp_min.blows[1].depth.unwrap(), 2000);
    assert_eq!(idealized_exp_min.blows[2].depth.unwrap(), 3000);

    assert_eq!(idealized_exp_avg.blows[0].depth.unwrap(), 1500);
    assert_eq!(idealized_exp_avg.blows[1].depth.unwrap(), 2000);
    assert_eq!(idealized_exp_avg.blows[2].depth.unwrap(), 3000);

    assert_eq!(idealized_exp_max.blows[0].depth.unwrap(), 1500);
    assert_eq!(idealized_exp_max.blows[1].depth.unwrap(), 2000);
    assert_eq!(idealized_exp_max.blows[2].depth.unwrap(), 3000);

    // At depth 2.0 the second borehole has no blow of its own; its
    // nearest-depth lookup answers with the blow at 3.0 (n = 14).
    assert_eq!(idealized_exp_min.blows[0].n, Some(NValue::Value(10)));
    assert_eq!(idealized_exp_min.blows[1].n, Some(NValue::Value(14)));
    assert_eq!(idealized_exp_min.blows[2].n, Some(NValue::Value(14)));

    assert_eq!(idealized_exp_avg.blows[0].n, Some(NValue::Value(13)));
    assert_eq!(idealized_exp_avg.blows[1].n, Some(NValue::Value(17)));
    assert_eq!(idealized_exp_avg.blows[2].n, Some(NValue::Value(32)));

    assert_eq!(idealized_exp_max.blows[0].n, Some(NValue::Value(15)));
    assert_eq!(idealized_exp_max.blows[1].n, Some(NValue::Value(20)));
    assert_eq!(idealized_exp_max.blows[2].n, Some(NValue::Refusal));
}

// A single borehole without refusals comes back unchanged under every policy.
#[test]
fn test_get_idealized_exp_single_source_identity() {
    for mode in [
        SelectionMethod::Min,
        SelectionMethod::Avg,
        SelectionMethod::Max,
    ] {
        let exp = SPTExp::new(
            vec![
                blow(1200, NValue::Value(7)),
                blow(2400, NValue::Value(11)),
                blow(3600, NValue::Value(23)),
            ],
            "single".to_string(),
        );
        let mut spt = SPT::new(1000, 1000, 1000, 1000, mode);
        spt.add_exp(exp);
        let ideal = spt.get_idealized_exp("ideal".to_string());
        assert_eq!(ideal.blows.len(), 3);
        assert_eq!(ideal.blows[0].depth, Some(1200));
        assert_eq!(ideal.blows[1].depth, Some(2400));
        assert_eq!(ideal.blows[2].depth, Some(3600));
        assert_eq!(ideal.blows[0].n, Some(NValue::Value(7)));
        assert_eq!(ideal.blows[1].n, Some(NValue::Value(11)));
        assert_eq!(ideal.blows[2].n, Some(NValue::Value(23)));
    }
}

// Where every borehole refused, the minimum stays the refusal sentinel while
// the average substitutes its 50-blow ceiling: the documented exception to the
// policy order for the refusal field.
#[test]
fn test_get_idealized_exp_all_refusals_exception() {
    let exp1 = SPTExp::new(vec![blow(1500, NValue::Refusal)], "exp1".to_string());
    let exp2 = SPTExp::new(vec![blow(1500, NValue::Refusal)], "exp2".to_string());
    let mut spt = SPT::new(1000, 1000, 1000, 1000, SelectionMethod::Min);
    spt.add_exp(exp1.clone());
    spt.add_exp(exp2.clone());
    let ideal_min = spt.get_idealized_exp("min".to_string());
    spt.idealization_method = SelectionMethod::Avg;
    let ideal_avg = spt.get_idealized_exp("avg".to_string());
    spt.idealization_method = SelectionMethod::Max;
    let ideal_max = spt.get_idealized_exp("max".to_string());
    assert_eq!(ideal_min.blows[0].n, Some(NValue::Refusal));
    assert_eq!(ideal_avg.blows[0].n, Some(NValue::Value(50)));
    assert_eq!(ideal_max.blows[0].n, Some(NValue::Refusal));
    // under the refusal-topped order the minimum outranks the substituted mean
    assert!(ideal_min.blows[0].n.unwrap() > ideal_avg.blows[0].n.unwrap());
}

#[test]
fn test_spt_validate_rejects_empty() {
    let spt = SPT::new(1000, 1000, 1000, 1000, SelectionMethod::Avg);
    let err = spt.validate(&["depth", "n"]).unwrap_err();
    assert_eq!(err.code, "spt.empty_exps");
    assert_eq!(err.message, "No experiments provided for SPT.");
}

#[test]
fn test_spt_blow_validate_low_count() {
    let mut b = blow(1500, NValue::Value(0));
    b.thickness = Some(1500);
    let err = b.validate(&["depth", "thickness", "n"]).unwrap_err();
    assert_eq!(err.code, "spt.n.too_small.1");
    assert_eq!(err.message, "n must be greater than or equal to 1.");
}

#[test]
fn test_spt_exp_corrections() {
    let mut exp = SPTExp::new(
        vec![
            blow(1500, NValue::Value(10)),
            blow(3000, NValue::Value(20)),
        ],
        "exp".to_string(),
    );
    exp.apply_energy_correction(900);
    // ceil(10 * 0.9) = 9, ceil(9 * 1.5) = 14; ceil(20 * 0.9) = 18, 18 * 1.5 = 27
    assert_eq!(exp.blows[0].n60, Some(NValue::Value(9)));
    assert_eq!(exp.blows[0].n90, Some(NValue::Value(14)));
    assert_eq!(exp.blows[1].n60, Some(NValue::Value(18)));
    assert_eq!(exp.blows[1].n90, Some(NValue::Value(27)));
    exp.calc_thicknesses();
    assert_eq!(exp.blows[0].thickness, Some(1500));
    assert_eq!(exp.blows[1].thickness, Some(1500));
}
