//! CPT records and the idealization of several soundings. Depths are
//! thousandths of a metre, resistances thousandths of a megapascal.
use soilrust::enums::SelectionMethod;
use soilrust::models::cpt::{CPTExp, CPTLayer, CPT};

#[test]
fn test_calc_friction_ratio_valid() {
    let mut layer = CPTLayer::new(1000, 10_000, 500, Some(200));
    layer.calc_friction_ratio();
    assert!(layer.friction_ratio.is_some());
    let rf = layer.friction_ratio.unwrap();
    assert_eq!(rf, 5000); // 0.5 / 10.0 * 100 = 5.0%
}

#[test]
fn test_calc_friction_ratio_zero_cone_resistance() {
    let mut layer = CPTLayer::new(1000, 0, 500, Some(200));
    layer.calc_friction_ratio();
    assert!(layer.friction_ratio.is_none());
}

fn create_test_layers() -> Vec<CPTLayer> {
    vec![
        CPTLayer::new(1000, 10_000, 500, Some(200)),
        CPTLayer::new(2000, 11_000, 600, Some(300)),
        CPTLayer::new(3000, 12_000, 700, Some(400)),
    ]
}

#[test]
fn test_get_layer_at_exact_depth() {
    let layers = create_test_layers();
    let cpt = CPTExp::new(layers.clone(), "Test CPT".to_string());

    let layer = cpt.get_layer_at_depth(2000);
    assert_eq!(layer.depth.unwrap(), 2000);
}

#[test]
fn test_get_layer_at_intermediate_depth() {
    let layers = create_test_layers();
    let cpt = CPTExp::new(layers.clone(), "Test CPT".to_string());

    let layer = cpt.get_layer_at_depth(2500);
    assert_eq!(layer.depth.unwrap(), 3000);
}

#[test]
fn test_get_layer_at_depth_exceeds_all_layers() {
    let layers = create_test_layers();
    let cpt = CPTExp::new(layers.clone(), "Test CPT".to_string());

    let layer = cpt.get_layer_at_depth(5000);
    assert_eq!(layer.depth.unwrap(), 3000); // last layer
}

#[test]
#[should_panic]
fn test_get_layer_with_empty_layers_should_panic() {
    let cpt = CPTExp::new(vec![], "Empty CPT".to_string());
    cpt.get_layer_at_depth(1000); // Should panic: no layer to return
}

fn create_test_cpt() -> CPT {
    let exp1 = CPTExp::new(
        vec![
            CPTLayer::new(1500, 160_000, 390_000, None),
            CPTLayer::new(2000, 170_000, 395_000, None),
            CPTLayer::new(3000, 180_000, 400_000, None),
        ],
        "Exp1".into(),
    );

    let exp2 = CPTExp::new(
        vec![
            CPTLayer::new(1500, 150_000, 380_000, None),
            CPTLayer::new(3000, 160_000, 390_000, None),
            CPTLayer::new(5500, 170_000, 395_000, None),
            CPTLayer::new(6500, 180_000, 400_000, None),
        ],
        "Exp2".into(),
    );

    CPT::new(vec![exp1, exp2], SelectionMethod::Min)
}

#[test]
fn cpt_test_test_get_idealized_exp_min_mode() {
    let cpt = create_test_cpt();

    let ideal = cpt.get_idealized_exp("Ideal_Min".into());

    // Sanity checks
    assert_eq!(ideal.name, "Ideal_Min");

    // Should be based on union of depths: [1.5, 2.0, 3.0, 5.5, 6.5]
    assert_eq!(ideal.layers.len(), 5);

    // Check first layer values
    let layer1 = &ideal.layers[0];
    assert_eq!(layer1.depth.unwrap(), 1500);
    assert_eq!(layer1.cone_resistance.unwrap(), 150_000);
    assert_eq!(layer1.sleeve_friction.unwrap(), 380_000);

    // Check last layer depth
    let last_layer = ideal.layers.last().unwrap();
    assert_eq!(last_layer.depth.unwrap(), 6500);
}

#[test]
fn cpt_test_test_get_idealized_exp_avg_mode() {
    let mut cpt = create_test_cpt();

    cpt.idealization_method = SelectionMethod::Avg;
    let ideal = cpt.get_idealized_exp("Ideal_Avg".into());

    // Sanity checks
    assert_eq!(ideal.name, "Ideal_Avg");

    // Should be based on union of depths: [1.5, 2.0, 3.0, 5.5, 6.5]
    assert_eq!(ideal.layers.len(), 5);

    // Check first layer values
    let layer1 = &ideal.layers[0];
    assert_eq!(layer1.depth.unwrap(), 1500);
    assert_eq!(layer1.cone_resistance.unwrap(), 155_000);
    assert_eq!(layer1.sleeve_friction.unwrap(), 385_000);

    // Check last layer depth
    let last_layer = ideal.layers.last().unwrap();
    assert_eq!(last_layer.depth.unwrap(), 6500);
}

#[test]
fn cpt_test_test_get_idealized_exp_max_mode() {
    let mut cpt = create_test_cpt();

    cpt.idealization_method = SelectionMethod::Max;
    let ideal = cpt.get_idealized_exp("Ideal_Max".into());

    // Sanity checks
    assert_eq!(ideal.name, "Ideal_Max");

    // Should be based on union of depths: [1.5, 2.0, 3.0, 5.5, 6.5]
    assert_eq!(ideal.layers.len(), 5);

    // Check first layer values
    let layer1 = &ideal.layers[0];
    assert_eq!(layer1.depth.unwrap(), 1500);
    assert_eq!(layer1.cone_resistance.unwrap(), 160_000);
    assert_eq!(layer1.sleeve_friction.unwrap(), 390_000);

    // Check last layer depth
    let last_layer = ideal.layers.last().unwrap();
    assert_eq!(last_layer.depth.unwrap(), 6500);
}

// The idealized depths are exactly the sorted union of the source depths.
#[test]
fn test_idealized_depths_are_sorted_union() {
    let cpt = create_test_cpt();
    let ideal = cpt.get_idealized_exp("Ideal".into());
    let depths: Vec<i64> = ideal.layers.iter().map(|l| l.depth.unwrap()).collect();
    assert_eq!(depths, vec![1500, 2000, 3000, 5500, 6500]);
}

// Per field and per depth, Max-mode >= Avg-mode >= Min-mode.
#[test]
fn test_idealized_policy_order() {
    let mut cpt = create_test_cpt();
    cpt.idealization_method = SelectionMethod::Min;
    let lo = cpt.get_idealized_exp("lo".into());
    cpt.idealization_method = SelectionMethod::Avg;
    let mid = cpt.get_idealized_exp("mid".into());
    cpt.idealization_method = SelectionMethod::Max;
    let hi = cpt.get_idealized_exp("hi".into());
    for k in 0..lo.layers.len() {
        assert!(lo.layers[k].cone_resistance.unwrap() <= mid.layers[k].cone_resistance.unwrap());
        assert!(mid.layers[k].cone_resistance.unwrap() <= hi.layers[k].cone_resistance.unwrap());
        assert!(lo.layers[k].sleeve_friction.unwrap() <= mid.layers[k].sleeve_friction.unwrap());
        assert!(mid.layers[k].sleeve_friction.unwrap() <= hi.layers[k].sleeve_friction.unwrap());
        assert!(lo.layers[k].pore_pressure.unwrap() <= mid.layers[k].pore_pressure.unwrap());
        assert!(mid.layers[k].pore_pressure.unwrap() <= hi.layers[k].pore_pressure.unwrap());
    }
}

// A single sounding comes back unchanged under every policy.
#[test]
fn test_cpt_single_source_identity() {
    for mode in [
        SelectionMethod::Min,
        SelectionMethod::Avg,
        SelectionMethod::Max,
    ] {
        let exp = CPTExp::new(
            vec![
                CPTLayer::new(1000, 10_000, 500, Some(200)),
                CPTLayer::new(2000, 11_000, 600, Some(300)),
            ],
            "only".into(),
        );
        let cpt = CPT::new(vec![exp], mode);
        let ideal = cpt.get_idealized_exp("Ideal".into());
        assert_eq!(ideal.layers.len(), 2);
        assert_eq!(ideal.layers[0].depth, Some(1000));
        assert_eq!(ideal.layers[0].cone_resistance, Some(10_000));
        assert_eq!(ideal.layers[0].sleeve_friction, Some(500));
        assert_eq!(ideal.layers[0].pore_pressure, Some(200));
        assert_eq!(ideal.layers[1].depth, Some(2000));
        assert_eq!(ideal.layers[1].cone_resistance, Some(11_000));
        assert_eq!(ideal.layers[1].sleeve_friction, Some(600));
        assert_eq!(ideal.layers[1].pore_pressure, Some(300));
    }
}

// An empty collection idealizes to an empty, named experiment.
#[test]
fn test_cpt_empty_collection() {
    let cpt = CPT::new(vec![], SelectionMethod::Avg);
    let ideal = cpt.get_idealized_exp("Empty".into());
    assert_eq!(ideal.name, "Empty");
    assert_eq!(ideal.layers.len(), 0);
}

#[test]
fn test_cpt_validate_errors() {
    let cpt = CPT::new(vec![], SelectionMethod::Avg);
    let err = cpt.validate(&["depth"]).unwrap_err();
    assert_eq!(err.code, "cpt.empty_exps");
    assert_eq!(err.message, "No experiments found in CPT.");

    let exp = CPTExp::new(vec![], "empty".into());
    let err = exp.validate(&["depth"]).unwrap_err();
    assert_eq!(err.code, "cpt.empty_layers");

    let layer = CPTLayer::new(-1000, 10_000, 500, None);
    let err = layer.validate(&["depth"]).unwrap_err();
    assert_eq!(err.code, "cpt.depth.too_small.0");
    assert_eq!(err.message, "depth must be greater than or equal to 0.");

    let layer = CPTLayer {
        depth: Some(1000),
        cone_resistance: None,
        sleeve_friction: Some(0),
        pore_pressure: None,
        friction_ratio: None,
    };
    let err = layer.validate(&["depth", "cone_resistance"]).unwrap_err();
    assert_eq!(err.code, "cpt.cone_resistance.missing");
    assert_eq!(err.message, "cone_resistance must be provided.");

    let layer = CPTLayer::new(1000, 10_000, 500, None);
    let err = layer.validate(&["no_such_field"]).unwrap_err();
    assert_eq!(err.code, "cpt.invalid_field");
    assert_eq!(err.message, "Field 'no_such_field' is not valid for CPT.");
}
