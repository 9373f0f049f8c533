//! MASW layers and the interval idealization of several survey lines. Lengths
//! are thousandths of a metre, velocities thousandths of a metre per second.
use soilrust::enums::SelectionMethod;
use soilrust::models::masw::{Masw, MaswExp, MaswLayer};

#[test]
fn test_calc_depths() {
    let layers = vec![
        MaswLayer::new(1500, 1000, 1000),
        MaswLayer::new(2500, 1000, 1000),
        MaswLayer::new(4000, 1000, 1000),
    ];

    let mut masw_exp = MaswExp {
        layers,
        name: "Test".to_string(),
    };
    masw_exp.calc_depths();

    assert_eq!(masw_exp.layers[0].depth, Some(1500));
    assert_eq!(masw_exp.layers[1].depth, Some(4000));
    assert_eq!(masw_exp.layers[2].depth, Some(8000));
}

#[test]
fn test_get_layer_at_depth() {
    let layers = vec![
        MaswLayer::new(2000, 1000, 1000),
        MaswLayer::new(3000, 2000, 2000),
        MaswLayer::new(5000, 3000, 3000),
    ];

    let masw_exp = MaswExp::new(layers, "Test".to_string());

    let layer = masw_exp.get_layer_at_depth(4000);
    assert_eq!(layer.vs.unwrap(), 2000); // The second layer should be returned

    let layer = masw_exp.get_layer_at_depth(15_000);
    assert_eq!(layer.vs.unwrap(), 3000);
}

fn create_test_maws() -> Masw {
    let exp1 = MaswExp::new(
        vec![
            MaswLayer::new(2000, 180_000, 400_000), // depth: 2.0
            MaswLayer::new(3000, 200_000, 450_000), // depth: 5.0
        ],
        "Exp1".into(),
    );

    let exp2 = MaswExp::new(
        vec![
            MaswLayer::new(1500, 170_000, 390_000), // depth: 1.5
            MaswLayer::new(4000, 190_000, 430_000), // depth: 5.5
        ],
        "Exp2".into(),
    );

    let exp3 = MaswExp::new(
        vec![
            MaswLayer::new(3000, 160_000, 395_000), // depth: 3.0
            MaswLayer::new(3000, 180_000, 420_000), // depth: 6.0
        ],
        "Exp3".into(),
    );

    Masw::new(vec![exp1, exp2, exp3], SelectionMethod::Min)
}

#[test]
fn masw_test_test_get_idealized_exp_min_mode() {
    let mut masw = create_test_maws();

    let ideal = masw.get_idealized_exp("Ideal_Min".into());

    // Sanity checks
    assert_eq!(ideal.name, "Ideal_Min");

    // Should be based on union of depths: [1.5, 2.0, 3.0, 5.0, 5.5, 6.0]
    assert_eq!(ideal.layers.len(), 6);

    // Check first layer values
    let layer1 = &ideal.layers[0];
    assert_eq!(layer1.thickness.unwrap(), 1500);
    assert_eq!(layer1.vs.unwrap(), 160_000);
    assert_eq!(layer1.vp.unwrap(), 390_000);

    // Check last layer depth
    let last_layer = ideal.layers.last().unwrap();
    assert_eq!(last_layer.depth, Some(6000));
}

#[test]
fn masw_test_test_get_idealized_exp_avg_mode() {
    let mut masw = create_test_maws();

    masw.idealization_method = SelectionMethod::Avg;
    let ideal = masw.get_idealized_exp("Ideal_Avg".into());

    // Sanity checks
    assert_eq!(ideal.name, "Ideal_Avg");

    // Should be based on union of depths: [1.5, 2.0, 3.0, 5.0, 5.5, 6.0]
    assert_eq!(ideal.layers.len(), 6);

    // Check first layer values
    let layer1 = &ideal.layers[0];
    assert_eq!(layer1.thickness.unwrap(), 1500);
    assert_eq!(layer1.vs.unwrap(), 170_000);
    assert_eq!(layer1.vp.unwrap(), 395_000);

    // Check last layer depth
    let last_layer = ideal.layers.last().unwrap();
    assert_eq!(last_layer.depth, Some(6000));
}

#[test]
fn masw_test_test_get_idealized_exp_max_mode() {
    let mut masw = create_test_maws();

    masw.idealization_method = SelectionMethod::Max;
    let ideal = masw.get_idealized_exp("Ideal_Max".into());

    // Sanity checks
    assert_eq!(ideal.name, "Ideal_Max");

    // Should be based on union of depths: [1.5, 2.0, 3.0, 5.0, 5.5, 6.0]
    assert_eq!(ideal.layers.len(), 6);

    // Check first layer values
    let layer1 = &ideal.layers[0];
    assert_eq!(layer1.thickness.unwrap(), 1500);
    assert_eq!(layer1.vs.unwrap(), 180_000);
    assert_eq!(layer1.vp.unwrap(), 400_000);

    // Check last layer depth
    let last_layer = ideal.layers.last().unwrap();
    assert_eq!(last_layer.depth, Some(6000));
}

// The idealized intervals tile the ground from the surface to the deepest
// source depth: each layer starts where the previous one ends.
#[test]
fn test_idealized_intervals_partition() {
    let mut masw = create_test_maws();
    let ideal = masw.get_idealized_exp("Ideal".into());
    let mut prev: i64 = 0;
    for layer in &ideal.layers {
        assert_eq!(layer.depth.unwrap(), prev + layer.thickness.unwrap());
        prev = layer.depth.unwrap();
    }
    assert_eq!(prev, 6000); // the deepest source depth
}

// A single line comes back unchanged under every policy.
#[test]
fn test_masw_single_source_identity() {
    for mode in [
        SelectionMethod::Min,
        SelectionMethod::Avg,
        SelectionMethod::Max,
    ] {
        let exp = MaswExp::new(
            vec![
                MaswLayer::new(2000, 180_000, 400_000),
                MaswLayer::new(3000, 200_000, 450_000),
            ],
            "only".into(),
        );
        let mut masw = Masw::new(vec![exp], mode);
        let ideal = masw.get_idealized_exp("Ideal".into());
        assert_eq!(ideal.layers.len(), 2);
        assert_eq!(ideal.layers[0].thickness, Some(2000));
        assert_eq!(ideal.layers[0].vs, Some(180_000));
        assert_eq!(ideal.layers[0].vp, Some(400_000));
        assert_eq!(ideal.layers[1].thickness, Some(3000));
        assert_eq!(ideal.layers[1].vs, Some(200_000));
        assert_eq!(ideal.layers[1].vp, Some(450_000));
    }
}

#[test]
fn test_masw_validate_errors() {
    let exp = MaswExp {
        layers: vec![],
        name: "empty".to_string(),
    };
    let err = exp.validate(&["vs"]).unwrap_err();
    assert_eq!(err.code, "masw.empty_layers");
    assert_eq!(err.message, "No layers provided for MaswExp.");

    let layer = MaswLayer {
        thickness: Some(0),
        vs: Some(100_000),
        vp: Some(200_000),
        depth: None,
    };
    let err = layer.validate(&["thickness"]).unwrap_err();
    assert_eq!(err.code, "masw.thickness.too_small.1");
}
