use magnetite::error::MagnetiteError;
use magnetite::fp;
use magnetite::input::{
    build_boundary_rules, check_document_shape, parse_input_metadata, RawInputDocument,
    RawMetadata, RawRule, RawScalar,
};

fn plain_rule(name: &str) -> RawRule {
    RawRule {
        name: String::from(name),
        has_region: true,
        has_targets: true,
        x_min: RawScalar::Missing,
        x_max: RawScalar::Missing,
        y_min: RawScalar::Missing,
        y_max: RawScalar::Missing,
        ux: None,
        uy: None,
        fx: Some((0.0f64).to_bits()),
        fy: Some((0.0f64).to_bits()),
    }
}

fn input_message(r: Result<Vec<magnetite::datatypes::BoundaryRule>, MagnetiteError>) -> String {
    match r {
        Err(MagnetiteError::Input(m)) => m,
        other => panic!("expected an Input error, got {:?}", other.is_ok()),
    }
}

#[test]
fn under_constrained_x_rejected() {
    let mut rule = plain_rule("load");
    rule.fx = None;
    let msg = input_message(build_boundary_rules(&vec![rule]));
    assert_eq!(msg, "Boundary 'load' is under-constrained in x-axis");
}

#[test]
fn under_constrained_y_rejected() {
    let mut rule = plain_rule("load");
    rule.fy = None;
    let msg = input_message(build_boundary_rules(&vec![rule]));
    assert_eq!(msg, "Boundary 'load' is under-constrained in y-axis");
}

#[test]
fn over_constrained_x_rejected() {
    let mut rule = plain_rule("pin");
    rule.ux = Some((0.5f64).to_bits());
    let msg = input_message(build_boundary_rules(&vec![rule]));
    assert_eq!(msg, "Boundary 'pin' is over-constrained in x-axis");
}

#[test]
fn over_constrained_y_rejected() {
    let mut rule = plain_rule("pin");
    rule.uy = Some((0.5f64).to_bits());
    let msg = input_message(build_boundary_rules(&vec![rule]));
    assert_eq!(msg, "Boundary 'pin' is over-constrained in y-axis");
}

#[test]
fn missing_region_rejected() {
    let mut rule = plain_rule("r");
    rule.has_region = false;
    let msg = input_message(build_boundary_rules(&vec![rule]));
    assert_eq!(msg, "Boundary rule r is missing region field");
}

#[test]
fn malformed_region_value_rejected() {
    let mut rule = plain_rule("r");
    rule.x_min = RawScalar::Malformed;
    let msg = input_message(build_boundary_rules(&vec![rule]));
    assert_eq!(msg, "Bad value for x_target_min in r");
}

#[test]
fn inverted_bounds_rejected() {
    let mut rule = plain_rule("r");
    rule.x_min = RawScalar::Num((2.0f64).to_bits());
    rule.x_max = RawScalar::Num((1.0f64).to_bits());
    let msg = input_message(build_boundary_rules(&vec![rule]));
    assert_eq!(msg, "Boundary 'r' has x_target_min greater than x_target_max");
}

#[test]
fn first_failing_rule_decides() {
    let good = plain_rule("good");
    let mut bad = plain_rule("bad");
    bad.fx = None;
    let mut worse = plain_rule("worse");
    worse.has_region = false;
    let msg = input_message(build_boundary_rules(&vec![good, bad, worse]));
    assert_eq!(msg, "Boundary 'bad' is under-constrained in x-axis");
}

#[test]
fn valid_rule_defaults_to_infinite_region() {
    let rule = plain_rule("everywhere");
    let built = build_boundary_rules(&vec![rule]).expect("rule should validate");
    assert_eq!(built.len(), 1);
    assert_eq!(built[0].name, "everywhere");
    assert_eq!(built[0].region.x_min, fp::NEG_INFINITY);
    assert_eq!(built[0].region.x_max, fp::POS_INFINITY);
    assert_eq!(built[0].region.y_min, fp::NEG_INFINITY);
    assert_eq!(built[0].region.y_max, fp::POS_INFINITY);
    assert_eq!(built[0].target.fx, Some((0.0f64).to_bits()));
    assert_eq!(built[0].target.ux, None);
}

fn full_metadata() -> RawMetadata {
    RawMetadata {
        has_material_elasticity: true,
        has_poisson_ratio: true,
        has_part_thickness: true,
        material_elasticity: Some((210e9f64).to_bits()),
        poisson_ratio: Some((0.3f64).to_bits()),
        part_thickness: Some((0.01f64).to_bits()),
        characteristic_length_min: Some((0.1f64).to_bits()),
        characteristic_length_max: Some((0.5f64).to_bits()),
    }
}

#[test]
fn metadata_values_carried_over() {
    let mm = parse_input_metadata(&full_metadata()).expect("metadata should parse");
    assert_eq!(mm.youngs_modulus, (210e9f64).to_bits());
    assert_eq!(mm.poisson_ratio, (0.3f64).to_bits());
    assert_eq!(mm.part_thickness, (0.01f64).to_bits());
    assert_eq!(mm.characteristic_length_min, (0.1f64).to_bits());
    assert_eq!(mm.characteristic_length_max, (0.5f64).to_bits());
}

#[test]
fn missing_elasticity_rejected() {
    let mut m = full_metadata();
    m.material_elasticity = None;
    match parse_input_metadata(&m) {
        Err(MagnetiteError::Input(msg)) => {
            assert_eq!(msg, "Input json missing material elasticity")
        }
        _ => panic!("expected an Input error"),
    }
}

#[test]
fn document_shape_checks_in_order() {
    let doc = RawInputDocument {
        has_metadata: false,
        has_boundary_conditions: false,
        metadata: full_metadata(),
        rules: vec![],
    };
    match check_document_shape(&doc) {
        Err(MagnetiteError::Input(msg)) => assert_eq!(msg, "Input json missing metadata field"),
        _ => panic!("expected an Input error"),
    }
    let doc2 = RawInputDocument {
        has_metadata: true,
        has_boundary_conditions: false,
        metadata: full_metadata(),
        rules: vec![],
    };
    match check_document_shape(&doc2) {
        Err(MagnetiteError::Input(msg)) => {
            assert_eq!(msg, "Input json missing boundary_conditions field in metadata section")
        }
        _ => panic!("expected an Input error"),
    }
}
