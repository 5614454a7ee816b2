use magnetite::bc::apply_boundary_conditions;
use magnetite::datatypes::{
    BoundaryRegion, BoundaryRule, BoundaryTarget, Node, Vertex,
};

fn node_at(x: f64, y: f64) -> Node {
    Node {
        vertex: Vertex { x: x.to_bits(), y: y.to_bits() },
        ux: None,
        uy: None,
        fx: Some((0.0f64).to_bits()),
        fy: Some((0.0f64).to_bits()),
    }
}

fn rule_over(x_min: f64, x_max: f64, y_min: f64, y_max: f64, ux: Option<f64>, fx: Option<f64>) -> BoundaryRule {
    BoundaryRule {
        name: String::from("rule"),
        region: BoundaryRegion {
            x_min: x_min.to_bits(),
            x_max: x_max.to_bits(),
            y_min: y_min.to_bits(),
            y_max: y_max.to_bits(),
        },
        target: BoundaryTarget {
            ux: ux.map(f64::to_bits),
            uy: ux.map(f64::to_bits),
            fx: fx.map(f64::to_bits),
            fy: fx.map(f64::to_bits),
        },
    }
}

#[test]
fn node_strictly_inside_is_stamped() {
    let mut nodes = vec![node_at(0.5, 0.5)];
    let rules = vec![rule_over(0.0, 1.0, 0.0, 1.0, Some(0.25), None)];
    apply_boundary_conditions(&rules, &mut nodes);
    assert_eq!(nodes[0].ux, Some((0.25f64).to_bits()));
    assert_eq!(nodes[0].fx, None);
}

#[test]
fn node_on_boundary_is_not_stamped() {
    let mut nodes = vec![node_at(0.0, 0.5), node_at(1.0, 0.5), node_at(0.5, 1.0)];
    let rules = vec![rule_over(0.0, 1.0, 0.0, 1.0, Some(0.25), None)];
    apply_boundary_conditions(&rules, &mut nodes);
    for node in &nodes {
        assert_eq!(node.ux, None, "a node exactly on the region edge must not be selected");
        assert_eq!(node.fx, Some((0.0f64).to_bits()));
    }
}

#[test]
fn last_matching_rule_wins() {
    let mut nodes = vec![node_at(0.5, 0.5)];
    let rules = vec![
        rule_over(0.0, 1.0, 0.0, 1.0, Some(0.25), None),
        rule_over(-1.0, 2.0, -1.0, 2.0, None, Some(7.0)),
    ];
    apply_boundary_conditions(&rules, &mut nodes);
    assert_eq!(nodes[0].ux, None);
    assert_eq!(nodes[0].fx, Some((7.0f64).to_bits()));
}

#[test]
fn positions_are_never_touched() {
    let mut nodes = vec![node_at(0.5, 0.25)];
    let rules = vec![rule_over(0.0, 1.0, 0.0, 1.0, Some(0.0), None)];
    apply_boundary_conditions(&rules, &mut nodes);
    assert_eq!(nodes[0].vertex.x, (0.5f64).to_bits());
    assert_eq!(nodes[0].vertex.y, (0.25f64).to_bits());
}
