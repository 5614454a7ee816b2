use magnetite::datatypes::{Element, Node, Vertex};
use magnetite::error::MagnetiteError;
use magnetite::solver::{
    build_col_vecs, build_known_unknown_matrices, check_element_areas, collect_none_indices,
    collect_some_indices, collect_some_values, fill_missing, load_results, load_stresses, DOF,
};

fn bits(x: f64) -> u64 {
    x.to_bits()
}

#[test]
fn dof_is_two() {
    assert_eq!(DOF, 2);
}

#[test]
fn col_vecs_interleave_axes() {
    let nodes = vec![
        Node {
            vertex: Vertex { x: bits(0.0), y: bits(0.0) },
            ux: Some(bits(1.0)),
            uy: None,
            fx: None,
            fy: Some(bits(2.0)),
        },
        Node {
            vertex: Vertex { x: bits(1.0), y: bits(0.0) },
            ux: None,
            uy: Some(bits(3.0)),
            fx: Some(bits(4.0)),
            fy: None,
        },
    ];
    let (forces, displacements) = build_col_vecs(&nodes);
    assert_eq!(forces, vec![None, Some(bits(2.0)), Some(bits(4.0)), None]);
    assert_eq!(
        displacements,
        vec![Some(bits(1.0)), None, None, Some(bits(3.0))]
    );
}

#[test]
fn index_partition_is_ascending_and_complete() {
    let v = vec![None, Some(1u64), None, Some(2u64), Some(3u64)];
    assert_eq!(collect_none_indices(&v), vec![0, 2]);
    assert_eq!(collect_some_indices(&v), vec![1, 3, 4]);
    assert_eq!(collect_some_values(&v), vec![1, 2, 3]);
}

#[test]
fn known_unknown_matrices_gather_the_right_cells() {
    // Four DOFs; displacements known at 1 and 3, forces known at 0 and 2.
    let forces = vec![Some(bits(10.0)), None, Some(bits(20.0)), None];
    let displacements = vec![None, Some(bits(0.5)), None, Some(bits(0.25))];
    let k: Vec<Vec<u64>> = (0..4)
        .map(|r| (0..4).map(|c| bits((10 * r + c) as f64)).collect())
        .collect();
    let (known, unknown) = build_known_unknown_matrices(&forces, &displacements, &k);
    // Rows are the force-known DOFs 0 and 2.
    assert_eq!(unknown.len(), 2);
    assert_eq!(known.len(), 2);
    // Unknown-displacement columns are 0 and 2; known columns are 1 and 3.
    assert_eq!(unknown[0], vec![bits(0.0), bits(2.0)]);
    assert_eq!(unknown[1], vec![bits(20.0), bits(22.0)]);
    assert_eq!(known[0], vec![bits(1.0), bits(3.0)]);
    assert_eq!(known[1], vec![bits(21.0), bits(23.0)]);
}

#[test]
fn fill_missing_fills_in_ascending_order() {
    let mut v = vec![None, Some(5u64), None, None];
    fill_missing(&mut v, &vec![7u64, 8, 9]);
    assert_eq!(v, vec![Some(7), Some(5), Some(8), Some(9)]);
}

#[test]
fn load_results_writes_all_four_quantities() {
    let mut nodes = vec![Node {
        vertex: Vertex { x: bits(1.0), y: bits(2.0) },
        ux: None,
        uy: None,
        fx: Some(bits(0.0)),
        fy: Some(bits(0.0)),
    }];
    load_results(&mut nodes, &vec![bits(0.1), bits(0.2)], &vec![bits(0.3), bits(0.4)]);
    assert_eq!(nodes[0].ux, Some(bits(0.1)));
    assert_eq!(nodes[0].uy, Some(bits(0.2)));
    assert_eq!(nodes[0].fx, Some(bits(0.3)));
    assert_eq!(nodes[0].fy, Some(bits(0.4)));
    assert_eq!(nodes[0].vertex.x, bits(1.0));
}

#[test]
fn load_stresses_keeps_node_indices() {
    let mut elements = vec![Element { nodes: [0, 1, 2], stress: None }];
    load_stresses(&mut elements, &vec![bits(9.0)]);
    assert_eq!(elements[0].stress, Some(bits(9.0)));
    assert_eq!(elements[0].nodes, [0, 1, 2]);
}

#[test]
fn degenerate_zero_area_is_rejected() {
    let areas = vec![bits(0.5), bits(0.0), bits(1.0)];
    match check_element_areas(&areas) {
        Err(MagnetiteError::Solver(msg)) => assert_eq!(msg, "degenerate element 1"),
        _ => panic!("expected a Solver error"),
    }
}

#[test]
fn degenerate_negative_area_is_rejected() {
    let areas = vec![bits(-0.25)];
    match check_element_areas(&areas) {
        Err(MagnetiteError::Solver(msg)) => assert_eq!(msg, "degenerate element 0"),
        _ => panic!("expected a Solver error"),
    }
}

#[test]
fn positive_areas_pass() {
    let areas = vec![bits(0.5), bits(1e-300), bits(3.0)];
    assert!(check_element_areas(&areas).is_ok());
}
