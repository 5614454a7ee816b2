//! A single-element bar in tension, driven end to end through the
//! library's structural pipeline: element stiffness blocks are computed
//! here in floating point (as the shell does), everything index-shaped —
//! assembly, partitioning, scatter, write-back — is the library's.

use magnetite::assembler::assemble_contributions;
use magnetite::datatypes::{Element, Node, Vertex};
use magnetite::post_processor::{nodes_csv, NodeCsvRow};
use magnetite::solver::{
    build_col_vecs, build_known_unknown_matrices, check_element_areas, collect_none_indices,
    collect_some_values, fill_missing, load_results,
};


fn element_stiffness(coords: [(f64, f64); 3], e: f64, nu: f64, t: f64) -> (f64, Vec<Vec<u64>>) {
    let (x0, y0) = coords[0];
    let (x1, y1) = coords[1];
    let (x2, y2) = coords[2];
    let area = 0.5 * (x0 * (y1 - y2) + x1 * (y2 - y0) + x2 * (y0 - y1));
    let beta = [y1 - y2, y2 - y0, y0 - y1];
    let gamma = [x2 - x1, x0 - x2, x1 - x0];
    let mut b = [[0.0f64; 6]; 3];
    for i in 0..3 {
        b[0][2 * i] = beta[i];
        b[1][2 * i + 1] = gamma[i];
        b[2][2 * i] = gamma[i];
        b[2][2 * i + 1] = beta[i];
    }
    for row in b.iter_mut() {
        for v in row.iter_mut() {
            *v /= 2.0 * area;
        }
    }
    let f = e / (1.0 - nu * nu);
    let d = [
        [f, f * nu, 0.0],
        [f * nu, f, 0.0],
        [0.0, 0.0, f * (1.0 - nu) / 2.0],
    ];
    let mut ke = vec![vec![0.0f64; 6]; 6];
    for i in 0..6 {
        for j in 0..6 {
            let mut sum = 0.0;
            for p in 0..3 {
                for q in 0..3 {
                    sum += b[p][i] * d[p][q] * b[q][j];
                }
            }
            ke[i][j] = sum * t * area;
        }
    }
    (
        area,
        ke.iter()
            .map(|row| row.iter().map(|v| v.to_bits()).collect())
            .collect(),
    )
}

fn solve_dense(a: &Vec<Vec<f64>>, b: &Vec<f64>) -> Vec<f64> {
    let n = b.len();
    let mut m: Vec<Vec<f64>> = (0..n)
        .map(|r| {
            let mut row = a[r].clone();
            row.push(b[r]);
            row
        })
        .collect();
    for col in 0..n {
        let pivot = (col..n)
            .max_by(|&i, &j| m[i][col].abs().partial_cmp(&m[j][col].abs()).unwrap())
            .unwrap();
        m.swap(col, pivot);
        let p = m[col][col];
        assert!(p.abs() > 1e-12, "system should be positive definite");
        for r in 0..n {
            if r != col {
                let factor = m[r][col] / p;
                for c in col..=n {
                    let v = m[col][c];
                    m[r][c] -= factor * v;
                }
            }
        }
    }
    (0..n).map(|r| m[r][n] / m[r][r]).collect()
}

#[test]
fn single_element_bar_in_tension() {
    let coords = [(0.0, 0.0), (1.0, 0.0), (0.0, 1.0)];
    let mut nodes: Vec<Node> = coords
        .iter()
        .map(|&(x, y): &(f64, f64)| Node {
            vertex: Vertex { x: x.to_bits(), y: y.to_bits() },
            ux: None,
            uy: None,
            fx: Some((0.0f64).to_bits()),
            fy: Some((0.0f64).to_bits()),
        })
        .collect();
    // Pin node 0 fully, pin node 2 in x, pull node 1 with a unit x force.
    nodes[0].ux = Some((0.0f64).to_bits());
    nodes[0].uy = Some((0.0f64).to_bits());
    nodes[0].fx = None;
    nodes[0].fy = None;
    nodes[2].ux = Some((0.0f64).to_bits());
    nodes[2].fx = None;
    nodes[1].fx = Some((1.0f64).to_bits());

    let elements = vec![Element { nodes: [0, 1, 2], stress: None }];
    let (area, ke) = element_stiffness(coords, 1.0, 0.0, 1.0);
    assert!((area - 0.5).abs() < 1e-12);
    assert!(check_element_areas(&vec![area.to_bits()]).is_ok());

    // Assemble through the library and fold in ascending order.
    let coo = assemble_contributions(nodes.len(), &elements, &vec![ke]);
    let n_dofs = 2 * nodes.len();
    let mut k = vec![vec![0.0f64; n_dofs]; n_dofs];
    for &(r, c, v) in &coo {
        k[r][c] += f64::from_bits(v);
    }

    // Partition through the library.
    let (forces, mut displacements) = build_col_vecs(&nodes);
    let k_bits: Vec<Vec<u64>> = k
        .iter()
        .map(|row| row.iter().map(|v| v.to_bits()).collect())
        .collect();
    let (known, unknown) = build_known_unknown_matrices(&forces, &displacements, &k_bits);
    let u_d: Vec<f64> = collect_some_values(&displacements)
        .iter()
        .map(|&b| f64::from_bits(b))
        .collect();
    let f_u: Vec<f64> = collect_some_values(&forces)
        .iter()
        .map(|&b| f64::from_bits(b))
        .collect();
    let k_uu: Vec<Vec<f64>> = unknown
        .iter()
        .map(|row| row.iter().map(|&b| f64::from_bits(b)).collect())
        .collect();
    let rhs: Vec<f64> = (0..f_u.len())
        .map(|r| {
            let coupled: f64 = known[r]
                .iter()
                .zip(&u_d)
                .map(|(&b, &u)| f64::from_bits(b) * u)
                .sum();
            f_u[r] - coupled
        })
        .collect();

    let x = solve_dense(&k_uu, &rhs);
    fill_missing(
        &mut displacements,
        &x.iter().map(|v| v.to_bits()).collect(),
    );
    let u: Vec<f64> = displacements
        .iter()
        .map(|d| f64::from_bits(d.unwrap()))
        .collect();

    // Recover the reactions at the force-unknown DOFs.
    let mut forces = forces;
    let reaction_rows = collect_none_indices(&forces);
    let reactions: Vec<u64> = reaction_rows
        .iter()
        .map(|&r| {
            let dot: f64 = k[r].iter().zip(&u).map(|(a, b)| a * b).sum();
            dot.to_bits()
        })
        .collect();
    fill_missing(&mut forces, &reactions);
    let f: Vec<f64> = forces.iter().map(|v| f64::from_bits(v.unwrap())).collect();

    let d_bits: Vec<u64> = u.iter().map(|v| v.to_bits()).collect();
    let f_bits: Vec<u64> = f.iter().map(|v| v.to_bits()).collect();
    load_results(&mut nodes, &d_bits, &f_bits);

    // The bar stretches by 2 under the unit load.
    let ux1 = f64::from_bits(nodes[1].ux.unwrap());
    assert!((ux1 - 2.0).abs() < 1e-9, "ux at the loaded node was {ux1}");
    // The pinned nodes balance the applied load.
    let fx0 = f64::from_bits(nodes[0].fx.unwrap());
    let fx2 = f64::from_bits(nodes[2].fx.unwrap());
    assert!((fx0 + fx2 + 1.0).abs() < 1e-9);
    // Force equilibrium across all nodes, both axes.
    let sum_fx: f64 = nodes.iter().map(|n| f64::from_bits(n.fx.unwrap())).sum();
    let sum_fy: f64 = nodes.iter().map(|n| f64::from_bits(n.fy.unwrap())).sum();
    assert!(sum_fx.abs() < 1e-9);
    assert!(sum_fy.abs() < 1e-9);
}

#[test]
fn zero_load_gives_zero_displacements_and_reactions() {
    let coords = [(0.0, 0.0), (1.0, 0.0), (0.0, 1.0)];
    let mut nodes: Vec<Node> = coords
        .iter()
        .map(|&(x, y): &(f64, f64)| Node {
            vertex: Vertex { x: x.to_bits(), y: y.to_bits() },
            ux: None,
            uy: None,
            fx: Some((0.0f64).to_bits()),
            fy: Some((0.0f64).to_bits()),
        })
        .collect();
    nodes[0].ux = Some((0.0f64).to_bits());
    nodes[0].uy = Some((0.0f64).to_bits());
    nodes[0].fx = None;
    nodes[0].fy = None;
    nodes[2].ux = Some((0.0f64).to_bits());
    nodes[2].fx = None;

    let elements = vec![Element { nodes: [0, 1, 2], stress: None }];
    let (_, ke) = element_stiffness(coords, 1.0, 0.0, 1.0);
    let coo = assemble_contributions(nodes.len(), &elements, &vec![ke]);
    let mut k = vec![vec![0.0f64; 6]; 6];
    for &(r, c, v) in &coo {
        k[r][c] += f64::from_bits(v);
    }
    let (forces, mut displacements) = build_col_vecs(&nodes);
    let k_bits: Vec<Vec<u64>> = k
        .iter()
        .map(|row| row.iter().map(|v| v.to_bits()).collect())
        .collect();
    let (_, unknown) = build_known_unknown_matrices(&forces, &displacements, &k_bits);
    let k_uu: Vec<Vec<f64>> = unknown
        .iter()
        .map(|row| row.iter().map(|&b| f64::from_bits(b)).collect())
        .collect();
    let rhs = vec![0.0f64; k_uu.len()];
    let x = solve_dense(&k_uu, &rhs);
    fill_missing(&mut displacements, &x.iter().map(|v| v.to_bits()).collect());
    for d in &displacements {
        assert!(f64::from_bits(d.unwrap()).abs() < 1e-10);
    }
}

/// The two-element unit square: clamp the left edge, pull the right edge.
#[test]
fn two_element_square_under_uniform_traction() {
    let coords = [(0.0, 0.0), (1.0, 0.0), (1.0, 1.0), (0.0, 1.0)];
    let mut nodes: Vec<Node> = coords
        .iter()
        .map(|&(x, y): &(f64, f64)| Node {
            vertex: Vertex { x: x.to_bits(), y: y.to_bits() },
            ux: None,
            uy: None,
            fx: Some((0.0f64).to_bits()),
            fy: Some((0.0f64).to_bits()),
        })
        .collect();
    for pinned in [0usize, 3] {
        nodes[pinned].ux = Some((0.0f64).to_bits());
        nodes[pinned].uy = Some((0.0f64).to_bits());
        nodes[pinned].fx = None;
        nodes[pinned].fy = None;
    }
    nodes[1].fx = Some((1.0f64).to_bits());
    nodes[2].fx = Some((1.0f64).to_bits());

    let elements = vec![
        Element { nodes: [0, 1, 2], stress: None },
        Element { nodes: [0, 2, 3], stress: None },
    ];
    let kes: Vec<Vec<Vec<u64>>> = elements
        .iter()
        .map(|e| {
            let tri = [coords[e.nodes[0]], coords[e.nodes[1]], coords[e.nodes[2]]];
            element_stiffness(tri, 1.0, 0.0, 1.0).1
        })
        .collect();
    let coo = assemble_contributions(nodes.len(), &elements, &kes);
    let n_dofs = 2 * nodes.len();
    let mut k = vec![vec![0.0f64; n_dofs]; n_dofs];
    for &(r, c, v) in &coo {
        k[r][c] += f64::from_bits(v);
    }

    let (forces, mut displacements) = build_col_vecs(&nodes);
    let k_bits: Vec<Vec<u64>> = k
        .iter()
        .map(|row| row.iter().map(|v| v.to_bits()).collect())
        .collect();
    let (known, unknown) = build_known_unknown_matrices(&forces, &displacements, &k_bits);
    let u_d: Vec<f64> = collect_some_values(&displacements)
        .iter()
        .map(|&b| f64::from_bits(b))
        .collect();
    let f_u: Vec<f64> = collect_some_values(&forces)
        .iter()
        .map(|&b| f64::from_bits(b))
        .collect();
    let k_uu: Vec<Vec<f64>> = unknown
        .iter()
        .map(|row| row.iter().map(|&b| f64::from_bits(b)).collect())
        .collect();
    let rhs: Vec<f64> = (0..f_u.len())
        .map(|r| {
            let coupled: f64 = known[r]
                .iter()
                .zip(&u_d)
                .map(|(&b, &u)| f64::from_bits(b) * u)
                .sum();
            f_u[r] - coupled
        })
        .collect();
    let x = solve_dense(&k_uu, &rhs);
    fill_missing(&mut displacements, &x.iter().map(|v| v.to_bits()).collect());
    let u: Vec<f64> = displacements
        .iter()
        .map(|d| f64::from_bits(d.unwrap()))
        .collect();

    // The free edge stretches by about 2; the transverse motion is small.
    assert!((u[2] - 2.0).abs() < 1e-3, "ux at node 1 was {}", u[2]);
    assert!((u[4] - 2.0).abs() < 1e-3, "ux at node 2 was {}", u[4]);

    // The pinned nodes together balance the applied load of 2.
    let mut forces = forces;
    let reaction_rows = collect_none_indices(&forces);
    let reactions: Vec<u64> = reaction_rows
        .iter()
        .map(|&r| {
            let dot: f64 = k[r].iter().zip(&u).map(|(a, b)| a * b).sum();
            dot.to_bits()
        })
        .collect();
    fill_missing(&mut forces, &reactions);
    let fx_pinned = f64::from_bits(forces[0].unwrap()) + f64::from_bits(forces[6].unwrap());
    assert!((fx_pinned + 2.0).abs() < 1e-9, "pinned fx summed to {fx_pinned}");
}

/// Three collinear nodes make a degenerate element.
#[test]
fn collinear_element_is_rejected() {
    let coords = [(0.0, 0.0), (1.0, 1.0), (2.0, 2.0)];
    let (area, _) = element_stiffness(coords, 1.0, 0.0, 1.0);
    match check_element_areas(&vec![area.to_bits()]) {
        Err(magnetite::error::MagnetiteError::Solver(msg)) => {
            assert!(msg.starts_with("degenerate element"));
        }
        _ => panic!("expected a Solver error"),
    }
}

/// Emitted node results survive a round trip through the CSV text.
#[test]
fn csv_output_round_trips() {
    let values: Vec<(f64, f64, f64, f64)> = vec![
        (0.0, 0.0, 0.5000000000001, -0.25),
        (1.0, 0.0, 2.0000000000002, 1e-13),
    ];
    let rows: Vec<NodeCsvRow> = values
        .iter()
        .map(|&(x, y, ux, uy)| NodeCsvRow {
            x: format!("{x}").into_bytes(),
            y: format!("{y}").into_bytes(),
            ux: format!("{ux}").into_bytes(),
            uy: format!("{uy}").into_bytes(),
        })
        .collect();
    let text = nodes_csv(&rows);
    let parsed = magnetite::geometry::parse_csv(&text).expect("the emitted csv parses");
    assert_eq!(parsed.len(), values.len());
    for (row, &(x, y, _, _)) in parsed.iter().zip(&values) {
        let rx: f64 = String::from_utf8_lossy(&row.0).parse().unwrap();
        let ry: f64 = String::from_utf8_lossy(&row.1).parse().unwrap();
        assert_eq!(rx.to_bits(), x.to_bits());
        assert_eq!(ry.to_bits(), y.to_bits());
    }
}
