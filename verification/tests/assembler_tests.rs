use magnetite::assembler::assemble_contributions;
use magnetite::datatypes::Element;

fn ke_with(values: impl Fn(usize, usize) -> f64) -> Vec<Vec<u64>> {
    (0..6)
        .map(|r| (0..6).map(|c| values(r, c).to_bits()).collect())
        .collect()
}

#[test]
fn one_element_yields_thirty_six_contributions() {
    let elements = vec![Element { nodes: [0, 1, 2], stress: None }];
    let kes = vec![ke_with(|r, c| (10 * r + c) as f64)];
    let coo = assemble_contributions(3, &elements, &kes);
    assert_eq!(coo.len(), 36);
    // Contribution of local slots (a, b) = (0, 0), axes (0, 0): Ke[0][0] at (0, 0).
    assert_eq!(coo[0], (0, 0, (0.0f64).to_bits()));
    // Slot pair (0, 1), axes (1, 0): global (1, 2), Ke[1][2].
    let idx = 0 * 12 + 1 * 4 + 1 * 2 + 0;
    assert_eq!(coo[idx], (1, 2, (12.0f64).to_bits()));
    // Slot pair (2, 2), axes (1, 1): global (5, 5), Ke[5][5].
    let idx = 2 * 12 + 2 * 4 + 1 * 2 + 1;
    assert_eq!(coo[idx], (5, 5, (55.0f64).to_bits()));
}

#[test]
fn scattered_indices_follow_the_node_map() {
    let elements = vec![Element { nodes: [4, 0, 2], stress: None }];
    let kes = vec![ke_with(|r, c| (10 * r + c) as f64)];
    let coo = assemble_contributions(5, &elements, &kes);
    // Slot pair (a, b) = (1, 2): global rows 2*0+p, cols 2*2+q.
    let base = 1 * 12 + 2 * 4;
    assert_eq!(coo[base + 0], (0, 4, (24.0f64).to_bits()));
    assert_eq!(coo[base + 1], (0, 5, (25.0f64).to_bits()));
    assert_eq!(coo[base + 2], (1, 4, (34.0f64).to_bits()));
    assert_eq!(coo[base + 3], (1, 5, (35.0f64).to_bits()));
}

#[test]
fn elements_are_scattered_in_order() {
    let elements = vec![
        Element { nodes: [0, 1, 2], stress: None },
        Element { nodes: [0, 2, 3], stress: None },
    ];
    let kes = vec![ke_with(|_, _| 1.0), ke_with(|_, _| 2.0)];
    let coo = assemble_contributions(4, &elements, &kes);
    assert_eq!(coo.len(), 72);
    assert_eq!(coo[0].2, (1.0f64).to_bits());
    assert_eq!(coo[36].2, (2.0f64).to_bits());
}

#[test]
fn symmetric_blocks_scatter_symmetrically() {
    // A symmetric element block: the folded matrix must be exactly symmetric.
    let elements = vec![Element { nodes: [1, 3, 0], stress: None }];
    let kes = vec![ke_with(|r, c| ((r * c) as f64) + 1.0)];
    let coo = assemble_contributions(4, &elements, &kes);
    let mut k = vec![vec![0.0f64; 8]; 8];
    for &(r, c, v) in &coo {
        k[r][c] += f64::from_bits(v);
    }
    for r in 0..8 {
        for c in 0..8 {
            assert_eq!(k[r][c].to_bits(), k[c][r].to_bits());
        }
    }
}
