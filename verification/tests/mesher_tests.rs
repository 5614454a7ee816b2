use magnetite::error::MagnetiteError;
use magnetite::mesher::{make_nodes, parse_mesh};
use magnetite::datatypes::Vertex;

fn parse(text: &str) -> Result<(Vec<magnetite::mesher::RawNode>, Vec<magnetite::datatypes::Element>), MagnetiteError> {
    parse_mesh(&text.as_bytes().to_vec())
}

const SMALL_MESH: &str = "$MeshFormat\n4.1 0 8\n$EndMeshFormat\n$Entities\n0 0 0 1\n1 0 0 1 0 1 0 0\n$EndEntities\n$Nodes\n1 3 1 3\n2 1 0 3\n1\n2\n3\n0 0 0\n1 0 0\n0 1 0\n$EndNodes\n$Elements\n1 1 1 1\n2 1 2 1\n1 1 2 3\n$EndElements\n";

#[test]
fn small_mesh_parses() {
    let (nodes, elements) = parse(SMALL_MESH).expect("mesh should parse");
    assert_eq!(nodes.len(), 3);
    assert_eq!(nodes[0].line, b"0 0 0".to_vec());
    assert_eq!(nodes[1].line, b"1 0 0".to_vec());
    assert_eq!(nodes[2].line, b"0 1 0".to_vec());
    assert_eq!(elements.len(), 1);
    assert_eq!(elements[0].nodes, [0, 1, 2]);
    assert_eq!(elements[0].stress, None);
}

#[test]
fn nodes_are_ordered_by_remapped_tag() {
    let text = "$Nodes\n1 3 1 3\n2 1 0 3\n2\n3\n1\n0 0 0\n1 0 0\n0 1 0\n$EndNodes\n";
    let (nodes, _) = parse(text).expect("mesh should parse");
    // Tags 2, 3, 1 mean the third coordinate line belongs to index 0.
    assert_eq!(nodes[0].line, b"0 1 0".to_vec());
    assert_eq!(nodes[1].line, b"0 0 0".to_vec());
    assert_eq!(nodes[2].line, b"1 0 0".to_vec());
}

#[test]
fn non_surface_elements_are_dropped() {
    let text = "$Nodes\n1 1 1 1\n2 1 0 1\n1\n0 0 0\n$EndNodes\n$Elements\n2 2 1 2\n1 1 1 2\n7 1 2\n8 2 3\n2 1 2 1\n1 1 1 1\n$EndElements\n";
    let (_, elements) = parse(text).expect("mesh should parse");
    assert_eq!(elements.len(), 1);
    assert_eq!(elements[0].nodes, [0, 0, 0]);
}

#[test]
fn non_integer_tag_is_rejected() {
    let text = "$Nodes\n1 1 1 1\n2 1 0 1\nseven\n0 0 0\n$EndNodes\n";
    match parse(text) {
        Err(MagnetiteError::Mesher(msg)) => {
            assert_eq!(msg, "mesh file holds a non-integer node tag")
        }
        _ => panic!("expected a Mesher error"),
    }
}

#[test]
fn zero_tag_is_rejected() {
    let text = "$Nodes\n1 1 1 1\n2 1 0 1\n0\n0 0 0\n$EndNodes\n";
    match parse(text) {
        Err(MagnetiteError::Mesher(msg)) => assert_eq!(msg, "mesh file holds a node tag of zero"),
        _ => panic!("expected a Mesher error"),
    }
}

#[test]
fn truncated_section_is_rejected() {
    let text = "$Nodes\n1 2 1 2\n2 1 0 2\n1";
    match parse(text) {
        Err(MagnetiteError::Mesher(msg)) => assert_eq!(msg, "mesh file ends inside a section"),
        _ => panic!("expected a Mesher error"),
    }
}

#[test]
fn duplicate_tags_are_rejected() {
    let text = "$Nodes\n1 2 1 2\n2 1 0 2\n1\n1\n0 0 0\n1 0 0\n$EndNodes\n";
    match parse(text) {
        Err(MagnetiteError::Mesher(msg)) => {
            assert_eq!(msg, "mesh file node tags do not form one contiguous range")
        }
        _ => panic!("expected a Mesher error"),
    }
}

#[test]
fn empty_file_yields_empty_mesh() {
    let (nodes, elements) = parse("").expect("an empty file is an empty mesh");
    assert!(nodes.is_empty());
    assert!(elements.is_empty());
}

#[test]
fn fresh_nodes_carry_zero_loads() {
    let vertices = vec![Vertex { x: (2.0f64).to_bits(), y: (3.0f64).to_bits() }];
    let nodes = make_nodes(&vertices);
    assert_eq!(nodes.len(), 1);
    assert_eq!(nodes[0].vertex.x, (2.0f64).to_bits());
    assert_eq!(nodes[0].ux, None);
    assert_eq!(nodes[0].uy, None);
    assert_eq!(nodes[0].fx, Some((0.0f64).to_bits()));
    assert_eq!(nodes[0].fy, Some((0.0f64).to_bits()));
}
