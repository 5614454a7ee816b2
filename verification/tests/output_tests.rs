use magnetite::datatypes::Element;
use magnetite::post_processor::{elements_csv, nodes_csv, NodeCsvRow};

fn row(x: &str, y: &str, ux: &str, uy: &str) -> NodeCsvRow {
    NodeCsvRow {
        x: x.as_bytes().to_vec(),
        y: y.as_bytes().to_vec(),
        ux: ux.as_bytes().to_vec(),
        uy: uy.as_bytes().to_vec(),
    }
}

#[test]
fn nodes_csv_holds_header_and_rows() {
    let rows = vec![row("0", "0", "0.5", "-0.25"), row("1", "0", "2", "0")];
    let text = nodes_csv(&rows);
    assert_eq!(
        String::from_utf8(text).unwrap(),
        "x,y,ux,uy\n0,0,0.5,-0.25\n1,0,2,0\n"
    );
}

#[test]
fn nodes_csv_of_nothing_is_just_the_header() {
    assert_eq!(String::from_utf8(nodes_csv(&vec![])).unwrap(), "x,y,ux,uy\n");
}

#[test]
fn elements_csv_renders_indices_and_stress() {
    let elements = vec![
        Element { nodes: [0, 1, 2], stress: None },
        Element { nodes: [10, 20, 300], stress: None },
    ];
    let stresses = vec![b"1.25".to_vec(), b"0.001".to_vec()];
    let text = elements_csv(&elements, &stresses);
    assert_eq!(
        String::from_utf8(text).unwrap(),
        "n0,n1,n2,stress\n0,1,2,1.25\n10,20,300,0.001\n"
    );
}
