use magnetite::error::MagnetiteError;
use magnetite::geometry::{classify_svg_shapes, parse_csv, RawPolyline, RawRect};

fn bits(x: f64) -> u64 {
    x.to_bits()
}

fn square_coords() -> Vec<u64> {
    // (0,0), (1,0), (1,1), (0,1) in drawing coordinates.
    vec![
        bits(0.0), bits(0.0),
        bits(1.0), bits(0.0),
        bits(1.0), bits(1.0),
        bits(0.0), bits(1.0),
    ]
}

fn no_close(n: usize) -> Vec<Vec<bool>> {
    vec![vec![false; n]; n]
}

fn outer_polyline() -> RawPolyline {
    RawPolyline {
        id: Some(b"OUTER".to_vec()),
        parent_id: None,
        coords: square_coords(),
        close: no_close(4),
    }
}

#[test]
fn outer_polyline_fills_slot_zero_with_y_inverted() {
    let containers =
        classify_svg_shapes(&vec![outer_polyline()], &vec![]).expect("drawing should classify");
    assert_eq!(containers.len(), 1);
    assert_eq!(containers[0].len(), 4);
    assert_eq!(containers[0][1].x, bits(1.0));
    assert_eq!(containers[0][1].y, bits(-0.0));
    assert_eq!(containers[0][2].y, bits(-1.0));
}

#[test]
fn inner_shapes_follow_in_order() {
    let inner = RawPolyline {
        id: None,
        parent_id: Some(b"  INNER_hole".to_vec()),
        coords: vec![bits(0.2), bits(0.2), bits(0.4), bits(0.2), bits(0.3), bits(0.4)],
        close: no_close(3),
    };
    let containers = classify_svg_shapes(&vec![outer_polyline(), inner], &vec![])
        .expect("drawing should classify");
    assert_eq!(containers.len(), 2);
    assert_eq!(containers[1].len(), 3);
}

#[test]
fn duplicate_vertices_are_dropped() {
    let mut p = outer_polyline();
    p.coords.extend_from_slice(&[bits(1.0), bits(1.0)]);
    p.close = no_close(5);
    let containers = classify_svg_shapes(&vec![p], &vec![]).expect("drawing should classify");
    assert_eq!(containers[0].len(), 4);
}

#[test]
fn vertices_too_close_to_the_last_kept_are_dropped() {
    let mut p = outer_polyline();
    let mut close = no_close(4);
    close[1][2] = true;
    p.close = close;
    let containers = classify_svg_shapes(&vec![p], &vec![]).expect("drawing should classify");
    assert_eq!(containers[0].len(), 3);
    assert_eq!(containers[0][2].y, bits(-1.0));
}

#[test]
fn unknown_ids_are_ignored() {
    let decoration = RawPolyline {
        id: Some(b"LOGO".to_vec()),
        parent_id: None,
        coords: vec![bits(9.0), bits(9.0)],
        close: no_close(1),
    };
    let containers = classify_svg_shapes(&vec![outer_polyline(), decoration], &vec![])
        .expect("drawing should classify");
    assert_eq!(containers.len(), 1);
}

#[test]
fn missing_id_is_rejected() {
    let anonymous = RawPolyline {
        id: None,
        parent_id: None,
        coords: square_coords(),
        close: no_close(4),
    };
    match classify_svg_shapes(&vec![anonymous], &vec![]) {
        Err(MagnetiteError::Input(msg)) => {
            assert_eq!(msg, "Error in svg file. Missing id field on polyline")
        }
        _ => panic!("expected an Input error"),
    }
}

#[test]
fn second_outer_is_rejected() {
    match classify_svg_shapes(&vec![outer_polyline(), outer_polyline()], &vec![]) {
        Err(MagnetiteError::Input(msg)) => assert_eq!(msg, "Multiple OUTER geometries in SVG"),
        _ => panic!("expected an Input error"),
    }
}

#[test]
fn missing_outer_is_rejected() {
    let inner = RawPolyline {
        id: Some(b"INNER".to_vec()),
        parent_id: None,
        coords: square_coords(),
        close: no_close(4),
    };
    match classify_svg_shapes(&vec![inner], &vec![]) {
        Err(MagnetiteError::Input(msg)) => assert_eq!(msg, "No OUTER geometry"),
        _ => panic!("expected an Input error"),
    }
}

#[test]
fn odd_coordinate_count_is_rejected() {
    let mut p = outer_polyline();
    p.coords.push(bits(0.5));
    match classify_svg_shapes(&vec![p], &vec![]) {
        Err(MagnetiteError::Input(msg)) => {
            assert_eq!(msg, "Error in svg file. Polyline has an odd number of point coordinates")
        }
        _ => panic!("expected an Input error"),
    }
}

#[test]
fn rect_expands_to_four_ccw_corners() {
    let rect = RawRect {
        id: Some(b"OUTER".to_vec()),
        parent_id: None,
        x: bits(1.0),
        y: bits(2.0),
        x_plus_width: Some(bits(4.0)),
        y_plus_height: Some(bits(6.0)),
    };
    let containers = classify_svg_shapes(&vec![], &vec![rect]).expect("drawing should classify");
    let corners: Vec<(f64, f64)> = containers[0]
        .iter()
        .map(|v| (f64::from_bits(v.x), f64::from_bits(v.y)))
        .collect();
    assert_eq!(corners, vec![(1.0, -2.0), (4.0, -2.0), (4.0, -6.0), (1.0, -6.0)]);
}

#[test]
fn rect_without_width_is_rejected() {
    let rect = RawRect {
        id: Some(b"OUTER".to_vec()),
        parent_id: None,
        x: bits(0.0),
        y: bits(0.0),
        x_plus_width: None,
        y_plus_height: Some(bits(1.0)),
    };
    match classify_svg_shapes(&vec![], &vec![rect]) {
        Err(MagnetiteError::Input(msg)) => {
            assert_eq!(msg, "Error in svg file. No width definition in rectangle")
        }
        _ => panic!("expected an Input error"),
    }
}

#[test]
fn csv_rows_follow_the_header_columns() {
    let text = b"y, x, label\n 1.5, 2.5, a\n3.5 ,4.5,b\n".to_vec();
    let rows = parse_csv(&text).expect("csv should parse");
    assert_eq!(rows.len(), 2);
    assert_eq!(rows[0].0, b"2.5".to_vec());
    assert_eq!(rows[0].1, b"1.5".to_vec());
    assert_eq!(rows[1].0, b"4.5".to_vec());
    assert_eq!(rows[1].1, b"3.5".to_vec());
}

#[test]
fn csv_without_coordinate_columns_is_rejected() {
    let text = b"a,b\n1,2\n".to_vec();
    match parse_csv(&text) {
        Err(MagnetiteError::Input(msg)) => {
            assert_eq!(msg, "Error in csv file: Missing x and/or y field")
        }
        _ => panic!("expected an Input error"),
    }
}

#[test]
fn csv_short_row_is_rejected() {
    let text = b"x,y\n1.0\n".to_vec();
    match parse_csv(&text) {
        Err(MagnetiteError::Input(msg)) => {
            assert_eq!(msg, "Error in csv file: Row is missing coordinate fields")
        }
        _ => panic!("expected an Input error"),
    }
}

#[test]
fn empty_csv_yields_no_rows() {
    let rows = parse_csv(&b"".to_vec()).expect("empty csv is empty geometry");
    assert!(rows.is_empty());
}
