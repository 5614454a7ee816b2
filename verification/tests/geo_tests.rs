use magnetite::geo::{build_geo, GeoPoint};

fn point(x: &str, y: &str) -> GeoPoint {
    GeoPoint { x: String::from(x), y: String::from(y) }
}

#[test]
fn triangle_without_holes_builds_the_expected_text() {
    let containers = vec![vec![point("0", "0"), point("1", "0"), point("0", "1")]];
    let text = build_geo(&containers, &String::from("0.1"), &String::from("0.5"));
    let mut expected = String::new();
    for part in [
        "// Define outer points\n",
        "Point(0) = { 0, 0, 0, 1.0 };\n",
        "Point(1) = { 1, 0, 0, 1.0 };\n",
        "Point(2) = { 0, 1, 0, 1.0 };\n",
        "\n// Define inner points\n",
        "\n// Connect points\n",
        "\n// Point connections for surface 0\n",
        "Line(0) = { 0, 1 };\n",
        "Line(1) = { 1, 2 };\n",
        "Line(2) = { 2, 0 };\n",
        "\n//Register loops\n",
        "Line Loop(1) = { 0, 1, 2 };\n",
        "\n//Define surface\n",
        "Plane Surface(1) = { 1 };\n",
        "\n// Define Mesh Settings\n",
        "Mesh.ElementOrder = 1;\n",
        "Mesh.Algorithm  = 1;\n",
        "Mesh.CharacteristicLengthMin = 0.1;\n",
        "Mesh.CharacteristicLengthMax = 0.5;\n",
        "Mesh 2;\n",
    ] {
        expected.push_str(part);
    }
    assert_eq!(text, expected);
}

#[test]
fn one_hole_numbers_its_points_after_the_outer_ring() {
    let containers = vec![
        vec![point("0", "0"), point("4", "0"), point("4", "4")],
        vec![point("1", "1"), point("2", "1"), point("2", "2")],
    ];
    let text = build_geo(&containers, &String::from("0.2"), &String::from("0.4"));
    assert!(text.contains("Point(3) = { 1, 1, 0, 1.0 };\n"));
    assert!(text.contains("Point(5) = { 2, 2, 0, 1.0 };\n"));
    assert!(text.contains("Line(3) = { 3, 4 };\n"));
    assert!(text.contains("Line(5) = { 5, 3 };\n"));
    assert!(text.contains("Line Loop(2) = { 3, 4, 5 };\n"));
    // With two loops the surface lists them in reverse order.
    assert!(text.contains("Plane Surface(1) = { 2, 1 };\n"));
}

#[test]
fn three_loops_are_referenced_in_ascending_order() {
    let containers = vec![
        vec![point("0", "0"), point("9", "0"), point("9", "9")],
        vec![point("1", "1"), point("2", "1"), point("2", "2")],
        vec![point("5", "5"), point("6", "5"), point("6", "6")],
    ];
    let text = build_geo(&containers, &String::from("0.2"), &String::from("0.4"));
    assert!(text.contains("Plane Surface(1) = { 1, 2, 3 };\n"));
}
