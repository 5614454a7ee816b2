use magnetite::error::MagnetiteError;

#[test]
fn input_error_renders_with_kind() {
    let e = MagnetiteError::Input(String::from("bad document"));
    assert_eq!(e.rendered(), "Input error: bad document");
}

#[test]
fn mesher_error_renders_with_kind() {
    let e = MagnetiteError::Mesher(String::from("gmsh failed"));
    assert_eq!(e.rendered(), "Mesher error: gmsh failed");
}

#[test]
fn solver_error_renders_with_kind() {
    let e = MagnetiteError::Solver(String::from("did not converge"));
    assert_eq!(e.rendered(), "Solver error: did not converge");
}

#[test]
fn post_processor_error_renders_with_space() {
    let e = MagnetiteError::PostProcessor(String::from("plot failed"));
    assert_eq!(e.rendered(), "Post Processor error: plot failed");
}
