//! The data model: vertices, nodes, elements, model parameters and boundary
//! rules.  Every scalar field holds the IEEE-754 binary64 bit pattern of the
//! value (see `fp`).

use vstd::prelude::*;
use crate::fp;

verus! {

/// A planar point; `x` and `y` are binary64 bit patterns.
#[derive(Debug, Clone, Copy)]
pub struct Vertex {
    pub x: u64,
    pub y: u64,
}

/// A mesh node: a vertex plus, per axis, an optional displacement and an
/// optional force (binary64 bit patterns).  Before a solve exactly one of
/// the two is present on each axis; after a solve all four are present.
#[derive(Debug, Clone, Copy)]
pub struct Node {
    pub vertex: Vertex,
    pub ux: Option<u64>,
    pub uy: Option<u64>,
    pub fx: Option<u64>,
    pub fy: Option<u64>,
}

/// A triangular element: three node indices, and a stress magnitude
/// (binary64 bit pattern) present after the stress pass.
#[derive(Debug, Clone, Copy)]
pub struct Element {
    pub nodes: [usize; 3],
    pub stress: Option<u64>,
}

/// Material and meshing parameters; all fields are binary64 bit patterns.
#[derive(Debug, Clone, Copy)]
pub struct ModelMetadata {
    pub youngs_modulus: u64,
    pub poisson_ratio: u64,
    pub part_thickness: u64,
    pub characteristic_length_min: u64,
    pub characteristic_length_max: u64,
}

/// An axis-aligned rectangular region; bounds are binary64 bit patterns,
/// unspecified bounds default to the infinities.
#[derive(Debug, Clone, Copy)]
pub struct BoundaryRegion {
    pub x_min: u64,
    pub x_max: u64,
    pub y_min: u64,
    pub y_max: u64,
}

/// The quantities a boundary rule prescribes: per axis an optional
/// displacement and an optional force (binary64 bit patterns).
#[derive(Debug, Clone, Copy)]
pub struct BoundaryTarget {
    pub ux: Option<u64>,
    pub uy: Option<u64>,
    pub fx: Option<u64>,
    pub fy: Option<u64>,
}

/// A named boundary rule: the region it selects and the target it stamps.
#[derive(Debug, Clone)]
pub struct BoundaryRule {
    pub name: String,
    pub region: BoundaryRegion,
    pub target: BoundaryTarget,
}

/// Exactly one of the two options is present.
pub open spec fn exactly_one_of(u: Option<u64>, f: Option<u64>) -> bool {
    u is Some <==> f is None
}

/// The pre-solve node invariant: on each axis exactly one of displacement
/// and force is prescribed.
pub open spec fn node_constrained(node: Node) -> bool {
    exactly_one_of(node.ux, node.fx) && exactly_one_of(node.uy, node.fy)
}

/// The target invariant a validated boundary rule satisfies: on each axis
/// exactly one of displacement and force is set.
pub open spec fn target_constrained(target: BoundaryTarget) -> bool {
    exactly_one_of(target.ux, target.fx) && exactly_one_of(target.uy, target.fy)
}

/// The element invariant: the three node indices are distinct and refer to
/// existing nodes.
pub open spec fn element_indices_valid(element: Element, nodes_len: nat) -> bool {
    &&& element.nodes[0] < nodes_len
    &&& element.nodes[1] < nodes_len
    &&& element.nodes[2] < nodes_len
    &&& element.nodes[0] != element.nodes[1]
    &&& element.nodes[1] != element.nodes[2]
    &&& element.nodes[0] != element.nodes[2]
}

/// A vertex lies strictly inside a region: each coordinate is strictly
/// between the bounds.  A point exactly on a bound is not selected.
pub open spec fn vertex_in_region(v: Vertex, r: BoundaryRegion) -> bool {
    &&& fp::spec_gt(v.x, r.x_min)
    &&& fp::spec_lt(v.x, r.x_max)
    &&& fp::spec_gt(v.y, r.y_min)
    &&& fp::spec_lt(v.y, r.y_max)
}

} // verus!
