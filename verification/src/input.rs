//! Validation of the structured input document.
//!
//! The document arrives already decoded into plain values: presence flags for
//! the required objects, and for each numeric field either its binary64 bit
//! pattern or the reason it could not be read.  This module checks the
//! document and produces the model parameters and the validated boundary
//! rules, rejecting malformed input with a descriptive `Input` error.

use vstd::prelude::*;
use vstd::string::StringExecFns;
use crate::datatypes::{BoundaryRegion, BoundaryRule, BoundaryTarget, ModelMetadata};
use crate::error::MagnetiteError;
use crate::fp;

verus! {

/// A numeric field of the document: absent, present but not a number, or a
/// number given by its binary64 bit pattern.
#[derive(Debug, Clone, Copy)]
pub enum RawScalar {
    Missing,
    Malformed,
    Num(u64),
}

/// The `metadata` object as decoded from the document.
#[derive(Debug, Clone, Copy)]
pub struct RawMetadata {
    pub has_material_elasticity: bool,
    pub has_poisson_ratio: bool,
    pub has_part_thickness: bool,
    pub material_elasticity: Option<u64>,
    pub poisson_ratio: Option<u64>,
    pub part_thickness: Option<u64>,
    pub characteristic_length_min: Option<u64>,
    pub characteristic_length_max: Option<u64>,
}

/// One named entry of `boundary_conditions` as decoded from the document.
/// Region bounds distinguish a missing field from a malformed one; target
/// fields hold the numeric value where the field is a number.
#[derive(Debug, Clone)]
pub struct RawRule {
    pub name: String,
    pub has_region: bool,
    pub has_targets: bool,
    pub x_min: RawScalar,
    pub x_max: RawScalar,
    pub y_min: RawScalar,
    pub y_max: RawScalar,
    pub ux: Option<u64>,
    pub uy: Option<u64>,
    pub fx: Option<u64>,
    pub fy: Option<u64>,
}

/// The whole document.
#[derive(Debug, Clone)]
pub struct RawInputDocument {
    pub has_metadata: bool,
    pub has_boundary_conditions: bool,
    pub metadata: RawMetadata,
    pub rules: Vec<RawRule>,
}

/// A region bound with its default: an absent bound reaches to infinity.
pub open spec fn spec_bound(raw: RawScalar, dflt: u64) -> u64 {
    match raw {
        RawScalar::Num(v) => v,
        _ => dflt,
    }
}

/// The region a raw rule describes, with absent bounds defaulted.
pub open spec fn spec_rule_region(r: RawRule) -> BoundaryRegion {
    BoundaryRegion {
        x_min: spec_bound(r.x_min, fp::NEG_INFINITY),
        x_max: spec_bound(r.x_max, fp::POS_INFINITY),
        y_min: spec_bound(r.y_min, fp::NEG_INFINITY),
        y_max: spec_bound(r.y_max, fp::POS_INFINITY),
    }
}

/// The target a raw rule describes.
pub open spec fn spec_rule_target(r: RawRule) -> BoundaryTarget {
    BoundaryTarget { ux: r.ux, uy: r.uy, fx: r.fx, fy: r.fy }
}

/// The message of the first check a raw rule fails, if it fails any.
/// The checks run in this order: presence of the region and targets
/// objects, well-formed region bounds, ordered region bounds, then on each
/// axis neither under- nor over-constrained.
pub open spec fn rule_error_msg(r: RawRule) -> Option<Seq<char>> {
    if !r.has_region {
        Some("Boundary rule "@ + r.name@ + " is missing region field"@)
    } else if !r.has_targets {
        Some("Boundary rule "@ + r.name@ + " is missing target field"@)
    } else if r.x_min is Malformed {
        Some("Bad value for x_target_min in "@ + r.name@)
    } else if r.x_max is Malformed {
        Some("Bad value for x_target_max in "@ + r.name@)
    } else if r.y_min is Malformed {
        Some("Bad value for y_target_min in "@ + r.name@)
    } else if r.y_max is Malformed {
        Some("Bad value for y_target_max in "@ + r.name@)
    } else if fp::spec_gt(spec_rule_region(r).x_min, spec_rule_region(r).x_max) {
        Some("Boundary '"@ + r.name@ + "' has x_target_min greater than x_target_max"@)
    } else if fp::spec_gt(spec_rule_region(r).y_min, spec_rule_region(r).y_max) {
        Some("Boundary '"@ + r.name@ + "' has y_target_min greater than y_target_max"@)
    } else if r.fx is None && r.ux is None {
        Some("Boundary '"@ + r.name@ + "' is under-constrained in x-axis"@)
    } else if r.fy is None && r.uy is None {
        Some("Boundary '"@ + r.name@ + "' is under-constrained in y-axis"@)
    } else if r.fx is Some && r.ux is Some {
        Some("Boundary '"@ + r.name@ + "' is over-constrained in x-axis"@)
    } else if r.fy is Some && r.uy is Some {
        Some("Boundary '"@ + r.name@ + "' is over-constrained in y-axis"@)
    } else {
        None
    }
}

/// The validated rule built from a raw rule that passes every check.
pub open spec fn built_matches(raw: RawRule, b: BoundaryRule) -> bool {
    &&& b.name@ == raw.name@
    &&& b.region == spec_rule_region(raw)
    &&& b.target == spec_rule_target(raw)
}

/// Concatenates `prefix`, the rule name and `suffix` into one message.
fn boundary_message(prefix: &str, name: &String, suffix: &str) -> (r: String)
    ensures
        r@ == prefix@ + name@ + suffix@,
{
    let mut s = String::from_str(prefix);
    s.append(name.as_str());
    s.append(suffix);
    s
}

/// Checks one raw rule and either builds its validated form or reports the
/// first check it fails.
fn build_rule(raw: &RawRule) -> (r: Result<BoundaryRule, MagnetiteError>)
    ensures
        match r {
            Ok(b) => rule_error_msg(*raw) is None && built_matches(*raw, b),
            Err(e) => rule_error_msg(*raw) is Some && e is Input
                && e.spec_message() == rule_error_msg(*raw).unwrap(),
        },
{
    if !raw.has_region {
        return Err(MagnetiteError::Input(boundary_message("Boundary rule ", &raw.name, " is missing region field")));
    }
    if !raw.has_targets {
        return Err(MagnetiteError::Input(boundary_message("Boundary rule ", &raw.name, " is missing target field")));
    }
    if matches!(raw.x_min, RawScalar::Malformed) {
        let msg = boundary_message("Bad value for x_target_min in ", &raw.name, "");
        proof {
            reveal_strlit("");
            assert(msg@ =~= "Bad value for x_target_min in "@ + raw.name@);
        }
        return Err(MagnetiteError::Input(msg));
    }
    if matches!(raw.x_max, RawScalar::Malformed) {
        let msg = boundary_message("Bad value for x_target_max in ", &raw.name, "");
        proof {
            reveal_strlit("");
            assert(msg@ =~= "Bad value for x_target_max in "@ + raw.name@);
        }
        return Err(MagnetiteError::Input(msg));
    }
    if matches!(raw.y_min, RawScalar::Malformed) {
        let msg = boundary_message("Bad value for y_target_min in ", &raw.name, "");
        proof {
            reveal_strlit("");
            assert(msg@ =~= "Bad value for y_target_min in "@ + raw.name@);
        }
        return Err(MagnetiteError::Input(msg));
    }
    if matches!(raw.y_max, RawScalar::Malformed) {
        let msg = boundary_message("Bad value for y_target_max in ", &raw.name, "");
        proof {
            reveal_strlit("");
            assert(msg@ =~= "Bad value for y_target_max in "@ + raw.name@);
        }
        return Err(MagnetiteError::Input(msg));
    }
    let x_min = match raw.x_min { RawScalar::Num(v) => v, _ => fp::NEG_INFINITY };
    let x_max = match raw.x_max { RawScalar::Num(v) => v, _ => fp::POS_INFINITY };
    let y_min = match raw.y_min { RawScalar::Num(v) => v, _ => fp::NEG_INFINITY };
    let y_max = match raw.y_max { RawScalar::Num(v) => v, _ => fp::POS_INFINITY };
    if fp::gt(x_min, x_max) {
        return Err(MagnetiteError::Input(boundary_message("Boundary '", &raw.name, "' has x_target_min greater than x_target_max")));
    }
    if fp::gt(y_min, y_max) {
        return Err(MagnetiteError::Input(boundary_message("Boundary '", &raw.name, "' has y_target_min greater than y_target_max")));
    }
    if raw.fx.is_none() && raw.ux.is_none() {
        return Err(MagnetiteError::Input(boundary_message("Boundary '", &raw.name, "' is under-constrained in x-axis")));
    }
    if raw.fy.is_none() && raw.uy.is_none() {
        return Err(MagnetiteError::Input(boundary_message("Boundary '", &raw.name, "' is under-constrained in y-axis")));
    }
    if raw.fx.is_some() && raw.ux.is_some() {
        return Err(MagnetiteError::Input(boundary_message("Boundary '", &raw.name, "' is over-constrained in x-axis")));
    }
    if raw.fy.is_some() && raw.uy.is_some() {
        return Err(MagnetiteError::Input(boundary_message("Boundary '", &raw.name, "' is over-constrained in y-axis")));
    }
    Ok(BoundaryRule {
        name: raw.name.clone(),
        region: BoundaryRegion { x_min, x_max, y_min, y_max },
        target: BoundaryTarget { ux: raw.ux, uy: raw.uy, fx: raw.fx, fy: raw.fy },
    })
}

/// Validates every named boundary rule, in document order, and builds the
/// rule list.  The first rule that fails a check decides the error.
pub fn build_boundary_rules(rules: &Vec<RawRule>) -> (r: Result<Vec<BoundaryRule>, MagnetiteError>)
    ensures
        match r {
            Ok(v) => {
                &&& v@.len() == rules@.len()
                &&& forall|i: int| 0 <= i < rules@.len() ==> #[trigger] rule_error_msg(rules@[i]) is None
                &&& forall|i: int| 0 <= i < rules@.len() ==> built_matches(rules@[i], #[trigger] v@[i])
            },
            Err(e) => {
                &&& e is Input
                &&& exists|k: int| 0 <= k < rules@.len()
                    && #[trigger] rule_error_msg(rules@[k]) is Some
                    && (forall|j: int| 0 <= j < k ==> #[trigger] rule_error_msg(rules@[j]) is None)
                    && e.spec_message() == rule_error_msg(rules@[k]).unwrap()
            },
        },
{
    let mut built: Vec<BoundaryRule> = Vec::new();
    let mut i: usize = 0;
    while i < rules.len()
        invariant
            0 <= i <= rules@.len(),
            built@.len() == i,
            forall|j: int| 0 <= j < i ==> #[trigger] rule_error_msg(rules@[j]) is None,
            forall|j: int| 0 <= j < i ==> built_matches(rules@[j], #[trigger] built@[j]),
        decreases rules@.len() - i,
    {
        match build_rule(&rules[i]) {
            Ok(b) => built.push(b),
            Err(e) => {
                return Err(e);
            },
        }
        i = i + 1;
    }
    Ok(built)
}

/// A rule whose x axis prescribes neither a displacement nor a force never
/// validates: the rule list is rejected with an `Input` error.
pub proof fn lemma_under_constrained_x_rejected(r: RawRule)
    requires
        r.ux is None,
        r.fx is None,
    ensures
        rule_error_msg(r) is Some,
{
}

/// A rule whose y axis prescribes neither a displacement nor a force never
/// validates: the rule list is rejected with an `Input` error.
pub proof fn lemma_under_constrained_y_rejected(r: RawRule)
    requires
        r.uy is None,
        r.fy is None,
    ensures
        rule_error_msg(r) is Some,
{
}

/// A rule whose x axis prescribes both a displacement and a force never
/// validates: the rule list is rejected with an `Input` error.
pub proof fn lemma_over_constrained_x_rejected(r: RawRule)
    requires
        r.ux is Some,
        r.fx is Some,
    ensures
        rule_error_msg(r) is Some,
{
}

/// A rule whose y axis prescribes both a displacement and a force never
/// validates: the rule list is rejected with an `Input` error.
pub proof fn lemma_over_constrained_y_rejected(r: RawRule)
    requires
        r.uy is Some,
        r.fy is Some,
    ensures
        rule_error_msg(r) is Some,
{
}

/// A rule that validates prescribes, on each axis, exactly one of a
/// displacement and a force.
pub proof fn lemma_valid_rule_target_constrained(r: RawRule)
    requires
        rule_error_msg(r) is None,
    ensures
        crate::datatypes::target_constrained(spec_rule_target(r)),
{
}

/// The message of the first document-shape check that fails, if any: the
/// document must hold a `metadata` object with its required keys and a
/// `boundary_conditions` object.
pub open spec fn document_shape_error_msg(doc: RawInputDocument) -> Option<Seq<char>> {
    if !doc.has_metadata {
        Some("Input json missing metadata field"@)
    } else if !doc.has_boundary_conditions {
        Some("Input json missing boundary_conditions field in metadata section"@)
    } else if !doc.metadata.has_part_thickness {
        Some("Input json missing part_thickness field in metadata section"@)
    } else if !doc.metadata.has_material_elasticity {
        Some("Input json missing material_elasticity field in metadata section"@)
    } else if !doc.metadata.has_poisson_ratio {
        Some("Input json missing poisson_ratio field in metadata section"@)
    } else {
        None
    }
}

/// Checks the document shape: required objects and required metadata keys.
pub fn check_document_shape(doc: &RawInputDocument) -> (r: Result<(), MagnetiteError>)
    ensures
        match r {
            Ok(()) => document_shape_error_msg(*doc) is None,
            Err(e) => document_shape_error_msg(*doc) is Some && e is Input
                && e.spec_message() == document_shape_error_msg(*doc).unwrap(),
        },
{
    if !doc.has_metadata {
        return Err(MagnetiteError::Input(String::from_str("Input json missing metadata field")));
    }
    if !doc.has_boundary_conditions {
        return Err(MagnetiteError::Input(String::from_str("Input json missing boundary_conditions field in metadata section")));
    }
    if !doc.metadata.has_part_thickness {
        return Err(MagnetiteError::Input(String::from_str("Input json missing part_thickness field in metadata section")));
    }
    if !doc.metadata.has_material_elasticity {
        return Err(MagnetiteError::Input(String::from_str("Input json missing material_elasticity field in metadata section")));
    }
    if !doc.metadata.has_poisson_ratio {
        return Err(MagnetiteError::Input(String::from_str("Input json missing poisson_ratio field in metadata section")));
    }
    Ok(())
}

/// The message of the first metadata-value check that fails, if any: each
/// required quantity must be a number.
pub open spec fn metadata_error_msg(m: RawMetadata) -> Option<Seq<char>> {
    if m.material_elasticity is None {
        Some("Input json missing material elasticity"@)
    } else if m.poisson_ratio is None {
        Some("Input json missing poisson ratio"@)
    } else if m.characteristic_length_min is None {
        Some("Input json missing minimum characteristic length"@)
    } else if m.characteristic_length_max is None {
        Some("Input json missing maximum characteristic length"@)
    } else if m.part_thickness is None {
        Some("Input json missing part thickness"@)
    } else {
        None
    }
}

/// Reads the model parameters out of the metadata object, rejecting any
/// required quantity that is not a number.
pub fn parse_input_metadata(m: &RawMetadata) -> (r: Result<ModelMetadata, MagnetiteError>)
    ensures
        match r {
            Ok(mm) => {
                &&& metadata_error_msg(*m) is None
                &&& Some(mm.youngs_modulus) == m.material_elasticity
                &&& Some(mm.poisson_ratio) == m.poisson_ratio
                &&& Some(mm.part_thickness) == m.part_thickness
                &&& Some(mm.characteristic_length_min) == m.characteristic_length_min
                &&& Some(mm.characteristic_length_max) == m.characteristic_length_max
            },
            Err(e) => metadata_error_msg(*m) is Some && e is Input
                && e.spec_message() == metadata_error_msg(*m).unwrap(),
        },
{
    if m.material_elasticity.is_none() {
        return Err(MagnetiteError::Input(String::from_str("Input json missing material elasticity")));
    }
    if m.poisson_ratio.is_none() {
        return Err(MagnetiteError::Input(String::from_str("Input json missing poisson ratio")));
    }
    if m.characteristic_length_min.is_none() {
        return Err(MagnetiteError::Input(String::from_str("Input json missing minimum characteristic length")));
    }
    if m.characteristic_length_max.is_none() {
        return Err(MagnetiteError::Input(String::from_str("Input json missing maximum characteristic length")));
    }
    if m.part_thickness.is_none() {
        return Err(MagnetiteError::Input(String::from_str("Input json missing part thickness")));
    }
    Ok(ModelMetadata {
        youngs_modulus: m.material_elasticity.unwrap(),
        poisson_ratio: m.poisson_ratio.unwrap(),
        part_thickness: m.part_thickness.unwrap(),
        characteristic_length_min: m.characteristic_length_min.unwrap(),
        characteristic_length_max: m.characteristic_length_max.unwrap(),
    })
}

} // verus!
