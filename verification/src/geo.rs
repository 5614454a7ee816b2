//! Building the mesher's input: the `.geo` description of the part.
//!
//! Points, connecting lines, line loops (outer loop first, holes after),
//! one plane surface referencing every loop, and the two sizing
//! directives.  Coordinates and characteristic lengths arrive already
//! rendered as text, since rendering floating-point values is
//! floating-point work; point and loop numbering is rendered here.

use vstd::prelude::*;
use vstd::string::StringExecFns;
use crate::text::{spec_decimal_chars, usize_to_string};

verus! {

/// One point of the geometry, both coordinates rendered as text.
pub struct GeoPoint {
    pub x: String,
    pub y: String,
}

/// One point statement.
pub open spec fn spec_point_line(index: nat, x: Seq<char>, y: Seq<char>) -> Seq<char> {
    "Point("@ + spec_decimal_chars(index) + ") = { "@ + x + ", "@ + y + ", 0, 1.0 };\n"@
}

/// The point statements of one container's first `k` points, numbered from
/// `offset`.
pub open spec fn spec_points(pts: Seq<GeoPoint>, offset: nat, k: int) -> Seq<char>
    decreases k,
{
    if k <= 0 {
        Seq::empty()
    } else {
        spec_points(pts, offset, k - 1)
            + spec_point_line(offset + (k - 1) as nat, pts[k - 1].x@, pts[k - 1].y@)
    }
}

/// The first point number of container `j`: the points of all earlier
/// containers come first.
pub open spec fn spec_offset(cs: Seq<Vec<GeoPoint>>, j: int) -> nat
    decreases j,
{
    if j <= 0 {
        0
    } else {
        spec_offset(cs, j - 1) + cs[j - 1]@.len()
    }
}

/// The point statements of the hole containers up to `k`.
pub open spec fn spec_inner_sections(cs: Seq<Vec<GeoPoint>>, k: int) -> Seq<char>
    decreases k,
{
    if k <= 1 {
        Seq::empty()
    } else {
        spec_inner_sections(cs, k - 1)
            + spec_points(cs[k - 1]@, spec_offset(cs, k - 1), cs[k - 1]@.len() as int)
    }
}

/// One line statement connecting two points.
pub open spec fn spec_line_stmt(a: nat, b: nat) -> Seq<char> {
    "Line("@ + spec_decimal_chars(a) + ") = { "@ + spec_decimal_chars(a) + ", "@
        + spec_decimal_chars(b) + " };\n"@
}

/// The consecutive connections of one container's first `k` interior
/// steps.
pub open spec fn spec_conn_lines(offset: nat, k: int) -> Seq<char>
    decreases k,
{
    if k <= 0 {
        Seq::empty()
    } else {
        spec_conn_lines(offset, k - 1) + spec_line_stmt(offset + (k - 1) as nat, offset + k as nat)
    }
}

/// The whole connection section of container `i`: its header comment, the
/// consecutive connections, and the closing connection back to the first
/// point.
pub open spec fn spec_connect_section(cs: Seq<Vec<GeoPoint>>, i: int) -> Seq<char> {
    let offset = spec_offset(cs, i);
    let n = cs[i]@.len();
    "\n// Point connections for surface "@ + spec_decimal_chars(i as nat) + "\n"@
        + spec_conn_lines(offset, n as int - 1)
        + spec_line_stmt((n + offset - 1) as nat, offset)
}

/// The connection sections of the containers up to `k`.
pub open spec fn spec_connect_all(cs: Seq<Vec<GeoPoint>>, k: int) -> Seq<char>
    decreases k,
{
    if k <= 0 {
        Seq::empty()
    } else {
        spec_connect_all(cs, k - 1) + spec_connect_section(cs, k - 1)
    }
}

/// The first `k` items of a loop statement: each point number preceded by
/// a separator (nothing for the first, a comma after) and a space.
pub open spec fn spec_loop_items(offset: nat, k: int) -> Seq<char>
    decreases k,
{
    if k <= 0 {
        Seq::empty()
    } else {
        spec_loop_items(offset, k - 1) + (if k == 1 { Seq::<char>::empty() } else { ","@ })
            + " "@ + spec_decimal_chars(offset + (k - 1) as nat)
    }
}

/// The loop statement of container `i`.
pub open spec fn spec_loop_stmt(cs: Seq<Vec<GeoPoint>>, i: int) -> Seq<char> {
    "Line Loop("@ + spec_decimal_chars((i + 1) as nat) + ") = {"@
        + spec_loop_items(spec_offset(cs, i), cs[i]@.len() as int) + " };\n"@
}

/// The loop statements of the containers up to `k`.
pub open spec fn spec_loops_all(cs: Seq<Vec<GeoPoint>>, k: int) -> Seq<char>
    decreases k,
{
    if k <= 0 {
        Seq::empty()
    } else {
        spec_loops_all(cs, k - 1) + spec_loop_stmt(cs, k - 1)
    }
}

/// The loop number referenced at position `p` of the surface statement:
/// ascending when more than two containers exist, else descending.
pub open spec fn spec_surface_ref(n: int, p: int) -> int {
    if n > 2 {
        p
    } else {
        n - 1 - p
    }
}

/// The first `k` items of the surface statement.
pub open spec fn spec_surface_items(n: int, k: int) -> Seq<char>
    decreases k,
{
    if k <= 0 {
        Seq::empty()
    } else {
        spec_surface_items(n, k - 1) + (if k == 1 { Seq::<char>::empty() } else { ","@ })
            + " "@ + spec_decimal_chars((spec_surface_ref(n, k - 1) + 1) as nat)
    }
}

/// The sizing directives.
pub open spec fn spec_settings(cl_min: Seq<char>, cl_max: Seq<char>) -> Seq<char> {
    "\n// Define Mesh Settings\nMesh.ElementOrder = 1;\nMesh.Algorithm  = 1;\nMesh.CharacteristicLengthMin = "@
        + cl_min + ";\nMesh.CharacteristicLengthMax = "@ + cl_max + ";\nMesh 2;\n"@
}

/// The whole `.geo` description.
pub open spec fn spec_geo_text(
    cs: Seq<Vec<GeoPoint>>,
    cl_min: Seq<char>,
    cl_max: Seq<char>,
) -> Seq<char> {
    "// Define outer points\n"@ + spec_points(cs[0]@, 0, cs[0]@.len() as int)
        + "\n// Define inner points\n"@ + spec_inner_sections(cs, cs.len() as int)
        + "\n// Connect points\n"@ + spec_connect_all(cs, cs.len() as int)
        + "\n//Register loops\n"@ + spec_loops_all(cs, cs.len() as int)
        + "\n//Define surface\n"@ + "Plane Surface(1) = {"@
        + spec_surface_items(cs.len() as int, cs.len() as int) + " };\n"@
        + spec_settings(cl_min, cl_max)
}

/// Appends the point statements of one container.
fn emit_points(out: &mut String, pts: &Vec<GeoPoint>, offset: usize)
    requires
        offset + pts@.len() <= usize::MAX,
    ensures
        final(out)@ == old(out)@ + spec_points(pts@, offset as nat, pts@.len() as int),
{
    let mut k: usize = 0;
    while k < pts.len()
        invariant
            offset + pts@.len() <= usize::MAX,
            0 <= k <= pts@.len(),
            out@ == old(out)@ + spec_points(pts@, offset as nat, k as int),
        decreases pts@.len() - k,
    {
        out.append("Point(");
        let num = usize_to_string(offset + k);
        out.append(num.as_str());
        out.append(") = { ");
        out.append(pts[k].x.as_str());
        out.append(", ");
        out.append(pts[k].y.as_str());
        out.append(", 0, 1.0 };\n");
        k = k + 1;
    }
}

/// Appends one line statement.
fn emit_line_stmt(out: &mut String, a: usize, b: usize)
    ensures
        final(out)@ == old(out)@ + spec_line_stmt(a as nat, b as nat),
{
    out.append("Line(");
    let num_a = usize_to_string(a);
    out.append(num_a.as_str());
    out.append(") = { ");
    out.append(num_a.as_str());
    out.append(", ");
    let num_b = usize_to_string(b);
    out.append(num_b.as_str());
    out.append(" };\n");
}

/// Builds the `.geo` description of the classified geometry: the outer
/// container's points first, each hole's after, consecutive connections
/// closing each loop, one registered loop per container, the plane surface
/// referencing every loop (outer first only when holes leave more than two
/// loops, matching the mesher's expectations), and the sizing directives.
#[verifier::rlimit(80)]
pub fn build_geo(containers: &Vec<Vec<GeoPoint>>, cl_min: &String, cl_max: &String) -> (r: String)
    requires
        containers@.len() >= 1,
        containers@[0]@.len() >= 1,
        spec_offset(containers@, containers@.len() as int) <= usize::MAX,
        containers@.len() < usize::MAX,
    ensures
        r@ == spec_geo_text(containers@, cl_min@, cl_max@),
{
    let n = containers.len();
    proof {
        lemma_offset_monotonic(containers@, 0, n as int);
        lemma_offset_monotonic(containers@, 1, n as int);
    }
    let mut out = String::new();
    out.append("// Define outer points\n");
    emit_points(&mut out, &containers[0], 0);
    out.append("\n// Define inner points\n");
    let mut offset: usize = containers[0].len();
    let mut j: usize = 1;
    while j < n
        invariant
            n == containers@.len(),
            spec_offset(containers@, n as int) <= usize::MAX,
            1 <= j <= n || (n == 1 && j == 1),
            1 <= j,
            offset == spec_offset(containers@, j as int),
            out@ == "// Define outer points\n"@
                + spec_points(containers@[0]@, 0, containers@[0]@.len() as int)
                + "\n// Define inner points\n"@ + spec_inner_sections(containers@, j as int),
        decreases n - j,
    {
        proof {
            lemma_offset_monotonic(containers@, j + 1, n as int);
        }
        emit_points(&mut out, &containers[j], offset);
        offset = offset + containers[j].len();
        j = j + 1;
    }
    out.append("\n// Connect points\n");
    let ghost prefix_connect = out@;
    let mut i: usize = 0;
    let mut off: usize = 0;
    while i < n
        invariant
            n == containers@.len(),
            containers@[0]@.len() >= 1,
            spec_offset(containers@, n as int) <= usize::MAX,
            0 <= i <= n,
            off == spec_offset(containers@, i as int),
            out@ == prefix_connect + spec_connect_all(containers@, i as int),
        decreases n - i,
    {
        proof {
            lemma_offset_monotonic(containers@, i + 1, n as int);
            lemma_offset_positive(containers@, i as int);
        }
        out.append("\n// Point connections for surface ");
        let num = usize_to_string(i);
        out.append(num.as_str());
        out.append("\n");
        let len_i = containers[i].len();
        let mut k: usize = 1;
        while k < len_i
            invariant
                n == containers@.len(),
                0 <= i < n,
                len_i == containers@[i as int]@.len(),
                off == spec_offset(containers@, i as int),
                off + len_i <= usize::MAX,
                1 <= k <= len_i || (len_i == 0 && k == 1),
                out@ == prefix_connect + spec_connect_all(containers@, i as int)
                    + "\n// Point connections for surface "@ + spec_decimal_chars(i as nat)
                    + "\n"@ + spec_conn_lines(off as nat, k as int - 1),
            decreases len_i - k,
        {
            emit_line_stmt(&mut out, k + off - 1, k + off);
            k = k + 1;
        }
        emit_line_stmt(&mut out, len_i + off - 1, off);
        proof {
            assert(out@ =~= prefix_connect + spec_connect_all(containers@, i + 1));
        }
        off = off + len_i;
        i = i + 1;
    }
    out.append("\n//Register loops\n");
    let ghost prefix_loops = out@;
    let mut i2: usize = 0;
    let mut off2: usize = 0;
    while i2 < n
        invariant
            n == containers@.len(),
            n < usize::MAX,
            spec_offset(containers@, n as int) <= usize::MAX,
            0 <= i2 <= n,
            off2 == spec_offset(containers@, i2 as int),
            out@ == prefix_loops + spec_loops_all(containers@, i2 as int),
        decreases n - i2,
    {
        proof {
            lemma_offset_monotonic(containers@, i2 + 1, n as int);
        }
        out.append("Line Loop(");
        let num = usize_to_string(i2 + 1);
        out.append(num.as_str());
        out.append(") = {");
        let len_i = containers[i2].len();
        let mut k: usize = 0;
        while k < len_i
            invariant
                n == containers@.len(),
                0 <= i2 < n,
                len_i == containers@[i2 as int]@.len(),
                off2 == spec_offset(containers@, i2 as int),
                off2 + len_i <= usize::MAX,
                0 <= k <= len_i,
                out@ == prefix_loops + spec_loops_all(containers@, i2 as int) + "Line Loop("@
                    + spec_decimal_chars((i2 + 1) as nat) + ") = {"@
                    + spec_loop_items(off2 as nat, k as int),
            decreases len_i - k,
        {
            if k != 0 {
                out.append(",");
            }
            out.append(" ");
            let num_k = usize_to_string(off2 + k);
            out.append(num_k.as_str());
            proof {
                if k == 0 {
                    assert(out@ =~= prefix_loops + spec_loops_all(containers@, i2 as int)
                        + "Line Loop("@ + spec_decimal_chars((i2 + 1) as nat) + ") = {"@
                        + spec_loop_items(off2 as nat, k + 1));
                }
            }
            k = k + 1;
        }
        out.append(" };\n");
        proof {
            assert(out@ =~= prefix_loops + spec_loops_all(containers@, i2 + 1));
        }
        off2 = off2 + len_i;
        i2 = i2 + 1;
    }
    out.append("\n//Define surface\n");
    out.append("Plane Surface(1) = {");
    let ghost prefix_surface = out@;
    let mut p: usize = 0;
    while p < n
        invariant
            n == containers@.len(),
            n >= 1,
            0 <= p <= n,
            out@ == prefix_surface + spec_surface_items(n as int, p as int),
        decreases n - p,
    {
        if p != 0 {
            out.append(",");
        }
        out.append(" ");
        let loop_ref: usize = if n > 2 { p } else { n - 1 - p };
        let num = usize_to_string(loop_ref + 1);
        out.append(num.as_str());
        proof {
            if p == 0 {
                assert(out@ =~= prefix_surface + spec_surface_items(n as int, p + 1));
            }
        }
        p = p + 1;
    }
    out.append(" };\n");
    out.append("\n// Define Mesh Settings\nMesh.ElementOrder = 1;\nMesh.Algorithm  = 1;\nMesh.CharacteristicLengthMin = ");
    out.append(cl_min.as_str());
    out.append(";\nMesh.CharacteristicLengthMax = ");
    out.append(cl_max.as_str());
    out.append(";\nMesh 2;\n");
    proof {
        assert(out@ =~= spec_geo_text(containers@, cl_min@, cl_max@));
    }
    out
}

/// Offsets grow with the container index.
proof fn lemma_offset_monotonic(cs: Seq<Vec<GeoPoint>>, j: int, m: int)
    requires
        0 <= j <= m,
    ensures
        spec_offset(cs, j) <= spec_offset(cs, m),
    decreases m - j,
{
    if j < m {
        lemma_offset_monotonic(cs, j + 1, m);
    }
}

/// Every container after the first starts at or after the outer
/// container's point count; the outer container starts at zero.
proof fn lemma_offset_positive(cs: Seq<Vec<GeoPoint>>, i: int)
    requires
        0 <= i,
        cs.len() >= 1,
        cs[0]@.len() >= 1,
    ensures
        i >= 1 ==> spec_offset(cs, i) >= cs[0]@.len(),
    decreases i,
{
    if i > 1 {
        lemma_offset_positive(cs, i - 1);
    }
}

} // verus!
