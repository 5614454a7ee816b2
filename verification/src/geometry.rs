//! Geometry ingest: classifying the shapes of an SVG drawing into an outer
//! boundary and holes, and reading polyline vertices out of CSV text.
//!
//! Shapes arrive as plain records: coordinates as binary64 bit patterns
//! (already parsed from the attribute text), identifiers as bytes, and, for
//! polylines, a precomputed closeness table saying which vertex pairs lie
//! closer than the minimum element length (that distance is floating-point
//! work).  The classification itself — pairing coordinates, inverting the
//! y axis, dropping duplicate and too-close vertices, and sorting shapes by
//! their `OUTER`/`INNER` identifier prefix — is verified here.

use vstd::prelude::*;
use vstd::string::StringExecFns;
use crate::datatypes::Vertex;
use crate::error::MagnetiteError;
use crate::fp;
use crate::text::{
    spec_split, spec_starts_with, spec_trim, split_bytes, starts_with_bytes, trim_bytes, views_of,
};

verus! {

/// A polyline or polygon as extracted from the drawing: its identifier and
/// its parent's, the flat coordinate list (x then y, repeated, in drawing
/// coordinates), and the closeness table: `close[a][b]` says whether vertex
/// pairs `a` and `b` lie closer than the minimum element length.
pub struct RawPolyline {
    pub id: Option<Vec<u8>>,
    pub parent_id: Option<Vec<u8>>,
    pub coords: Vec<u64>,
    pub close: Vec<Vec<bool>>,
}

/// A rectangle as extracted from the drawing: its identifier and its
/// parent's, the corner position (defaulted to zero where absent, as the
/// drawing reader does), and the opposite corner where the rectangle has a
/// width and height.
pub struct RawRect {
    pub id: Option<Vec<u8>>,
    pub parent_id: Option<Vec<u8>>,
    pub x: u64,
    pub y: u64,
    pub x_plus_width: Option<u64>,
    pub y_plus_height: Option<u64>,
}

/// The identifier prefix of the outer boundary: `OUTER`.
pub open spec fn outer_marker() -> Seq<u8> {
    seq![79u8, 85u8, 84u8, 69u8, 82u8]
}

/// The identifier prefix of a hole: `INNER`.
pub open spec fn inner_marker() -> Seq<u8> {
    seq![73u8, 78u8, 78u8, 69u8, 82u8]
}

fn marker_outer() -> (r: Vec<u8>)
    ensures
        r@ == outer_marker(),
{
    let mut v: Vec<u8> = Vec::new();
    v.push(79); v.push(85); v.push(84); v.push(69); v.push(82);
    proof {
        assert(v@ =~= outer_marker());
    }
    v
}

fn marker_inner() -> (r: Vec<u8>)
    ensures
        r@ == inner_marker(),
{
    let mut v: Vec<u8> = Vec::new();
    v.push(73); v.push(78); v.push(78); v.push(69); v.push(82);
    proof {
        assert(v@ =~= inner_marker());
    }
    v
}

/// Two vertices are the same point in the IEEE-754 sense: both coordinates
/// compare equal (so the two zeros coincide, and no NaN equals anything).
pub open spec fn spec_vertex_eq(a: Vertex, b: Vertex) -> bool {
    fp::spec_eq(a.x, b.x) && fp::spec_eq(a.y, b.y)
}

/// Whether the list already holds this point.
pub open spec fn spec_contains_vertex(kept: Seq<Vertex>, v: Vertex) -> bool {
    exists|j: int| 0 <= j < kept.len() && spec_vertex_eq(kept[j], v)
}

/// The closeness table is square, one row and column per coordinate pair.
pub open spec fn close_wf(close: Seq<Vec<bool>>, n: int) -> bool {
    close.len() == n && forall|a: int| 0 <= a < n ==> #[trigger] close[a]@.len() == n
}

/// The vertices kept from the first `k` coordinate pairs, with the pair
/// index of the last kept vertex: a pair is dropped if its point (with the
/// y axis inverted) is already kept, or lies closer to the last kept vertex
/// than the minimum element length.
pub open spec fn spec_filter_pairs(coords: Seq<u64>, close: Seq<Vec<bool>>, k: int) -> (
    Seq<Vertex>,
    Option<int>,
)
    decreases k,
{
    if k <= 0 {
        (Seq::empty(), Option::None)
    } else {
        let (kept, last) = spec_filter_pairs(coords, close, k - 1);
        let v = Vertex { x: coords[2 * (k - 1)], y: fp::spec_neg(coords[2 * (k - 1) + 1]) };
        if spec_contains_vertex(kept, v) {
            (kept, last)
        } else if last is Some && close[last.unwrap()]@[k - 1] {
            (kept, last)
        } else {
            (kept.push(v), Option::Some(k - 1))
        }
    }
}

/// Whether the list already holds this point.
fn contains_vertex(kept: &Vec<Vertex>, v: Vertex) -> (r: bool)
    ensures
        r == spec_contains_vertex(kept@, v),
{
    let mut j: usize = 0;
    while j < kept.len()
        invariant
            0 <= j <= kept@.len(),
            forall|m: int| 0 <= m < j ==> !spec_vertex_eq(#[trigger] kept@[m], v),
        decreases kept@.len() - j,
    {
        if fp::eq(kept[j].x, v.x) && fp::eq(kept[j].y, v.y) {
            return true;
        }
        j = j + 1;
    }
    false
}

/// Pairs up a polyline's flat coordinate list and filters it.
fn filter_polyline(coords: &Vec<u64>, close: &Vec<Vec<bool>>) -> (r: Vec<Vertex>)
    requires
        coords@.len() % 2 == 0,
        close_wf(close@, coords@.len() as int / 2),
    ensures
        r@ == spec_filter_pairs(coords@, close@, coords@.len() as int / 2).0,
{
    let clen = coords.len();
    let n = clen / 2;
    let mut kept: Vec<Vertex> = Vec::new();
    let mut last: Option<usize> = Option::None;
    let mut k: usize = 0;
    while k < n
        invariant
            clen == coords@.len(),
            n == coords@.len() / 2,
            coords@.len() % 2 == 0,
            close_wf(close@, n as int),
            0 <= k <= n,
            kept@ == spec_filter_pairs(coords@, close@, k as int).0,
            match last {
                Option::Some(a) => {
                    &&& spec_filter_pairs(coords@, close@, k as int).1 == Option::Some(a as int)
                    &&& a < n
                },
                Option::None => spec_filter_pairs(coords@, close@, k as int).1 is None,
            },
        decreases n - k,
    {
        let x = coords[2 * k];
        let y = fp::neg(coords[2 * k + 1]);
        let v = Vertex { x, y };
        if contains_vertex(&kept, v) {
        } else {
            let too_close = match last {
                Option::Some(a) => close[a][k],
                Option::None => false,
            };
            if !too_close {
                kept.push(v);
                last = Option::Some(k);
            }
        }
        k = k + 1;
    }
    kept
}

/// The shape containers: slot 0 is the outer boundary (empty until an
/// `OUTER` shape arrives), later slots are holes in arrival order.
pub struct GeoAbs {
    pub containers: Seq<Seq<Vertex>>,
    pub error: Option<Seq<char>>,
}

/// The identifier a shape resolves to: its own, else its parent's.
pub open spec fn spec_resolve_id(id: Option<Vec<u8>>, parent_id: Option<Vec<u8>>) -> Option<
    Seq<u8>,
> {
    match id {
        Option::Some(i) => Option::Some(i@),
        Option::None => match parent_id {
            Option::Some(p) => Option::Some(p@),
            Option::None => Option::None,
        },
    }
}

/// Files one shape's vertices by its identifier: `INNER…` appends a hole,
/// `OUTER…` fills the outer slot (only once), anything else is ignored, and
/// a shape with no identifier is an input error.
pub open spec fn spec_classify_one(
    st: GeoAbs,
    id: Option<Seq<u8>>,
    vertices: Seq<Vertex>,
) -> GeoAbs {
    if st.error is Some {
        st
    } else {
        match id {
            Option::None => GeoAbs {
                error: Option::Some("Error in svg file. Missing id field on polyline"@),
                ..st
            },
            Option::Some(raw_id) => {
                let trimmed = spec_trim(raw_id);
                if spec_starts_with(trimmed, inner_marker()) {
                    GeoAbs { containers: st.containers.push(vertices), ..st }
                } else if spec_starts_with(trimmed, outer_marker()) {
                    if st.containers[0].len() == 0 {
                        GeoAbs { containers: st.containers.update(0, vertices), ..st }
                    } else {
                        GeoAbs { error: Option::Some("Multiple OUTER geometries in SVG"@), ..st }
                    }
                } else {
                    st
                }
            },
        }
    }
}

/// The classification of every polyline, in order, from the initial state
/// (an empty outer slot).
pub open spec fn spec_classify_polylines(polylines: Seq<RawPolyline>, k: int) -> GeoAbs
    decreases k,
{
    if k <= 0 {
        GeoAbs { containers: seq![Seq::<Vertex>::empty()], error: Option::None }
    } else {
        let st = spec_classify_polylines(polylines, k - 1);
        let p = polylines[k - 1];
        if st.error is Some {
            st
        } else if p.coords@.len() % 2 != 0 {
            GeoAbs {
                error: Option::Some(
                    "Error in svg file. Polyline has an odd number of point coordinates"@,
                ),
                ..st
            }
        } else if !close_wf(p.close@, p.coords@.len() as int / 2) {
            GeoAbs {
                error: Option::Some(
                    "Error in svg file. Polyline has a malformed closeness table"@,
                ),
                ..st
            }
        } else {
            spec_classify_one(
                st,
                spec_resolve_id(p.id, p.parent_id),
                spec_filter_pairs(p.coords@, p.close@, p.coords@.len() as int / 2).0,
            )
        }
    }
}

/// The four corner vertices of a rectangle, counter-clockwise in physical
/// coordinates (the drawing's y axis is inverted).
pub open spec fn spec_rect_vertices(x: u64, y: u64, x_plus_width: u64, y_plus_height: u64) -> Seq<
    Vertex,
> {
    seq![
        Vertex { x: x, y: fp::spec_neg(y) },
        Vertex { x: x_plus_width, y: fp::spec_neg(y) },
        Vertex { x: x_plus_width, y: fp::spec_neg(y_plus_height) },
        Vertex { x: x, y: fp::spec_neg(y_plus_height) },
    ]
}

/// The classification of every rectangle, continuing from a given state.
pub open spec fn spec_classify_rects(st0: GeoAbs, rects: Seq<RawRect>, k: int) -> GeoAbs
    decreases k,
{
    if k <= 0 {
        st0
    } else {
        let st = spec_classify_rects(st0, rects, k - 1);
        let r = rects[k - 1];
        if st.error is Some {
            st
        } else if r.x_plus_width is None {
            GeoAbs {
                error: Option::Some("Error in svg file. No width definition in rectangle"@),
                ..st
            }
        } else if r.y_plus_height is None {
            GeoAbs {
                error: Option::Some("Error in svg file. No height definition in rectangle"@),
                ..st
            }
        } else {
            spec_classify_one(
                st,
                spec_resolve_id(r.id, r.parent_id),
                spec_rect_vertices(r.x, r.y, r.x_plus_width.unwrap(), r.y_plus_height.unwrap()),
            )
        }
    }
}

/// The final state of classifying a whole drawing.
pub open spec fn spec_classify_svg(polylines: Seq<RawPolyline>, rects: Seq<RawRect>) -> GeoAbs {
    spec_classify_rects(
        spec_classify_polylines(polylines, polylines.len() as int),
        rects,
        rects.len() as int,
    )
}

/// The views of the vertex containers.
pub open spec fn container_views(cs: Seq<Vec<Vertex>>) -> Seq<Seq<Vertex>> {
    cs.map_values(|c: Vec<Vertex>| c@)
}

/// Once the polyline classification fails, later polylines change nothing.
proof fn lemma_classify_polylines_absorb(polylines: Seq<RawPolyline>, k: int, m: int)
    requires
        0 <= k <= m,
        spec_classify_polylines(polylines, k).error is Some,
    ensures
        spec_classify_polylines(polylines, m) == spec_classify_polylines(polylines, k),
    decreases m - k,
{
    if k < m {
        lemma_classify_polylines_absorb(polylines, k, m - 1);
    }
}

/// Once the rectangle classification fails, later rectangles change
/// nothing.
proof fn lemma_classify_rects_absorb(st0: GeoAbs, rects: Seq<RawRect>, k: int, m: int)
    requires
        0 <= k <= m,
        spec_classify_rects(st0, rects, k).error is Some,
    ensures
        spec_classify_rects(st0, rects, m) == spec_classify_rects(st0, rects, k),
    decreases m - k,
{
    if k < m {
        lemma_classify_rects_absorb(st0, rects, k, m - 1);
    }
}

/// A failed polyline classification passes unchanged through the
/// rectangles.
proof fn lemma_classify_rects_error(st0: GeoAbs, rects: Seq<RawRect>, m: int)
    requires
        0 <= m,
        st0.error is Some,
    ensures
        spec_classify_rects(st0, rects, m) == st0,
    decreases m,
{
    if m > 0 {
        lemma_classify_rects_error(st0, rects, m - 1);
    }
}

/// Classifies a drawing's shapes into the outer boundary and its holes.
/// Every polyline and polygon is considered first, then every rectangle,
/// as the drawing reader extracts them; the outer boundary must appear
/// exactly once and ends in slot 0, holes follow in arrival order.
pub fn classify_svg_shapes(polylines: &Vec<RawPolyline>, rects: &Vec<RawRect>) -> (r: Result<
    Vec<Vec<Vertex>>,
    MagnetiteError,
>)
    ensures
        ({
            let st = spec_classify_svg(polylines@, rects@);
            match r {
                Ok(containers) => {
                    &&& st.error is None
                    &&& st.containers.len() >= 1
                    &&& st.containers[0].len() > 0
                    &&& containers@.len() == st.containers.len()
                    &&& forall|i: int| 0 <= i < st.containers.len()
                        ==> #[trigger] containers@[i]@ == st.containers[i]
                },
                Err(e) => {
                    &&& e is Input
                    &&& {
                        ||| (st.error is Some && e.spec_message() == st.error.unwrap())
                        ||| (st.error is None && st.containers[0].len() == 0
                            && e.spec_message() == "No OUTER geometry"@)
                    }
                },
            }
        }),
{
    let mut containers: Vec<Vec<Vertex>> = Vec::new();
    containers.push(Vec::new());
    proof {
        assert(container_views(containers@)
            =~= spec_classify_polylines(polylines@, 0).containers);
    }
    let mut k: usize = 0;
    while k < polylines.len()
        invariant
            0 <= k <= polylines@.len(),
            spec_classify_polylines(polylines@, k as int).error is None,
            container_views(containers@)
                == spec_classify_polylines(polylines@, k as int).containers,
            containers@.len() >= 1,
        decreases polylines@.len() - k,
    {
        let p = &polylines[k];
        if p.coords.len() % 2 != 0 {
            proof {
                assert(spec_classify_polylines(polylines@, k + 1).error is Some);
                lemma_classify_polylines_absorb(polylines@, k + 1, polylines@.len() as int);
                lemma_classify_rects_error(
                    spec_classify_polylines(polylines@, polylines@.len() as int),
                    rects@,
                    rects@.len() as int,
                );
            }
            return Err(MagnetiteError::Input(String::from_str(
                "Error in svg file. Polyline has an odd number of point coordinates",
            )));
        }
        let pairs = p.coords.len() / 2;
        if p.close.len() != pairs {
            proof {
                assert(!close_wf(p.close@, pairs as int));
            }
            proof {
                assert(spec_classify_polylines(polylines@, k + 1).error is Some);
                lemma_classify_polylines_absorb(polylines@, k + 1, polylines@.len() as int);
                lemma_classify_rects_error(
                    spec_classify_polylines(polylines@, polylines@.len() as int),
                    rects@,
                    rects@.len() as int,
                );
            }
            return Err(MagnetiteError::Input(String::from_str(
                "Error in svg file. Polyline has a malformed closeness table",
            )));
        }
        let mut a: usize = 0;
        while a < pairs
            invariant
                0 <= a <= pairs,
                0 <= k < polylines@.len(),
                p == &polylines@[k as int],
                spec_classify_polylines(polylines@, k as int).error is None,
                p.close@.len() == pairs,
                pairs == p.coords@.len() / 2,
                p.coords@.len() % 2 == 0,
                forall|m: int| 0 <= m < a ==> #[trigger] p.close@[m]@.len() == pairs,
            decreases pairs - a,
        {
            if p.close[a].len() != pairs {
                proof {
                    assert(!close_wf(p.close@, pairs as int));
                    assert(spec_classify_polylines(polylines@, k + 1).error is Some);
                    lemma_classify_polylines_absorb(polylines@, k + 1, polylines@.len() as int);
                    lemma_classify_rects_error(
                        spec_classify_polylines(polylines@, polylines@.len() as int),
                        rects@,
                        rects@.len() as int,
                    );
                }
                return Err(MagnetiteError::Input(String::from_str(
                    "Error in svg file. Polyline has a malformed closeness table",
                )));
            }
            a = a + 1;
        }
        let filtered = filter_polyline(&p.coords, &p.close);
        let resolved: &Option<Vec<u8>> = if p.id.is_some() { &p.id } else { &p.parent_id };
        match resolved {
            Option::None => {
            proof {
                assert(spec_classify_polylines(polylines@, k + 1).error is Some);
                lemma_classify_polylines_absorb(polylines@, k + 1, polylines@.len() as int);
                lemma_classify_rects_error(
                    spec_classify_polylines(polylines@, polylines@.len() as int),
                    rects@,
                    rects@.len() as int,
                );
            }
                return Err(MagnetiteError::Input(String::from_str(
                    "Error in svg file. Missing id field on polyline",
                )));
            },
            Option::Some(raw_id) => {
                let trimmed = trim_bytes(raw_id);
                let inner = marker_inner();
                let outer = marker_outer();
                let ghost pre = containers@;
                if starts_with_bytes(&trimmed, &inner) {
                    containers.push(filtered);
                    proof {
                        assert(container_views(containers@)
                            =~= container_views(pre).push(filtered@));
                    }
                } else if starts_with_bytes(&trimmed, &outer) {
                    if containers[0].len() == 0 {
                        containers.set(0, filtered);
                        proof {
                            assert(container_views(containers@)
                                =~= container_views(pre).update(0, filtered@));
                        }
                    } else {
                        proof {
                            assert(spec_classify_polylines(polylines@, k + 1).error is Some);
                            lemma_classify_polylines_absorb(polylines@, k + 1, polylines@.len() as int);
                            lemma_classify_rects_error(
                                spec_classify_polylines(polylines@, polylines@.len() as int),
                                rects@,
                                rects@.len() as int,
                            );
                        }
                        return Err(MagnetiteError::Input(String::from_str(
                            "Multiple OUTER geometries in SVG",
                        )));
                    }
                }
            },
        }
        k = k + 1;
    }
    proof {
        assert(spec_classify_polylines(polylines@, polylines@.len() as int)
            == spec_classify_rects(
                spec_classify_polylines(polylines@, polylines@.len() as int),
                rects@,
                0,
            ));
    }
    let ghost after_polys = spec_classify_polylines(polylines@, polylines@.len() as int);
    let mut k2: usize = 0;
    while k2 < rects.len()
        invariant
            0 <= k2 <= rects@.len(),
            after_polys == spec_classify_polylines(polylines@, polylines@.len() as int),
            spec_classify_rects(after_polys, rects@, k2 as int).error is None,
            container_views(containers@)
                == spec_classify_rects(after_polys, rects@, k2 as int).containers,
            containers@.len() >= 1,
        decreases rects@.len() - k2,
    {
        let rect = &rects[k2];
        let x_plus_width = match rect.x_plus_width {
            Option::Some(v) => v,
            Option::None => {
                proof {
                    assert(spec_classify_rects(after_polys, rects@, k2 + 1).error is Some);
                    lemma_classify_rects_absorb(after_polys, rects@, k2 + 1, rects@.len() as int);
                }
                return Err(MagnetiteError::Input(String::from_str(
                    "Error in svg file. No width definition in rectangle",
                )));
            },
        };
        let y_plus_height = match rect.y_plus_height {
            Option::Some(v) => v,
            Option::None => {
                proof {
                    assert(spec_classify_rects(after_polys, rects@, k2 + 1).error is Some);
                    lemma_classify_rects_absorb(after_polys, rects@, k2 + 1, rects@.len() as int);
                }
                return Err(MagnetiteError::Input(String::from_str(
                    "Error in svg file. No height definition in rectangle",
                )));
            },
        };
        let mut vertices: Vec<Vertex> = Vec::new();
        vertices.push(Vertex { x: rect.x, y: fp::neg(rect.y) });
        vertices.push(Vertex { x: x_plus_width, y: fp::neg(rect.y) });
        vertices.push(Vertex { x: x_plus_width, y: fp::neg(y_plus_height) });
        vertices.push(Vertex { x: rect.x, y: fp::neg(y_plus_height) });
        proof {
            assert(vertices@ =~= spec_rect_vertices(rect.x, rect.y, x_plus_width, y_plus_height));
        }
        let resolved: &Option<Vec<u8>> = if rect.id.is_some() { &rect.id } else { &rect.parent_id };
        match resolved {
            Option::None => {
                proof {
                    assert(spec_classify_rects(after_polys, rects@, k2 + 1).error is Some);
                    lemma_classify_rects_absorb(after_polys, rects@, k2 + 1, rects@.len() as int);
                }
                return Err(MagnetiteError::Input(String::from_str(
                    "Error in svg file. Missing id field on polyline",
                )));
            },
            Option::Some(raw_id) => {
                let trimmed = trim_bytes(raw_id);
                let inner = marker_inner();
                let outer = marker_outer();
                let ghost pre = containers@;
                if starts_with_bytes(&trimmed, &inner) {
                    containers.push(vertices);
                    proof {
                        assert(container_views(containers@)
                            =~= container_views(pre).push(vertices@));
                    }
                } else if starts_with_bytes(&trimmed, &outer) {
                    if containers[0].len() == 0 {
                        containers.set(0, vertices);
                        proof {
                            assert(container_views(containers@)
                                =~= container_views(pre).update(0, vertices@));
                        }
                    } else {
                        proof {
                            assert(spec_classify_rects(after_polys, rects@, k2 + 1).error is Some);
                            lemma_classify_rects_absorb(after_polys, rects@, k2 + 1, rects@.len() as int);
                        }
                        return Err(MagnetiteError::Input(String::from_str(
                            "Multiple OUTER geometries in SVG",
                        )));
                    }
                }
            },
        }
        k2 = k2 + 1;
    }
    if containers[0].len() == 0 {
        return Err(MagnetiteError::Input(String::from_str("No OUTER geometry")));
    }
    Ok(containers)
}

} // verus!

verus! {

/// The tokens of a comma-separated line, each trimmed.
pub open spec fn spec_trimmed_tokens(line: Seq<u8>) -> Seq<Seq<u8>> {
    spec_split(line, 44).map_values(|t: Seq<u8>| spec_trim(t))
}

/// The position of the first token equal to `tok`.
pub open spec fn spec_first_index(ts: Seq<Seq<u8>>, tok: Seq<u8>) -> Option<int>
    decreases ts.len(),
{
    if ts.len() == 0 {
        Option::None
    } else if ts.first() == tok {
        Option::Some(0)
    } else {
        match spec_first_index(ts.drop_first(), tok) {
            Option::None => Option::None,
            Option::Some(k) => Option::Some(k + 1),
        }
    }
}

/// A forward scan finds the first occurrence.
proof fn lemma_first_index(ts: Seq<Seq<u8>>, tok: Seq<u8>, i: int)
    requires
        0 <= i <= ts.len(),
        forall|j: int| 0 <= j < i ==> #[trigger] ts[j] != tok,
        i < ts.len() ==> ts[i] == tok,
    ensures
        i < ts.len() ==> spec_first_index(ts, tok) == Option::Some(i),
        i == ts.len() ==> spec_first_index(ts, tok) is None,
    decreases ts.len(),
{
    if ts.len() > 0 {
        if ts.first() == tok {
            assert(i == 0);
        } else {
            assert(forall|j: int| 0 <= j < i - 1 ==> ts.drop_first()[j] == ts[j + 1]);
            if i == 0 {
                assert(ts[0] == tok);
                assert(false);
            } else {
                lemma_first_index(ts.drop_first(), tok, i - 1);
            }
        }
    }
}

/// The CSV reader's state: the coordinate column positions once the header
/// is seen, and the `(x, y)` token pairs of the rows so far.
pub struct CsvAbs {
    pub header: Option<(usize, usize)>,
    pub rows: Seq<(Seq<u8>, Seq<u8>)>,
    pub error: Option<Seq<char>>,
}

/// One CSV line: blank lines are skipped; the first other line is the
/// header and must name the `x` and `y` columns; every later line must
/// reach both columns and contributes its `(x, y)` tokens.
pub open spec fn spec_csv_step(st: CsvAbs, line: Seq<u8>) -> CsvAbs {
    if st.error is Some {
        st
    } else if line.len() == 0 {
        st
    } else {
        let ts = spec_trimmed_tokens(line);
        match st.header {
            Option::None => {
                let xi = spec_first_index(ts, seq![120u8]);
                let yi = spec_first_index(ts, seq![121u8]);
                if xi is Some && yi is Some {
                    CsvAbs {
                        header: Option::Some((xi.unwrap() as usize, yi.unwrap() as usize)),
                        ..st
                    }
                } else {
                    CsvAbs {
                        error: Option::Some("Error in csv file: Missing x and/or y field"@),
                        ..st
                    }
                }
            },
            Option::Some(cols) => {
                if cols.0 >= ts.len() || cols.1 >= ts.len() {
                    CsvAbs {
                        error: Option::Some(
                            "Error in csv file: Row is missing coordinate fields"@,
                        ),
                        ..st
                    }
                } else {
                    CsvAbs { rows: st.rows.push((ts[cols.0 as int], ts[cols.1 as int])), ..st }
                }
            },
        }
    }
}

/// The CSV reader's state after the first `k` lines.
pub open spec fn spec_csv_scan(lines: Seq<Seq<u8>>, k: int) -> CsvAbs
    decreases k,
{
    if k <= 0 {
        CsvAbs { header: Option::None, rows: Seq::empty(), error: Option::None }
    } else {
        spec_csv_step(spec_csv_scan(lines, k - 1), lines[k - 1])
    }
}

/// Once the CSV reader fails, later lines change nothing.
proof fn lemma_csv_scan_absorb(lines: Seq<Seq<u8>>, k: int, m: int)
    requires
        0 <= k <= m,
        spec_csv_scan(lines, k).error is Some,
    ensures
        spec_csv_scan(lines, m) == spec_csv_scan(lines, k),
    decreases m - k,
{
    if k < m {
        lemma_csv_scan_absorb(lines, k, m - 1);
    }
}

/// Whether two byte vectors hold the same bytes.
fn bytes_eq(a: &Vec<u8>, b: &Vec<u8>) -> (r: bool)
    ensures
        r == (a@ == b@),
{
    if a.len() != b.len() {
        return false;
    }
    let mut i: usize = 0;
    while i < a.len()
        invariant
            a@.len() == b@.len(),
            0 <= i <= a@.len(),
            forall|j: int| 0 <= j < i ==> a@[j] == b@[j],
        decreases a@.len() - i,
    {
        if a[i] != b[i] {
            return false;
        }
        i = i + 1;
    }
    proof {
        assert(a@ =~= b@);
    }
    true
}

/// Splits a comma-separated line and trims each token.
fn trimmed_tokens(line: &Vec<u8>) -> (r: Vec<Vec<u8>>)
    ensures
        views_of(r@) == spec_trimmed_tokens(line@),
{
    let raw = split_bytes(line, 44);
    let mut r: Vec<Vec<u8>> = Vec::new();
    let mut i: usize = 0;
    while i < raw.len()
        invariant
            0 <= i <= raw@.len(),
            raw@.len() == spec_split(line@, 44).len(),
            forall|j: int| 0 <= j < raw@.len()
                ==> #[trigger] raw@[j]@ == spec_split(line@, 44)[j],
            r@.len() == i,
            forall|j: int| 0 <= j < i ==> #[trigger] r@[j]@ == spec_trim(spec_split(line@, 44)[j]),
        decreases raw@.len() - i,
    {
        let t = trim_bytes(&raw[i]);
        r.push(t);
        i = i + 1;
    }
    proof {
        assert(views_of(r@) =~= spec_trimmed_tokens(line@));
    }
    r
}

/// Finds the first token equal to `tok`.
fn first_index(ts: &Vec<Vec<u8>>, tok: &Vec<u8>) -> (r: Option<usize>)
    ensures
        match r {
            Option::Some(i) => spec_first_index(views_of(ts@), tok@) == Option::Some(i as int),
            Option::None => spec_first_index(views_of(ts@), tok@) is None,
        },
{
    let mut i: usize = 0;
    while i < ts.len()
        invariant
            0 <= i <= ts@.len(),
            forall|j: int| 0 <= j < i ==> #[trigger] ts@[j]@ != tok@,
        decreases ts@.len() - i,
    {
        if bytes_eq(&ts[i], tok) {
            proof {
                assert(views_of(ts@)[i as int] == tok@);
                assert(forall|j: int| 0 <= j < i ==> #[trigger] views_of(ts@)[j] != tok@);
                lemma_first_index(views_of(ts@), tok@, i as int);
            }
            return Option::Some(i);
        }
        i = i + 1;
    }
    proof {
        assert(forall|j: int| 0 <= j < ts@.len() ==> #[trigger] views_of(ts@)[j] != tok@);
        lemma_first_index(views_of(ts@), tok@, ts@.len() as int);
    }
    Option::None
}

/// Reads polyline vertices out of CSV text: the header names the `x` and
/// `y` columns, and every following row contributes the raw text of its
/// two coordinates, in row order.  The coordinate text is floating-point
/// and is parsed by the caller.
pub fn parse_csv(contents: &Vec<u8>) -> (r: Result<Vec<(Vec<u8>, Vec<u8>)>, MagnetiteError>)
    ensures
        ({
            let st = spec_csv_scan(spec_split(contents@, 10), spec_split(contents@, 10).len() as int);
            match r {
                Ok(rows) => {
                    &&& st.error is None
                    &&& rows@.len() == st.rows.len()
                    &&& forall|i: int| 0 <= i < st.rows.len() ==> {
                        &&& (#[trigger] rows@[i]).0@ == st.rows[i].0
                        &&& rows@[i].1@ == st.rows[i].1
                    }
                },
                Err(e) => {
                    &&& e is Input
                    &&& st.error is Some
                    &&& e.spec_message() == st.error.unwrap()
                },
            }
        }),
{
    let lines = split_bytes(contents, 10);
    let ghost line_views = spec_split(contents@, 10);
    proof {
        assert(views_of(lines@) =~= line_views);
    }
    let mut header: Option<(usize, usize)> = Option::None;
    let mut rows: Vec<(Vec<u8>, Vec<u8>)> = Vec::new();
    let mut k: usize = 0;
    while k < lines.len()
        invariant
            line_views == spec_split(contents@, 10),
            0 <= k <= lines@.len(),
            lines@.len() == line_views.len(),
            forall|j: int| 0 <= j < lines@.len() ==> #[trigger] lines@[j]@ == line_views[j],
            spec_csv_scan(line_views, k as int).error is None,
            header == spec_csv_scan(line_views, k as int).header,
            rows@.len() == spec_csv_scan(line_views, k as int).rows.len(),
            forall|i: int| 0 <= i < rows@.len() ==> {
                &&& (#[trigger] rows@[i]).0@ == spec_csv_scan(line_views, k as int).rows[i].0
                &&& rows@[i].1@ == spec_csv_scan(line_views, k as int).rows[i].1
            },
        decreases lines@.len() - k,
    {
        let line = &lines[k];
        if line.len() == 0 {
            k = k + 1;
            continue;
        }
        let ts = trimmed_tokens(line);
        match header {
            Option::None => {
                let mut x_tok: Vec<u8> = Vec::new();
                x_tok.push(120);
                let mut y_tok: Vec<u8> = Vec::new();
                y_tok.push(121);
                proof {
                    assert(x_tok@ =~= seq![120u8]);
                    assert(y_tok@ =~= seq![121u8]);
                }
                let xi = first_index(&ts, &x_tok);
                let yi = first_index(&ts, &y_tok);
                match (xi, yi) {
                    (Option::Some(a), Option::Some(b)) => {
                        header = Option::Some((a, b));
                    },
                    _ => {
                        proof {
                            assert(spec_csv_scan(line_views, k + 1).error is Some);
                            lemma_csv_scan_absorb(line_views, k + 1, line_views.len() as int);
                        }
                        return Err(MagnetiteError::Input(String::from_str(
                            "Error in csv file: Missing x and/or y field",
                        )));
                    },
                }
            },
            Option::Some((a, b)) => {
                if a >= ts.len() || b >= ts.len() {
                    proof {
                        assert(spec_csv_scan(line_views, k + 1).error is Some);
                        lemma_csv_scan_absorb(line_views, k + 1, line_views.len() as int);
                    }
                    return Err(MagnetiteError::Input(String::from_str(
                        "Error in csv file: Row is missing coordinate fields",
                    )));
                }
                let mut x_text: Vec<u8> = Vec::new();
                crate::text::push_all(&mut x_text, &ts[a]);
                let mut y_text: Vec<u8> = Vec::new();
                crate::text::push_all(&mut y_text, &ts[b]);
                proof {
                    assert(x_text@ =~= views_of(ts@)[a as int]);
                    assert(y_text@ =~= views_of(ts@)[b as int]);
                }
                rows.push((x_text, y_text));
            },
        }
        k = k + 1;
    }
    proof {
        assert(spec_csv_scan(line_views, line_views.len() as int)
            == spec_csv_scan(line_views, lines@.len() as int));
    }
    Ok(rows)
}

} // verus!
