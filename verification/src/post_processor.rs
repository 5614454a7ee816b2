//! Building the two result files.
//!
//! The library builds the exact bytes of `nodes.csv` and `elements.csv`;
//! writing them out is left to the shell.  Scalar values (coordinates,
//! displacements, stresses) arrive already rendered as text, since decimal
//! rendering of floating-point values is floating-point work; node indices
//! are rendered here.

use vstd::prelude::*;
use crate::datatypes::Element;
use crate::text::{push_all, spec_decimal_bytes, usize_to_bytes};

verus! {

/// One row of `nodes.csv`, with every scalar already rendered.
pub struct NodeCsvRow {
    pub x: Vec<u8>,
    pub y: Vec<u8>,
    pub ux: Vec<u8>,
    pub uy: Vec<u8>,
}

/// The header of `nodes.csv`: `x,y,ux,uy` and a line feed.
pub open spec fn nodes_csv_header() -> Seq<u8> {
    seq![120u8, 44u8, 121u8, 44u8, 117u8, 120u8, 44u8, 117u8, 121u8, 10u8]
}

/// The header of `elements.csv`: `n0,n1,n2,stress` and a line feed.
pub open spec fn elements_csv_header() -> Seq<u8> {
    seq![
        110u8, 48u8, 44u8, 110u8, 49u8, 44u8, 110u8, 50u8, 44u8, 115u8, 116u8, 114u8,
        101u8, 115u8, 115u8, 10u8,
    ]
}

/// One rendered node row: the four fields comma-separated, then a line feed.
pub open spec fn spec_node_row(row: NodeCsvRow) -> Seq<u8> {
    row.x@ + seq![44u8] + row.y@ + seq![44u8] + row.ux@ + seq![44u8] + row.uy@ + seq![10u8]
}

/// The whole `nodes.csv`: the header, then one row per node in order.
pub open spec fn spec_nodes_csv(rows: Seq<NodeCsvRow>) -> Seq<u8>
    decreases rows.len(),
{
    if rows.len() == 0 {
        nodes_csv_header()
    } else {
        spec_nodes_csv(rows.drop_last()) + spec_node_row(rows.last())
    }
}

/// One rendered element row: the three node indices in decimal and the
/// rendered stress, comma-separated, then a line feed.
pub open spec fn spec_element_row(element: Element, stress: Seq<u8>) -> Seq<u8> {
    spec_decimal_bytes(element.nodes[0] as nat) + seq![44u8]
        + spec_decimal_bytes(element.nodes[1] as nat) + seq![44u8]
        + spec_decimal_bytes(element.nodes[2] as nat) + seq![44u8]
        + stress + seq![10u8]
}

/// The whole `elements.csv`: the header, then one row per element in order.
pub open spec fn spec_elements_csv(elements: Seq<Element>, stresses: Seq<Seq<u8>>) -> Seq<u8>
    decreases elements.len(),
{
    if elements.len() == 0 {
        elements_csv_header()
    } else {
        spec_elements_csv(elements.drop_last(), stresses.drop_last())
            + spec_element_row(elements.last(), stresses.last())
    }
}

fn push_comma(dst: &mut Vec<u8>)
    ensures
        final(dst)@ == old(dst)@ + seq![44u8],
{
    dst.push(44);
    proof {
        assert(dst@ =~= old(dst)@ + seq![44u8]);
    }
}

fn push_newline(dst: &mut Vec<u8>)
    ensures
        final(dst)@ == old(dst)@ + seq![10u8],
{
    dst.push(10);
    proof {
        assert(dst@ =~= old(dst)@ + seq![10u8]);
    }
}

/// Builds the bytes of `nodes.csv` from the rendered rows.
pub fn nodes_csv(rows: &Vec<NodeCsvRow>) -> (r: Vec<u8>)
    ensures
        r@ == spec_nodes_csv(rows@),
{
    let mut out: Vec<u8> = Vec::new();
    out.push(120); out.push(44); out.push(121); out.push(44); out.push(117);
    out.push(120); out.push(44); out.push(117); out.push(121); out.push(10);
    proof {
        assert(out@ =~= nodes_csv_header());
        assert(rows@.take(0) =~= Seq::<NodeCsvRow>::empty());
    }
    let mut i: usize = 0;
    while i < rows.len()
        invariant
            0 <= i <= rows@.len(),
            out@ == spec_nodes_csv(rows@.take(i as int)),
        decreases rows@.len() - i,
    {
        proof {
            assert(rows@.take(i + 1).drop_last() =~= rows@.take(i as int));
            assert(rows@.take(i + 1).last() == rows@[i as int]);
        }
        push_all(&mut out, &rows[i].x);
        push_comma(&mut out);
        push_all(&mut out, &rows[i].y);
        push_comma(&mut out);
        push_all(&mut out, &rows[i].ux);
        push_comma(&mut out);
        push_all(&mut out, &rows[i].uy);
        push_newline(&mut out);
        proof {
            assert(out@ =~= spec_nodes_csv(rows@.take(i as int)) + spec_node_row(rows@[i as int]));
        }
        i = i + 1;
    }
    proof {
        assert(rows@.take(rows@.len() as int) =~= rows@);
    }
    out
}

/// Builds the bytes of `elements.csv` from the elements and their rendered
/// stress values.
pub fn elements_csv(elements: &Vec<Element>, stresses: &Vec<Vec<u8>>) -> (r: Vec<u8>)
    requires
        stresses@.len() == elements@.len(),
    ensures
        r@ == spec_elements_csv(elements@, crate::text::views_of(stresses@)),
{
    let ghost stress_views = crate::text::views_of(stresses@);
    let mut out: Vec<u8> = Vec::new();
    out.push(110); out.push(48); out.push(44); out.push(110); out.push(49);
    out.push(44); out.push(110); out.push(50); out.push(44); out.push(115);
    out.push(116); out.push(114); out.push(101); out.push(115); out.push(115);
    out.push(10);
    proof {
        assert(out@ =~= elements_csv_header());
        assert(elements@.take(0) =~= Seq::<Element>::empty());
    }
    let mut i: usize = 0;
    while i < elements.len()
        invariant
            0 <= i <= elements@.len(),
            stresses@.len() == elements@.len(),
            stress_views == crate::text::views_of(stresses@),
            out@ == spec_elements_csv(elements@.take(i as int), stress_views.take(i as int)),
        decreases elements@.len() - i,
    {
        proof {
            assert(elements@.take(i + 1).drop_last() =~= elements@.take(i as int));
            assert(stress_views.take(i + 1).drop_last() =~= stress_views.take(i as int));
            assert(elements@.take(i + 1).last() == elements@[i as int]);
            assert(stress_views.take(i + 1).last() == stresses@[i as int]@);
        }
        let n0 = usize_to_bytes(elements[i].nodes[0]);
        let n1 = usize_to_bytes(elements[i].nodes[1]);
        let n2 = usize_to_bytes(elements[i].nodes[2]);
        push_all(&mut out, &n0);
        push_comma(&mut out);
        push_all(&mut out, &n1);
        push_comma(&mut out);
        push_all(&mut out, &n2);
        push_comma(&mut out);
        push_all(&mut out, &stresses[i]);
        push_newline(&mut out);
        proof {
            assert(out@ =~= spec_elements_csv(elements@.take(i as int), stress_views.take(i as int))
                + spec_element_row(elements@[i as int], stresses@[i as int]@));
        }
        i = i + 1;
    }
    proof {
        assert(elements@.take(elements@.len() as int) =~= elements@);
        assert(stress_views.take(stress_views.len() as int) =~= stress_views);
    }
    out
}

} // verus!
