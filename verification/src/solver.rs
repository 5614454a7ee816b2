//! The structural half of the solve: flattening nodal quantities into DOF
//! vectors, partitioning DOFs into prescribed and free sets, gathering the
//! sub-matrices the reduced system needs, scattering the solution back, and
//! the degenerate-element check.
//!
//! Matrix and vector entries are binary64 bit patterns; all floating-point
//! arithmetic (the products, sums and the conjugate-gradient iteration
//! itself) is done by the caller on the gathered data.

use vstd::prelude::*;
use vstd::string::StringExecFns;
use crate::datatypes::{Element, Node};
use crate::error::MagnetiteError;
use crate::fp;
use crate::text;

verus! {

/// Degrees of freedom per node: one per axis.
pub const DOF: usize = 2;

/// The indices of the absent entries, in ascending order.
pub open spec fn none_indices(s: Seq<Option<u64>>) -> Seq<usize>
    decreases s.len(),
{
    if s.len() == 0 {
        Seq::empty()
    } else if s.last() is None {
        none_indices(s.drop_last()).push((s.len() - 1) as usize)
    } else {
        none_indices(s.drop_last())
    }
}

/// The indices of the present entries, in ascending order.
pub open spec fn some_indices(s: Seq<Option<u64>>) -> Seq<usize>
    decreases s.len(),
{
    if s.len() == 0 {
        Seq::empty()
    } else if s.last() is Some {
        some_indices(s.drop_last()).push((s.len() - 1) as usize)
    } else {
        some_indices(s.drop_last())
    }
}

/// The present values, in ascending index order.
pub open spec fn some_values(s: Seq<Option<u64>>) -> Seq<u64>
    decreases s.len(),
{
    if s.len() == 0 {
        Seq::empty()
    } else if s.last() is Some {
        some_values(s.drop_last()).push(s.last().unwrap())
    } else {
        some_values(s.drop_last())
    }
}

/// What `none_indices` lists: exactly the positions holding `None`, in
/// strictly ascending order.
pub proof fn lemma_none_indices(s: Seq<Option<u64>>)
    requires
        s.len() <= usize::MAX,
    ensures
        forall|j: int| 0 <= j < none_indices(s).len()
            ==> #[trigger] none_indices(s)[j] < s.len() && s[none_indices(s)[j] as int] is None,
        forall|j: int, k: int| 0 <= j < k < none_indices(s).len()
            ==> #[trigger] none_indices(s)[j] < #[trigger] none_indices(s)[k],
        forall|i: int| 0 <= i < s.len() && s[i] is None
            ==> exists|j: int| 0 <= j < none_indices(s).len() && #[trigger] none_indices(s)[j] == i,
    decreases s.len(),
{
    if s.len() > 0 {
        lemma_none_indices(s.drop_last());
        assert(forall|i: int| 0 <= i < s.len() - 1 ==> s.drop_last()[i] == s[i]);
        if s.last() is None {
            assert(forall|i: int| 0 <= i < s.len() && s[i] is None ==> {
                let ni = none_indices(s);
                exists|j: int| 0 <= j < ni.len() && #[trigger] ni[j] == i
            }) by {
                let ni = none_indices(s);
                assert(ni.last() == s.len() - 1);
                assert forall|i: int| 0 <= i < s.len() && s[i] is None
                    implies exists|j: int| 0 <= j < ni.len() && #[trigger] ni[j] == i by {
                    if i < s.len() - 1 {
                        let nd = none_indices(s.drop_last());
                        let j = choose|j: int| 0 <= j < nd.len() && #[trigger] nd[j] == i;
                        assert(ni[j] == i);
                    } else {
                        assert(ni[ni.len() - 1] == i);
                    }
                }
            }
        } else {
            assert forall|i: int| 0 <= i < s.len() && s[i] is None
                implies exists|j: int| 0 <= j < none_indices(s).len()
                    && #[trigger] none_indices(s)[j] == i by {
                let nd = none_indices(s.drop_last());
                let j = choose|j: int| 0 <= j < nd.len() && #[trigger] nd[j] == i;
                assert(none_indices(s)[j] == i);
            }
        }
    }
}

/// What `some_indices` lists: exactly the positions holding `Some`, in
/// strictly ascending order; and `some_values` holds their values.
pub proof fn lemma_some_indices(s: Seq<Option<u64>>)
    requires
        s.len() <= usize::MAX,
    ensures
        some_values(s).len() == some_indices(s).len(),
        forall|j: int| 0 <= j < some_indices(s).len()
            ==> #[trigger] some_indices(s)[j] < s.len()
                && s[some_indices(s)[j] as int] is Some
                && some_values(s)[j] == s[some_indices(s)[j] as int].unwrap(),
        forall|j: int, k: int| 0 <= j < k < some_indices(s).len()
            ==> #[trigger] some_indices(s)[j] < #[trigger] some_indices(s)[k],
        forall|i: int| 0 <= i < s.len() && s[i] is Some
            ==> exists|j: int| 0 <= j < some_indices(s).len() && #[trigger] some_indices(s)[j] == i,
    decreases s.len(),
{
    if s.len() > 0 {
        lemma_some_indices(s.drop_last());
        assert(forall|i: int| 0 <= i < s.len() - 1 ==> s.drop_last()[i] == s[i]);
        if s.last() is Some {
            let si = some_indices(s);
            assert(si.last() == s.len() - 1);
            assert forall|i: int| 0 <= i < s.len() && s[i] is Some
                implies exists|j: int| 0 <= j < si.len() && #[trigger] si[j] == i by {
                if i < s.len() - 1 {
                    let sd = some_indices(s.drop_last());
                    let j = choose|j: int| 0 <= j < sd.len() && #[trigger] sd[j] == i;
                    assert(si[j] == i);
                } else {
                    assert(si[si.len() - 1] == i);
                }
            }
        } else {
            assert forall|i: int| 0 <= i < s.len() && s[i] is Some
                implies exists|j: int| 0 <= j < some_indices(s).len()
                    && #[trigger] some_indices(s)[j] == i by {
                let sd = some_indices(s.drop_last());
                let j = choose|j: int| 0 <= j < sd.len() && #[trigger] sd[j] == i;
                assert(some_indices(s)[j] == i);
            }
        }
    }
}

/// Together the two index lists cover every position once.
pub proof fn lemma_partition_sizes(s: Seq<Option<u64>>)
    ensures
        none_indices(s).len() + some_indices(s).len() == s.len(),
    decreases s.len(),
{
    if s.len() > 0 {
        lemma_partition_sizes(s.drop_last());
    }
}

/// A prefix never lists more absent entries than the whole.
pub proof fn lemma_none_prefix_len(s: Seq<Option<u64>>, i: int)
    requires
        0 <= i <= s.len(),
    ensures
        none_indices(s.take(i)).len() <= none_indices(s).len(),
    decreases s.len() - i,
{
    if i < s.len() {
        assert(s.take(i + 1).drop_last() =~= s.take(i));
        lemma_none_prefix_len(s, i + 1);
    } else {
        assert(s.take(i) =~= s);
    }
}

/// Flattens the nodes into the force and displacement DOF vectors: entry
/// `2 i` is node `i`'s x quantity and entry `2 i + 1` its y quantity.
pub fn build_col_vecs(nodes: &Vec<Node>) -> (r: (Vec<Option<u64>>, Vec<Option<u64>>))
    requires
        nodes@.len() * 2 <= usize::MAX,
    ensures
        r.0@.len() == 2 * nodes@.len(),
        r.1@.len() == 2 * nodes@.len(),
        forall|i: int| 0 <= i < nodes@.len() ==> {
            &&& r.0@[2 * i] == #[trigger] nodes@[i].fx
            &&& r.0@[2 * i + 1] == nodes@[i].fy
            &&& r.1@[2 * i] == nodes@[i].ux
            &&& r.1@[2 * i + 1] == nodes@[i].uy
        },
{
    let mut nodal_forces: Vec<Option<u64>> = Vec::new();
    let mut nodal_displacements: Vec<Option<u64>> = Vec::new();
    let mut i: usize = 0;
    while i < nodes.len()
        invariant
            nodes@.len() * 2 <= usize::MAX,
            0 <= i <= nodes@.len(),
            nodal_forces@.len() == 2 * i,
            nodal_displacements@.len() == 2 * i,
            forall|k: int| 0 <= k < i ==> {
                &&& nodal_forces@[2 * k] == #[trigger] nodes@[k].fx
                &&& nodal_forces@[2 * k + 1] == nodes@[k].fy
                &&& nodal_displacements@[2 * k] == nodes@[k].ux
                &&& nodal_displacements@[2 * k + 1] == nodes@[k].uy
            },
        decreases nodes@.len() - i,
    {
        nodal_forces.push(nodes[i].fx);
        nodal_forces.push(nodes[i].fy);
        nodal_displacements.push(nodes[i].ux);
        nodal_displacements.push(nodes[i].uy);
        i = i + 1;
    }
    (nodal_forces, nodal_displacements)
}

/// Lists the DOF indices whose entry is absent, in ascending order.
pub fn collect_none_indices(s: &Vec<Option<u64>>) -> (r: Vec<usize>)
    ensures
        r@ == none_indices(s@),
{
    let mut r: Vec<usize> = Vec::new();
    let mut i: usize = 0;
    while i < s.len()
        invariant
            0 <= i <= s@.len(),
            r@ == none_indices(s@.take(i as int)),
        decreases s@.len() - i,
    {
        proof {
            assert(s@.take(i + 1).drop_last() =~= s@.take(i as int));
            assert(s@.take(i + 1).last() == s@[i as int]);
        }
        if s[i].is_none() {
            r.push(i);
        }
        i = i + 1;
    }
    proof {
        assert(s@.take(s@.len() as int) =~= s@);
    }
    r
}

/// Collects the present values, in ascending index order.
pub fn collect_some_values(s: &Vec<Option<u64>>) -> (r: Vec<u64>)
    ensures
        r@ == some_values(s@),
{
    let mut r: Vec<u64> = Vec::new();
    let mut i: usize = 0;
    while i < s.len()
        invariant
            0 <= i <= s@.len(),
            r@ == some_values(s@.take(i as int)),
        decreases s@.len() - i,
    {
        proof {
            assert(s@.take(i + 1).drop_last() =~= s@.take(i as int));
            assert(s@.take(i + 1).last() == s@[i as int]);
        }
        match s[i] {
            Some(v) => r.push(v),
            None => (),
        }
        i = i + 1;
    }
    proof {
        assert(s@.take(s@.len() as int) =~= s@);
    }
    r
}

/// A square matrix of binary64 bit patterns, stored by rows.
pub open spec fn matrix_wf(k: Seq<Vec<u64>>, n: nat) -> bool {
    k.len() == n && forall|r: int| 0 <= r < k.len() ==> #[trigger] k[r]@.len() == n
}

/// Splits the global stiffness matrix by the DOF partition.  Rows are the
/// DOFs with a known force (under the pre-solve invariant: exactly the DOFs
/// with an unknown displacement); `unknown` takes the columns with unknown
/// displacement and `known` the columns with prescribed displacement.
/// Unlike its floating-point counterpart, `known` holds the bare stiffness
/// entries: multiplying by the prescribed displacements and negating is
/// floating-point work and sits with the caller.
pub fn build_known_unknown_matrices(
    nodal_forces: &Vec<Option<u64>>,
    nodal_displacements: &Vec<Option<u64>>,
    total_stiffness_matrix: &Vec<Vec<u64>>,
) -> (r: (Vec<Vec<u64>>, Vec<Vec<u64>>))
    requires
        nodal_forces@.len() == nodal_displacements@.len(),
        matrix_wf(total_stiffness_matrix@, nodal_displacements@.len() as nat),
        forall|i: int| 0 <= i < nodal_forces@.len()
            ==> (#[trigger] nodal_forces@[i] is Some <==> nodal_displacements@[i] is None),
    ensures
        ({
            let rows = some_indices(nodal_forces@);
            let unknown_cols = none_indices(nodal_displacements@);
            let known_cols = some_indices(nodal_displacements@);
            &&& r.0@.len() == rows.len()
            &&& r.1@.len() == rows.len()
            &&& forall|a: int| 0 <= a < rows.len() ==> #[trigger] r.0@[a]@.len() == known_cols.len()
            &&& forall|a: int| 0 <= a < rows.len() ==> #[trigger] r.1@[a]@.len() == unknown_cols.len()
            &&& forall|a: int, b: int| 0 <= a < rows.len() && 0 <= b < known_cols.len()
                ==> #[trigger] r.0@[a]@[b]
                    == total_stiffness_matrix@[rows[a] as int]@[known_cols[b] as int]
            &&& forall|a: int, b: int| 0 <= a < rows.len() && 0 <= b < unknown_cols.len()
                ==> #[trigger] r.1@[a]@[b]
                    == total_stiffness_matrix@[rows[a] as int]@[unknown_cols[b] as int]
        }),
{
    let forces_len = nodal_forces.len();
    let displacements_len = nodal_displacements.len();
    let rows = collect_some_indices(nodal_forces);
    let unknown_cols = collect_none_indices(nodal_displacements);
    let known_cols = collect_some_indices(nodal_displacements);
    proof {
        assert(nodal_forces@.len() == forces_len);
        assert(nodal_displacements@.len() == displacements_len);
        lemma_some_indices(nodal_forces@);
        lemma_none_indices(nodal_displacements@);
        lemma_some_indices(nodal_displacements@);
    }
    let mut known_matrix: Vec<Vec<u64>> = Vec::new();
    let mut unknown_matrix: Vec<Vec<u64>> = Vec::new();
    let mut a: usize = 0;
    while a < rows.len()
        invariant
            rows@ == some_indices(nodal_forces@),
            unknown_cols@ == none_indices(nodal_displacements@),
            known_cols@ == some_indices(nodal_displacements@),
            nodal_forces@.len() == nodal_displacements@.len(),
            matrix_wf(total_stiffness_matrix@, nodal_displacements@.len() as nat),
            forall|j: int| 0 <= j < rows@.len()
                ==> #[trigger] rows@[j] < nodal_forces@.len(),
            forall|j: int| 0 <= j < unknown_cols@.len()
                ==> #[trigger] unknown_cols@[j] < nodal_displacements@.len(),
            forall|j: int| 0 <= j < known_cols@.len()
                ==> #[trigger] known_cols@[j] < nodal_displacements@.len(),
            0 <= a <= rows@.len(),
            known_matrix@.len() == a,
            unknown_matrix@.len() == a,
            forall|x: int| 0 <= x < a ==> #[trigger] known_matrix@[x]@.len() == known_cols@.len(),
            forall|x: int| 0 <= x < a ==> #[trigger] unknown_matrix@[x]@.len() == unknown_cols@.len(),
            forall|x: int, b: int| 0 <= x < a && 0 <= b < known_cols@.len()
                ==> #[trigger] known_matrix@[x]@[b]
                    == total_stiffness_matrix@[rows@[x] as int]@[known_cols@[b] as int],
            forall|x: int, b: int| 0 <= x < a && 0 <= b < unknown_cols@.len()
                ==> #[trigger] unknown_matrix@[x]@[b]
                    == total_stiffness_matrix@[rows@[x] as int]@[unknown_cols@[b] as int],
        decreases rows@.len() - a,
    {
        let row = rows[a];
        let source = &total_stiffness_matrix[row];
        let known_row = gather_entries(source, &known_cols);
        let unknown_row = gather_entries(source, &unknown_cols);
        known_matrix.push(known_row);
        unknown_matrix.push(unknown_row);
        a = a + 1;
    }
    (known_matrix, unknown_matrix)
}

/// Lists the DOF indices whose entry is present, in ascending order.
pub fn collect_some_indices(s: &Vec<Option<u64>>) -> (r: Vec<usize>)
    ensures
        r@ == some_indices(s@),
{
    let mut r: Vec<usize> = Vec::new();
    let mut i: usize = 0;
    while i < s.len()
        invariant
            0 <= i <= s@.len(),
            r@ == some_indices(s@.take(i as int)),
        decreases s@.len() - i,
    {
        proof {
            assert(s@.take(i + 1).drop_last() =~= s@.take(i as int));
            assert(s@.take(i + 1).last() == s@[i as int]);
        }
        if s[i].is_some() {
            r.push(i);
        }
        i = i + 1;
    }
    proof {
        assert(s@.take(s@.len() as int) =~= s@);
    }
    r
}

/// Gathers the entries of one row at the given column indices.
fn gather_entries(row: &Vec<u64>, cols: &Vec<usize>) -> (r: Vec<u64>)
    requires
        forall|j: int| 0 <= j < cols@.len() ==> #[trigger] cols@[j] < row@.len(),
    ensures
        r@.len() == cols@.len(),
        forall|j: int| 0 <= j < cols@.len() ==> #[trigger] r@[j] == row@[cols@[j] as int],
{
    let mut r: Vec<u64> = Vec::new();
    let mut j: usize = 0;
    while j < cols.len()
        invariant
            forall|x: int| 0 <= x < cols@.len() ==> #[trigger] cols@[x] < row@.len(),
            0 <= j <= cols@.len(),
            r@.len() == j,
            forall|x: int| 0 <= x < j ==> #[trigger] r@[x] == row@[cols@[x] as int],
        decreases cols@.len() - j,
    {
        r.push(row[cols[j]]);
        j = j + 1;
    }
    r
}

/// Fills the absent entries, in ascending index order, with the given
/// values; present entries are untouched.  Afterwards every entry is
/// present.
pub fn fill_missing(v: &mut Vec<Option<u64>>, vals: &Vec<u64>)
    requires
        vals@.len() == none_indices(old(v)@).len(),
    ensures
        final(v)@.len() == old(v)@.len(),
        forall|i: int| 0 <= i < old(v)@.len() && old(v)@[i] is Some
            ==> #[trigger] final(v)@[i] == old(v)@[i],
        forall|j: int| 0 <= j < none_indices(old(v)@).len()
            ==> #[trigger] final(v)@[none_indices(old(v)@)[j] as int] == Some(vals@[j]),
        forall|i: int| 0 <= i < final(v)@.len() ==> #[trigger] final(v)@[i] is Some,
{
    let ghost orig = v@;
    let n = v.len();
    let vals_len = vals.len();
    proof {
        lemma_none_indices(orig);
    }
    let mut i: usize = 0;
    let mut c: usize = 0;
    while i < n
        invariant
            n == orig.len(),
            vals_len == vals@.len(),
            vals@.len() == none_indices(orig).len(),
            v@.len() == orig.len(),
            0 <= i <= orig.len(),
            c == none_indices(orig.take(i as int)).len(),
            c <= vals@.len(),
            forall|k: int| i <= k < orig.len() ==> #[trigger] v@[k] == orig[k],
            forall|k: int| 0 <= k < i && orig[k] is Some ==> #[trigger] v@[k] == orig[k],
            forall|j: int| 0 <= j < none_indices(orig.take(i as int)).len()
                ==> #[trigger] v@[none_indices(orig.take(i as int))[j] as int] == Some(vals@[j]),
            forall|k: int| 0 <= k < i ==> #[trigger] v@[k] is Some,
        decreases orig.len() - i,
    {
        proof {
            assert(orig.take(i + 1).drop_last() =~= orig.take(i as int));
            assert(orig.take(i + 1).last() == orig[i as int]);
            lemma_none_prefix_len(orig, i + 1);
            lemma_none_indices(orig.take(i as int));
            lemma_none_indices(orig.take(i + 1));
        }
        if v[i].is_none() {
            proof {
                assert(none_indices(orig.take(i + 1)).len() == c + 1);
                assert(c + 1 <= vals@.len());
            }
            v.set(i, Some(vals[c]));
            c = c + 1;
        }
        i = i + 1;
    }
    proof {
        assert(orig.take(orig.len() as int) =~= orig);
    }
}

/// Writes the fully known displacement and force DOF vectors back onto the
/// nodes; positions are untouched.
pub fn load_results(nodes: &mut Vec<Node>, displacements: &Vec<u64>, forces: &Vec<u64>)
    requires
        displacements@.len() == 2 * old(nodes)@.len(),
        forces@.len() == 2 * old(nodes)@.len(),
    ensures
        final(nodes)@.len() == old(nodes)@.len(),
        forall|i: int| 0 <= i < old(nodes)@.len() ==> {
            &&& (#[trigger] final(nodes)@[i]).vertex == old(nodes)@[i].vertex
            &&& final(nodes)@[i].ux == Some(displacements@[2 * i])
            &&& final(nodes)@[i].uy == Some(displacements@[2 * i + 1])
            &&& final(nodes)@[i].fx == Some(forces@[2 * i])
            &&& final(nodes)@[i].fy == Some(forces@[2 * i + 1])
        },
{
    let n = nodes.len();
    let displacements_len = displacements.len();
    let forces_len = forces.len();
    let mut i: usize = 0;
    while i < n
        invariant
            n == old(nodes)@.len(),
            nodes@.len() == n,
            displacements@.len() == 2 * n,
            forces@.len() == 2 * n,
            displacements_len == 2 * n,
            forces_len == 2 * n,
            0 <= i <= n,
            forall|k: int| i <= k < n ==> #[trigger] nodes@[k] == old(nodes)@[k],
            forall|k: int| 0 <= k < i ==> {
                &&& (#[trigger] nodes@[k]).vertex == old(nodes)@[k].vertex
                &&& nodes@[k].ux == Some(displacements@[2 * k])
                &&& nodes@[k].uy == Some(displacements@[2 * k + 1])
                &&& nodes@[k].fx == Some(forces@[2 * k])
                &&& nodes@[k].fy == Some(forces@[2 * k + 1])
            },
        decreases n - i,
    {
        let mut node = nodes[i];
        node.ux = Some(displacements[2 * i]);
        node.uy = Some(displacements[2 * i + 1]);
        node.fx = Some(forces[2 * i]);
        node.fy = Some(forces[2 * i + 1]);
        nodes.set(i, node);
        i = i + 1;
    }
}

/// Writes the per-element stress magnitudes onto the elements; node indices
/// are untouched.
pub fn load_stresses(elements: &mut Vec<Element>, stresses: &Vec<u64>)
    requires
        stresses@.len() == old(elements)@.len(),
    ensures
        final(elements)@.len() == old(elements)@.len(),
        forall|i: int| 0 <= i < old(elements)@.len() ==> {
            &&& (#[trigger] final(elements)@[i]).nodes == old(elements)@[i].nodes
            &&& final(elements)@[i].stress == Some(stresses@[i])
        },
{
    let n = elements.len();
    let mut i: usize = 0;
    while i < n
        invariant
            n == old(elements)@.len(),
            elements@.len() == n,
            stresses@.len() == n,
            0 <= i <= n,
            forall|k: int| i <= k < n ==> #[trigger] elements@[k] == old(elements)@[k],
            forall|k: int| 0 <= k < i ==> {
                &&& (#[trigger] elements@[k]).nodes == old(elements)@[k].nodes
                &&& elements@[k].stress == Some(stresses@[k])
            },
        decreases n - i,
    {
        let mut element = elements[i];
        element.stress = Some(stresses[i]);
        elements.set(i, element);
        i = i + 1;
    }
}

/// The message reporting a degenerate element.
pub open spec fn degenerate_msg(i: nat) -> Seq<char> {
    "degenerate element "@ + text::spec_decimal_chars(i)
}

/// Checks every element's signed area: an element whose area is not
/// strictly positive is degenerate, and the first one decides the error.
pub fn check_element_areas(areas: &Vec<u64>) -> (r: Result<(), MagnetiteError>)
    ensures
        match r {
            Ok(()) => forall|i: int| 0 <= i < areas@.len() ==> !fp::spec_le_zero(#[trigger] areas@[i]),
            Err(e) => {
                &&& e is Solver
                &&& exists|i: int| 0 <= i < areas@.len()
                    && fp::spec_le_zero(#[trigger] areas@[i])
                    && (forall|j: int| 0 <= j < i ==> !fp::spec_le_zero(#[trigger] areas@[j]))
                    && e.spec_message() == degenerate_msg(i as nat)
            },
        },
{
    let mut i: usize = 0;
    while i < areas.len()
        invariant
            0 <= i <= areas@.len(),
            forall|j: int| 0 <= j < i ==> !fp::spec_le_zero(#[trigger] areas@[j]),
        decreases areas@.len() - i,
    {
        if fp::le_zero(areas[i]) {
            let mut msg = String::from_str("degenerate element ");
            let index_text = text::usize_to_string(i);
            msg.append(index_text.as_str());
            return Err(MagnetiteError::Solver(msg));
        }
        i = i + 1;
    }
    Ok(())
}

} // verus!

verus! {

/// The two partitions agree: under the pre-solve invariant, the DOFs with a
/// known force are exactly the DOFs with an unknown displacement, so the
/// reduced system's rows and columns name the same index set.
pub proof fn lemma_partition_agreement(forces: Seq<Option<u64>>, displacements: Seq<Option<u64>>)
    requires
        forces.len() == displacements.len(),
        forall|i: int| 0 <= i < forces.len()
            ==> (#[trigger] forces[i] is Some <==> displacements[i] is None),
    ensures
        some_indices(forces) == none_indices(displacements),
    decreases forces.len(),
{
    if forces.len() > 0 {
        assert(forall|i: int| 0 <= i < forces.len() - 1 ==> forces.drop_last()[i] == forces[i]);
        assert(forall|i: int| 0 <= i < displacements.len() - 1
            ==> displacements.drop_last()[i] == displacements[i]);
        lemma_partition_agreement(forces.drop_last(), displacements.drop_last());
    }
}

} // verus!
