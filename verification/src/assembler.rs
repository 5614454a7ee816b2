//! The assembler: scatters every element's 6 by 6 stiffness block into the
//! global 2N by 2N system.
//!
//! The global matrix entries are floating-point sums, so the assembler
//! produces the exact list of contributions instead: one `(row, col, value)`
//! triple for every element, local slot pair and axis pair, in ascending
//! element order with a fixed order inside each element.  Folding the list
//! into a dense matrix with `+=` is a floating-point fold and sits with the
//! caller; the deterministic order fixes the reference summation order.

use vstd::prelude::*;
use crate::datatypes::{Element, element_indices_valid};

verus! {

/// One scattered stiffness contribution: global row, global column, value
/// (a binary64 bit pattern).
pub type Contribution = (usize, usize, u64);

/// A 6 by 6 element stiffness block.
pub open spec fn ke_wf(ke: Vec<Vec<u64>>) -> bool {
    ke@.len() == 6 && forall|r: int| 0 <= r < 6 ==> #[trigger] ke@[r]@.len() == 6
}

/// A symmetric element stiffness block (bit-for-bit).
pub open spec fn ke_symmetric(ke: Vec<Vec<u64>>) -> bool {
    forall|r: int, c: int| 0 <= r < 6 && 0 <= c < 6 ==> #[trigger] ke@[r]@[c] == ke@[c]@[r]
}

/// Where the contribution of element `e`, local slots `(a, b)`, axes
/// `(p, q)` stands in the list.
pub open spec fn contribution_index(e: int, a: int, b: int, p: int, q: int) -> int {
    e * 36 + a * 12 + b * 4 + p * 2 + q
}

/// The whole assembly relation: `coo` is exactly the scatter of every
/// element's stiffness block, with contribution `(e, a, b, p, q)` adding
/// entry `ke[2a + p][2b + q]` at global row `2 nodes[a] + p` and column
/// `2 nodes[b] + q`.
pub open spec fn coo_assembled(
    coo: Seq<Contribution>,
    elements: Seq<Element>,
    kes: Seq<Vec<Vec<u64>>>,
) -> bool {
    &&& coo.len() == elements.len() * 36
    &&& forall|e: int, a: int, b: int, p: int, q: int|
        0 <= e < elements.len() && 0 <= a < 3 && 0 <= b < 3 && 0 <= p < 2 && 0 <= q < 2
            ==> {
                let t = coo[#[trigger] contribution_index(e, a, b, p, q)];
                &&& t.0 == 2 * elements[e].nodes[a] + p
                &&& t.1 == 2 * elements[e].nodes[b] + q
                &&& t.2 == kes[e]@[2 * a + p]@[2 * b + q]
            }
}

/// Scatters every element stiffness block into the global contribution
/// list, in ascending element order; inside an element, row slot, column
/// slot, then row axis and column axis, each pair touched exactly once.
pub fn assemble_contributions(
    nodes_len: usize,
    elements: &Vec<Element>,
    kes: &Vec<Vec<Vec<u64>>>,
) -> (r: Vec<Contribution>)
    requires
        nodes_len * 2 <= usize::MAX,
        elements@.len() * 36 <= usize::MAX,
        kes@.len() == elements@.len(),
        forall|e: int| 0 <= e < elements@.len()
            ==> element_indices_valid(#[trigger] elements@[e], nodes_len as nat),
        forall|e: int| 0 <= e < kes@.len() ==> ke_wf(#[trigger] kes@[e]),
    ensures
        coo_assembled(r@, elements@, kes@),
{
    let mut r: Vec<Contribution> = Vec::new();
    let num_elements = elements.len();
    let mut e: usize = 0;
    while e < num_elements
        invariant
            num_elements == elements@.len(),
            nodes_len * 2 <= usize::MAX,
            elements@.len() * 36 <= usize::MAX,
            kes@.len() == elements@.len(),
            forall|x: int| 0 <= x < elements@.len()
                ==> element_indices_valid(#[trigger] elements@[x], nodes_len as nat),
            forall|x: int| 0 <= x < kes@.len() ==> ke_wf(#[trigger] kes@[x]),
            0 <= e <= num_elements,
            r@.len() == e * 36,
            forall|e2: int, a2: int, b2: int, p2: int, q2: int|
                0 <= e2 < e && 0 <= a2 < 3 && 0 <= b2 < 3 && 0 <= p2 < 2 && 0 <= q2 < 2
                    ==> {
                        let t = r@[#[trigger] contribution_index(e2, a2, b2, p2, q2)];
                        &&& t.0 == 2 * elements@[e2].nodes[a2] + p2
                        &&& t.1 == 2 * elements@[e2].nodes[b2] + q2
                        &&& t.2 == kes@[e2]@[2 * a2 + p2]@[2 * b2 + q2]
                    },
        decreases num_elements - e,
    {
        let ke = &kes[e];
        let mut a: usize = 0;
        while a < 3
            invariant
                num_elements == elements@.len(),
                nodes_len * 2 <= usize::MAX,
                elements@.len() * 36 <= usize::MAX,
                kes@.len() == elements@.len(),
                forall|x: int| 0 <= x < elements@.len()
                    ==> element_indices_valid(#[trigger] elements@[x], nodes_len as nat),
                forall|x: int| 0 <= x < kes@.len() ==> ke_wf(#[trigger] kes@[x]),
                0 <= e < num_elements,
                ke == kes@[e as int],
                0 <= a <= 3,
                r@.len() == e * 36 + a * 12,
                forall|e2: int, a2: int, b2: int, p2: int, q2: int|
                    0 <= e2 < elements@.len() && 0 <= a2 < 3 && 0 <= b2 < 3 && 0 <= p2 < 2
                        && 0 <= q2 < 2
                        && contribution_index(e2, a2, b2, p2, q2) < r@.len()
                        ==> {
                            let t = r@[#[trigger] contribution_index(e2, a2, b2, p2, q2)];
                            &&& t.0 == 2 * elements@[e2].nodes[a2] + p2
                            &&& t.1 == 2 * elements@[e2].nodes[b2] + q2
                            &&& t.2 == kes@[e2]@[2 * a2 + p2]@[2 * b2 + q2]
                        },
            decreases 3 - a,
        {
            let mut b: usize = 0;
            while b < 3
                invariant
                    num_elements == elements@.len(),
                    nodes_len * 2 <= usize::MAX,
                    elements@.len() * 36 <= usize::MAX,
                    kes@.len() == elements@.len(),
                    forall|x: int| 0 <= x < elements@.len()
                        ==> element_indices_valid(#[trigger] elements@[x], nodes_len as nat),
                    forall|x: int| 0 <= x < kes@.len() ==> ke_wf(#[trigger] kes@[x]),
                    0 <= e < num_elements,
                    ke == kes@[e as int],
                    0 <= a < 3,
                    0 <= b <= 3,
                    r@.len() == e * 36 + a * 12 + b * 4,
                    forall|e2: int, a2: int, b2: int, p2: int, q2: int|
                        0 <= e2 < elements@.len() && 0 <= a2 < 3 && 0 <= b2 < 3 && 0 <= p2 < 2
                            && 0 <= q2 < 2
                            && contribution_index(e2, a2, b2, p2, q2) < r@.len()
                            ==> {
                                let t = r@[#[trigger] contribution_index(e2, a2, b2, p2, q2)];
                                &&& t.0 == 2 * elements@[e2].nodes[a2] + p2
                                &&& t.1 == 2 * elements@[e2].nodes[b2] + q2
                                &&& t.2 == kes@[e2]@[2 * a2 + p2]@[2 * b2 + q2]
                            },
                decreases 3 - b,
            {
                let node_row = elements[e].nodes[a];
                let node_col = elements[e].nodes[b];
                let global_row = node_row * 2;
                let global_col = node_col * 2;
                let local_row = a * 2;
                let local_col = b * 2;
                r.push((global_row, global_col, ke[local_row][local_col]));
                r.push((global_row, global_col + 1, ke[local_row][local_col + 1]));
                r.push((global_row + 1, global_col, ke[local_row + 1][local_col]));
                r.push((global_row + 1, global_col + 1, ke[local_row + 1][local_col + 1]));
                b = b + 1;
            }
            a = a + 1;
        }
        e = e + 1;
    }
    r
}

/// The scatter is symmetric: the contribution an element sends to global
/// cell `(row, col)` is matched, within the same element, by the transposed
/// entry of its stiffness block sent to `(col, row)`.  With symmetric
/// element blocks the two values are equal, so the per-cell contribution
/// lists of `(row, col)` and `(col, row)` coincide and the assembled matrix
/// is symmetric however the caller folds it.
pub proof fn lemma_assembly_transpose(
    coo: Seq<Contribution>,
    elements: Seq<Element>,
    kes: Seq<Vec<Vec<u64>>>,
)
    requires
        coo_assembled(coo, elements, kes),
        forall|e: int| 0 <= e < kes.len() ==> ke_wf(#[trigger] kes[e]),
        forall|e: int| 0 <= e < kes.len() ==> ke_symmetric(#[trigger] kes[e]),
        kes.len() == elements.len(),
    ensures
        forall|e: int, a: int, b: int, p: int, q: int|
            0 <= e < elements.len() && 0 <= a < 3 && 0 <= b < 3 && 0 <= p < 2 && 0 <= q < 2
                ==> {
                    let t = coo[#[trigger] contribution_index(e, a, b, p, q)];
                    let u = coo[contribution_index(e, b, a, q, p)];
                    &&& u.0 == t.1
                    &&& u.1 == t.0
                    &&& u.2 == t.2
                },
{
    assert forall|e: int, a: int, b: int, p: int, q: int|
        0 <= e < elements.len() && 0 <= a < 3 && 0 <= b < 3 && 0 <= p < 2 && 0 <= q < 2
            implies {
                let t = coo[#[trigger] contribution_index(e, a, b, p, q)];
                let u = coo[contribution_index(e, b, a, q, p)];
                u.0 == t.1 && u.1 == t.0 && u.2 == t.2
            } by {
        assert(contribution_index(e, a, b, p, q) < coo.len());
        assert(contribution_index(e, b, a, q, p) < coo.len());
        assert(kes[e]@[2 * b + q]@[2 * a + p] == kes[e]@[2 * a + p]@[2 * b + q]);
    }
}

/// Within one element the scatter targets are pairwise distinct: two
/// different (slot, axis) choices land in two different global cells.  An
/// element therefore touches each global cell at most once.
pub proof fn lemma_element_targets_distinct(
    elements: Seq<Element>,
    nodes_len: nat,
    e: int,
    a1: int,
    p1: int,
    b1: int,
    q1: int,
    a2: int,
    p2: int,
    b2: int,
    q2: int,
)
    requires
        0 <= e < elements.len(),
        element_indices_valid(elements[e], nodes_len),
        0 <= a1 < 3, 0 <= b1 < 3, 0 <= p1 < 2, 0 <= q1 < 2,
        0 <= a2 < 3, 0 <= b2 < 3, 0 <= p2 < 2, 0 <= q2 < 2,
        (a1, b1, p1, q1) != (a2, b2, p2, q2),
    ensures
        2 * elements[e].nodes[a1] + p1 != 2 * elements[e].nodes[a2] + p2
            || 2 * elements[e].nodes[b1] + q1 != 2 * elements[e].nodes[b2] + q2,
{
    let n = elements[e].nodes;
    if 2 * n[a1] + p1 == 2 * n[a2] + p2 && 2 * n[b1] + q1 == 2 * n[b2] + q2 {
        assert(p1 == p2 && n[a1] == n[a2]);
        assert(q1 == q2 && n[b1] == n[b2]);
        assert(a1 == a2);
        assert(b1 == b2);
    }
}

} // verus!

verus! {

/// Aiming at one global cell.
pub open spec fn cell_pred(row: usize, col: usize) -> spec_fn(Contribution) -> bool {
    |t: Contribution| t.0 == row && t.1 == col
}

/// The contributions a cell receives: the sub-sequence of the list aimed at
/// global cell `(row, col)`, in list order.
pub open spec fn cell_contributions(coo: Seq<Contribution>, row: usize, col: usize) -> Seq<
    Contribution,
> {
    coo.filter(cell_pred(row, col))
}

/// A filter with no matching element yields nothing; one with exactly one
/// yields exactly it.
proof fn lemma_filter_at_most_one(
    s: Seq<Contribution>,
    pred: spec_fn(Contribution) -> bool,
    at: Option<int>,
)
    requires
        match at {
            Option::Some(p) => 0 <= p < s.len() && pred(s[p])
                && forall|i: int| 0 <= i < s.len() && i != p ==> !pred(#[trigger] s[i]),
            Option::None => forall|i: int| 0 <= i < s.len() ==> !pred(#[trigger] s[i]),
        },
    ensures
        match at {
            Option::Some(p) => s.filter(pred) =~= seq![s[p]],
            Option::None => s.filter(pred) =~= Seq::<Contribution>::empty(),
        },
    decreases s.len(),
{
    reveal(Seq::filter);
    if s.len() > 0 {
        assert(forall|i: int| 0 <= i < s.len() - 1 ==> s.drop_last()[i] == s[i]);
        match at {
            Option::Some(p) => {
                if p == s.len() - 1 {
                    lemma_filter_at_most_one(s.drop_last(), pred, Option::None);
                } else {
                    lemma_filter_at_most_one(s.drop_last(), pred, Option::Some(p));
                }
            },
            Option::None => {
                lemma_filter_at_most_one(s.drop_last(), pred, Option::None);
            },
        }
    }
}

/// Whether some slot-and-axis choice of element `e` aims at `(row, col)`,
/// and the list position of that contribution.
pub open spec fn element_hits(element: Element, e: int, row: usize, col: usize) -> bool {
    exists|a: int, b: int, p: int, q: int|
        0 <= a < 3 && 0 <= b < 3 && 0 <= p < 2 && 0 <= q < 2
            && 2 * element.nodes[a] + p == row && 2 * element.nodes[b] + q == col
            && #[trigger] contribution_index(e, a, b, p, q) >= 0
}

/// Each position inside an element's block decomposes into its slot and
/// axis choice.
proof fn lemma_block_position(k: int) -> (r: (int, int, int, int))
    requires
        0 <= k < 36,
    ensures
        ({
            let (a, b, p, q) = r;
            &&& 0 <= a < 3
            &&& 0 <= b < 3
            &&& 0 <= p < 2
            &&& 0 <= q < 2
            &&& k == a * 12 + b * 4 + p * 2 + q
        }),
{
    let a = k / 12;
    let rem = k % 12;
    let b = rem / 4;
    let rem2 = rem % 4;
    let p = rem2 / 2;
    let q = rem2 % 2;
    assert(k == a * 12 + rem) by {
        vstd::arithmetic::div_mod::lemma_fundamental_div_mod(k, 12);
    }
    assert(rem == b * 4 + rem2) by {
        vstd::arithmetic::div_mod::lemma_fundamental_div_mod(rem, 4);
    }
    assert(rem2 == p * 2 + q) by {
        vstd::arithmetic::div_mod::lemma_fundamental_div_mod(rem2, 2);
    }
    (a, b, p, q)
}

/// The contributions one element's block sends to `(row, col)` match, value
/// for value, those it sends to `(col, row)`.
proof fn lemma_block_cells_symmetric(
    coo: Seq<Contribution>,
    elements: Seq<Element>,
    kes: Seq<Vec<Vec<u64>>>,
    nodes_len: nat,
    e: int,
    row: usize,
    col: usize,
)
    requires
        coo_assembled(coo, elements, kes),
        kes.len() == elements.len(),
        forall|x: int| 0 <= x < kes.len() ==> ke_wf(#[trigger] kes[x]),
        forall|x: int| 0 <= x < kes.len() ==> ke_symmetric(#[trigger] kes[x]),
        forall|x: int| 0 <= x < elements.len()
            ==> element_indices_valid(#[trigger] elements[x], nodes_len),
        0 <= e < elements.len(),
    ensures
        ({
            let block = coo.subrange(e * 36, e * 36 + 36);
            let straight = cell_contributions(block, row, col);
            let flipped = cell_contributions(block, col, row);
            straight.len() == flipped.len()
                && forall|k: int| 0 <= k < straight.len()
                    ==> (#[trigger] straight[k]).2 == flipped[k].2
        }),
{
    let block = coo.subrange(e * 36, e * 36 + 36);
    let pred_straight = cell_pred(row, col);
    let pred_flipped = cell_pred(col, row);
    assert(block.len() == 36);
    assert(forall|k: int| 0 <= k < 36 ==> block[k] == coo[#[trigger] (e * 36 + k)]);
    if element_hits(elements[e], e, row, col) {
        let (a, b, p, q) = choose|a: int, b: int, p: int, q: int|
            0 <= a < 3 && 0 <= b < 3 && 0 <= p < 2 && 0 <= q < 2
                && 2 * elements[e].nodes[a] + p == row && 2 * elements[e].nodes[b] + q == col
                && #[trigger] contribution_index(e, a, b, p, q) >= 0;
        let k1 = a * 12 + b * 4 + p * 2 + q;
        let k2 = b * 12 + a * 4 + q * 2 + p;
        assert(block[k1] == coo[contribution_index(e, a, b, p, q)]);
        assert(block[k2] == coo[contribution_index(e, b, a, q, p)]);
        assert(pred_straight(block[k1]));
        assert(pred_flipped(block[k2]));
        assert forall|k: int| 0 <= k < 36 && k != k1 implies !pred_straight(block[k]) by {
            let (a2, b2, p2, q2) = lemma_block_position(k);
            assert(block[k] == coo[contribution_index(e, a2, b2, p2, q2)]);
            if pred_straight(block[k]) {
                lemma_element_targets_distinct(
                    elements, nodes_len, e, a, p, b, q, a2, p2, b2, q2,
                );
            }
        }
        assert forall|k: int| 0 <= k < 36 && k != k2 implies !pred_flipped(block[k]) by {
            let (a2, b2, p2, q2) = lemma_block_position(k);
            assert(block[k] == coo[contribution_index(e, a2, b2, p2, q2)]);
            if pred_flipped(block[k]) {
                lemma_element_targets_distinct(
                    elements, nodes_len, e, b, q, a, p, a2, p2, b2, q2,
                );
            }
        }
        lemma_filter_at_most_one(block, pred_straight, Option::Some(k1));
        lemma_filter_at_most_one(block, pred_flipped, Option::Some(k2));
        assert(block[k1].2 == kes[e]@[2 * a + p]@[2 * b + q]);
        assert(block[k2].2 == kes[e]@[2 * b + q]@[2 * a + p]);
        assert(block[k1].2 == block[k2].2);
    } else {
        assert forall|k: int| 0 <= k < 36 implies !pred_straight(block[k])
            && !pred_flipped(block[k]) by {
            let (a2, b2, p2, q2) = lemma_block_position(k);
            assert(block[k] == coo[contribution_index(e, a2, b2, p2, q2)]);
            if pred_straight(block[k]) {
                assert(element_hits(elements[e], e, row, col));
            }
            if pred_flipped(block[k]) {
                assert(2 * elements[e].nodes[b2] + q2 == row
                    && 2 * elements[e].nodes[a2] + p2 == col);
                assert(contribution_index(e, b2, a2, q2, p2) >= 0);
                assert(element_hits(elements[e], e, row, col));
            }
        }
        lemma_filter_at_most_one(block, pred_straight, Option::None);
        lemma_filter_at_most_one(block, pred_flipped, Option::None);
    }
}

/// The assembled matrix is symmetric however the caller folds it: with
/// symmetric element blocks and well-formed elements, every global cell
/// `(row, col)` receives exactly the same values, in the same order, as the
/// cell `(col, row)`.  Folding the contributions with floating-point
/// addition therefore yields a bit-for-bit symmetric matrix.
pub proof fn lemma_assembled_cells_symmetric(
    coo: Seq<Contribution>,
    elements: Seq<Element>,
    kes: Seq<Vec<Vec<u64>>>,
    nodes_len: nat,
    row: usize,
    col: usize,
)
    requires
        coo_assembled(coo, elements, kes),
        kes.len() == elements.len(),
        forall|x: int| 0 <= x < kes.len() ==> ke_wf(#[trigger] kes[x]),
        forall|x: int| 0 <= x < kes.len() ==> ke_symmetric(#[trigger] kes[x]),
        forall|x: int| 0 <= x < elements.len()
            ==> element_indices_valid(#[trigger] elements[x], nodes_len),
    ensures
        cell_contributions(coo, row, col).len() == cell_contributions(coo, col, row).len(),
        forall|k: int| 0 <= k < cell_contributions(coo, row, col).len()
            ==> (#[trigger] cell_contributions(coo, row, col)[k]).2
                == cell_contributions(coo, col, row)[k].2,
{
    lemma_cells_symmetric_prefix(coo, elements, kes, nodes_len, elements.len() as int, row, col);
    assert(coo.subrange(0, elements.len() as int * 36) =~= coo);
}

/// The cell symmetry over the blocks of the first `e` elements.
proof fn lemma_cells_symmetric_prefix(
    coo: Seq<Contribution>,
    elements: Seq<Element>,
    kes: Seq<Vec<Vec<u64>>>,
    nodes_len: nat,
    e: int,
    row: usize,
    col: usize,
)
    requires
        coo_assembled(coo, elements, kes),
        kes.len() == elements.len(),
        forall|x: int| 0 <= x < kes.len() ==> ke_wf(#[trigger] kes[x]),
        forall|x: int| 0 <= x < kes.len() ==> ke_symmetric(#[trigger] kes[x]),
        forall|x: int| 0 <= x < elements.len()
            ==> element_indices_valid(#[trigger] elements[x], nodes_len),
        0 <= e <= elements.len(),
    ensures
        ({
            let prefix = coo.subrange(0, e * 36);
            let straight = cell_contributions(prefix, row, col);
            let flipped = cell_contributions(prefix, col, row);
            straight.len() == flipped.len()
                && forall|k: int| 0 <= k < straight.len()
                    ==> (#[trigger] straight[k]).2 == flipped[k].2
        }),
    decreases e,
{
    let pred_straight = cell_pred(row, col);
    let pred_flipped = cell_pred(col, row);
    if e == 0 {
        reveal(Seq::filter);
        assert(coo.subrange(0, 0) =~= Seq::<Contribution>::empty());
    } else {
        lemma_cells_symmetric_prefix(coo, elements, kes, nodes_len, e - 1, row, col);
        lemma_block_cells_symmetric(coo, elements, kes, nodes_len, e - 1, row, col);
        let prev = coo.subrange(0, (e - 1) * 36);
        let block = coo.subrange((e - 1) * 36, (e - 1) * 36 + 36);
        assert(coo.subrange(0, e * 36) =~= prev + block);
        Seq::filter_distributes_over_add(prev, block, pred_straight);
        Seq::filter_distributes_over_add(prev, block, pred_flipped);
    }
}

} // verus!
