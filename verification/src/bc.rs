//! Stamping boundary rules onto mesh nodes.
//!
//! Each node is tested against every rule in order; a node strictly inside a
//! rule's region takes that rule's whole target, so the last matching rule
//! wins.  Nodes matched by no rule keep what the mesh ingest gave them.

use vstd::prelude::*;
use crate::datatypes::{BoundaryRule, Node, node_constrained, target_constrained, vertex_in_region};
use crate::fp;

verus! {

/// The node after one rule is considered: unchanged unless the node's vertex
/// lies strictly inside the rule's region, in which case the rule's target
/// replaces all four prescribed quantities.
pub open spec fn stamp_one(node: Node, rule: BoundaryRule) -> Node {
    if vertex_in_region(node.vertex, rule.region) {
        Node {
            vertex: node.vertex,
            ux: rule.target.ux,
            uy: rule.target.uy,
            fx: rule.target.fx,
            fy: rule.target.fy,
        }
    } else {
        node
    }
}

/// The node after every rule is considered in order.
pub open spec fn stamp_node(node: Node, rules: Seq<BoundaryRule>) -> Node
    decreases rules.len(),
{
    if rules.len() == 0 {
        node
    } else {
        stamp_one(stamp_node(node, rules.drop_last()), rules.last())
    }
}

/// Whether a node's vertex lies strictly inside a rule's region.
fn node_candidate(node: &Node, rule: &BoundaryRule) -> (r: bool)
    ensures
        r == vertex_in_region(node.vertex, rule.region),
{
    fp::gt(node.vertex.x, rule.region.x_min)
        && fp::lt(node.vertex.x, rule.region.x_max)
        && fp::gt(node.vertex.y, rule.region.y_min)
        && fp::lt(node.vertex.y, rule.region.y_max)
}

/// Applies every boundary rule to every node, in order; node positions are
/// untouched.
pub fn apply_boundary_conditions(rules: &Vec<BoundaryRule>, nodes: &mut Vec<Node>)
    ensures
        final(nodes)@.len() == old(nodes)@.len(),
        forall|i: int| 0 <= i < old(nodes)@.len()
            ==> #[trigger] final(nodes)@[i] == stamp_node(old(nodes)@[i], rules@),
{
    let n = nodes.len();
    let mut i: usize = 0;
    while i < n
        invariant
            n == old(nodes)@.len(),
            nodes@.len() == n,
            0 <= i <= n,
            forall|k: int| 0 <= k < i ==> #[trigger] nodes@[k] == stamp_node(old(nodes)@[k], rules@),
            forall|k: int| i <= k < n ==> #[trigger] nodes@[k] == old(nodes)@[k],
        decreases n - i,
    {
        let mut node = nodes[i];
        let mut j: usize = 0;
        while j < rules.len()
            invariant
                0 <= j <= rules@.len(),
                0 <= i < n,
                n == old(nodes)@.len(),
                nodes@.len() == n,
                node == stamp_node(old(nodes)@[i as int], rules@.take(j as int)),
                forall|k: int| 0 <= k < i ==> #[trigger] nodes@[k] == stamp_node(old(nodes)@[k], rules@),
                forall|k: int| i <= k < n ==> #[trigger] nodes@[k] == old(nodes)@[k],
            decreases rules@.len() - j,
        {
            if node_candidate(&node, &rules[j]) {
                node.ux = rules[j].target.ux;
                node.uy = rules[j].target.uy;
                node.fx = rules[j].target.fx;
                node.fy = rules[j].target.fy;
            }
            proof {
                assert(rules@.take(j + 1).drop_last() =~= rules@.take(j as int));
                assert(rules@.take(j + 1).last() == rules@[j as int]);
            }
            j = j + 1;
        }
        proof {
            assert(rules@.take(rules@.len() as int) =~= rules@);
        }
        nodes.set(i, node);
        i = i + 1;
    }
}

/// Stamping keeps the node's position.
pub proof fn lemma_stamp_keeps_vertex(node: Node, rules: Seq<BoundaryRule>)
    ensures
        stamp_node(node, rules).vertex == node.vertex,
    decreases rules.len(),
{
    if rules.len() > 0 {
        lemma_stamp_keeps_vertex(node, rules.drop_last());
    }
}

/// Stamping preserves the pre-solve invariant: if the node and every rule
/// target prescribe exactly one of displacement and force per axis, so does
/// the stamped node.
pub proof fn lemma_stamp_preserves_constrained(node: Node, rules: Seq<BoundaryRule>)
    requires
        node_constrained(node),
        forall|j: int| 0 <= j < rules.len() ==> #[trigger] target_constrained(rules[j].target),
    ensures
        node_constrained(stamp_node(node, rules)),
    decreases rules.len(),
{
    if rules.len() > 0 {
        assert(forall|j: int| 0 <= j < rules.drop_last().len()
            ==> #[trigger] target_constrained(rules.drop_last()[j].target)) by {
            assert(forall|j: int| 0 <= j < rules.drop_last().len()
                ==> rules.drop_last()[j] == rules[j]);
        }
        lemma_stamp_preserves_constrained(node, rules.drop_last());
        assert(target_constrained(rules[rules.len() - 1].target));
    }
}

} // verus!

verus! {

/// The pre-solve invariant, end to end: stamping any rules that passed
/// validation onto a node that prescribes exactly one of displacement and
/// force per axis leaves it prescribing exactly one per axis.
pub proof fn lemma_validated_rules_keep_nodes_constrained(
    node: Node,
    raws: Seq<crate::input::RawRule>,
    rules: Seq<BoundaryRule>,
)
    requires
        node_constrained(node),
        rules.len() == raws.len(),
        forall|i: int| 0 <= i < raws.len()
            ==> #[trigger] crate::input::rule_error_msg(raws[i]) is None,
        forall|i: int| 0 <= i < raws.len()
            ==> crate::input::built_matches(raws[i], #[trigger] rules[i]),
    ensures
        node_constrained(stamp_node(node, rules)),
{
    assert forall|j: int| 0 <= j < rules.len()
        implies #[trigger] target_constrained(rules[j].target) by {
        crate::input::lemma_valid_rule_target_constrained(raws[j]);
        assert(rules[j].target == crate::input::spec_rule_target(raws[j]));
    }
    lemma_stamp_preserves_constrained(node, rules);
}

} // verus!
