//! Laws that relate evaluation and validation, stated over the model.

use vstd::prelude::*;
use crate::error::GraphError;
use crate::model::{
    as_value, check_result, consistent, evaluates, fill_graph, fill_status, filled, first_failure,
    first_violation, node_wf, value, well_formed,
};
use crate::node::Node;

verus! {

/// The first failure of evaluation at or after `from` is the least position
/// from there on that evaluation cannot pass: every node before it passes, and
/// it lies within the store exactly when some node from `from` on fails.
pub proof fn lemma_first_failure_is_least(nodes: Seq<Node>, input: int, val: nat, from: int)
    requires
        0 <= from <= nodes.len(),
    ensures
        from <= first_failure(nodes, input, val, from) <= nodes.len(),
        forall|j: int|
            from <= j < first_failure(nodes, input, val, from) ==> evaluates(nodes, input, val, j),
        first_failure(nodes, input, val, from) < nodes.len() ==> !evaluates(
            nodes,
            input,
            val,
            first_failure(nodes, input, val, from),
        ),
    decreases nodes.len() - from,
{
    if from < nodes.len() && evaluates(nodes, input, val, from) {
        lemma_first_failure_is_least(nodes, input, val, from + 1);
    }
}

/// The first violation at or after `from` is the least position from there on
/// whose constraint fails: every node before it is consistent, and it lies
/// within the store exactly when some node from `from` on is inconsistent.
pub proof fn lemma_first_violation_is_least(nodes: Seq<Node>, from: int)
    requires
        0 <= from <= nodes.len(),
    ensures
        from <= first_violation(nodes, from) <= nodes.len(),
        forall|j: int| from <= j < first_violation(nodes, from) ==> consistent(nodes, j),
        first_violation(nodes, from) < nodes.len() ==> !consistent(
            nodes,
            first_violation(nodes, from),
        ),
    decreases nodes.len() - from,
{
    if from < nodes.len() && consistent(nodes, from) {
        lemma_first_violation_is_least(nodes, from + 1);
    }
}

/// Evaluation keeps a well-formed store well formed, whether it succeeds or
/// stops at a failure.
pub proof fn lemma_fill_keeps_well_formed(nodes: Seq<Node>, input: usize, val: u32)
    requires
        well_formed(nodes),
    ensures
        well_formed(fill_graph(nodes, input, val)),
{
    let g = fill_graph(nodes, input, val);
    assert forall|i: int| 0 <= i < g.len() implies node_wf(#[trigger] g[i], i) by {
        assert(node_wf(nodes[i], i));
    }
}

/// The algebraic value of a node does not depend on what an earlier
/// evaluation left in the store: it reads only the graph's structure, the
/// designated input and the outputs of the other nodes without operands, and
/// evaluation changes none of these.
pub proof fn lemma_value_after_fill(
    nodes: Seq<Node>,
    input: int,
    earlier: u32,
    k: int,
    val: nat,
    i: int,
)
    ensures
        value(filled(nodes, input, earlier, k), input, val, i) == value(nodes, input, val, i),
    decreases i,
{
    if 0 <= i < nodes.len() && nodes[i].is_computed() {
        let a = nodes[i].left();
        let b = nodes[i].right();
        if a < i && b < i {
            lemma_value_after_fill(nodes, input, earlier, k, val, a);
            lemma_value_after_fill(nodes, input, earlier, k, val, b);
        }
    }
}

/// Evaluation fails at the same node, if at all, whether or not the store was
/// evaluated before.
pub proof fn lemma_first_failure_after_fill(
    nodes: Seq<Node>,
    input: int,
    earlier: u32,
    k: int,
    val: nat,
    from: int,
)
    requires
        0 <= from,
    ensures
        first_failure(filled(nodes, input, earlier, k), input, val, from) == first_failure(
            nodes,
            input,
            val,
            from,
        ),
    decreases nodes.len() - from,
{
    if from < nodes.len() {
        lemma_value_after_fill(nodes, input, earlier, k, val, from);
        lemma_first_failure_after_fill(nodes, input, earlier, k, val, from + 1);
    }
}

/// A successful evaluation satisfies every constraint: validating the store
/// that it leaves returns `Ok(true)`.
pub proof fn lemma_fill_then_check(nodes: Seq<Node>, input: usize, val: u32)
    requires
        well_formed(nodes),
        fill_status(nodes, input, val) is Ok,
    ensures
        check_result(fill_graph(nodes, input, val)) == Ok::<bool, GraphError>(true),
        forall|i: int| 0 <= i < nodes.len() ==> consistent(fill_graph(nodes, input, val), i),
{
    let n = nodes.len() as int;
    let at = input as int;
    let g = fill_graph(nodes, input, val);
    lemma_first_failure_is_least(nodes, at, val as nat, 0);
    assert(g == filled(nodes, at, val, n));
    assert forall|i: int| 0 <= i < n implies consistent(g, i) by {
        assert(node_wf(nodes[i], i));
        if nodes[i].is_computed() {
            let a = nodes[i].left();
            let b = nodes[i].right();
            assert(evaluates(nodes, at, val as nat, i));
            assert(evaluates(nodes, at, val as nat, a));
            assert(evaluates(nodes, at, val as nat, b));
            assert(as_value(g[a].output) == value(nodes, at, val as nat, a));
            assert(as_value(g[b].output) == value(nodes, at, val as nat, b));
        }
    }
    lemma_first_violation_is_least(g, 0);
}

/// In a graph whose nodes without operands all hold a value, except perhaps
/// the designated input, and in which no computed node's algebraic value
/// exceeds `u32::MAX`, evaluation succeeds, validation of the result succeeds,
/// and every node then holds exactly the algebraic value of the expression
/// that it stands for.
pub proof fn lemma_pure_graph_evaluates(nodes: Seq<Node>, input: usize, val: u32)
    requires
        well_formed(nodes),
        input < nodes.len(),
        forall|i: int|
            0 <= i < nodes.len() && !nodes[i].is_computed() && i != input
                ==> (#[trigger] nodes[i]).output is Some,
        forall|i: int|
            0 <= i < nodes.len() && nodes[i].is_computed() && value(
                nodes,
                input as int,
                val as nat,
                i,
            ) is Some ==> value(nodes, input as int, val as nat, i)->0 <= u32::MAX,
    ensures
        fill_status(nodes, input, val) is Ok,
        check_result(fill_graph(nodes, input, val)) == Ok::<bool, GraphError>(true),
        forall|i: int|
            0 <= i < nodes.len() ==> {
                &&& value(nodes, input as int, val as nat, i) is Some
                &&& as_value(#[trigger] fill_graph(nodes, input, val)[i].output) == value(
                    nodes,
                    input as int,
                    val as nat,
                    i,
                )
            },
{
    let n = nodes.len() as int;
    let at = input as int;
    assert forall|i: int| 0 <= i < n implies value(nodes, at, val as nat, i) is Some by {
        lemma_pure_value_exists(nodes, at, val as nat, i);
    }
    lemma_first_failure_is_least(nodes, at, val as nat, 0);
    let k = first_failure(nodes, at, val as nat, 0);
    if k < n {
        assert(value(nodes, at, val as nat, k) is Some);
    }
    lemma_fill_then_check(nodes, input, val);
    let g = fill_graph(nodes, input, val);
    assert forall|i: int| 0 <= i < n implies as_value(#[trigger] g[i].output) == value(
        nodes,
        at,
        val as nat,
        i,
    ) by {
        assert(value(nodes, at, val as nat, i) is Some);
    }
}

/// Where every node without operands holds a value, except perhaps the
/// designated input, every node has an algebraic value.
proof fn lemma_pure_value_exists(nodes: Seq<Node>, input: int, val: nat, i: int)
    requires
        well_formed(nodes),
        0 <= i < nodes.len(),
        forall|j: int|
            0 <= j < nodes.len() && !nodes[j].is_computed() && j != input
                ==> (#[trigger] nodes[j]).output is Some,
    ensures
        value(nodes, input, val, i) is Some,
    decreases i,
{
    assert(node_wf(nodes[i], i));
    if nodes[i].is_computed() {
        lemma_pure_value_exists(nodes, input, val, nodes[i].left());
        lemma_pure_value_exists(nodes, input, val, nodes[i].right());
    }
}

/// Evaluating again with the same input changes nothing: the second call
/// reports what the first reported and leaves the store that the first left.
pub proof fn lemma_fill_idempotent(nodes: Seq<Node>, input: usize, val: u32)
    ensures
        fill_status(fill_graph(nodes, input, val), input, val) == fill_status(nodes, input, val),
        fill_graph(fill_graph(nodes, input, val), input, val) == fill_graph(nodes, input, val),
{
    if input < nodes.len() {
        let at = input as int;
        let k = first_failure(nodes, at, val as nat, 0);
        let g = filled(nodes, at, val, k);
        lemma_first_failure_after_fill(nodes, at, val, k, val as nat, 0);
        lemma_first_failure_is_least(nodes, at, val as nat, 0);
        if k < nodes.len() {
            lemma_value_after_fill(nodes, at, val, k, val as nat, nodes[k].left());
            lemma_value_after_fill(nodes, at, val, k, val as nat, nodes[k].right());
        }
        assert forall|j: int| 0 <= j < nodes.len() implies #[trigger] filled(g, at, val, k)[j]
            == g[j] by {
            lemma_value_after_fill(nodes, at, val, k, val as nat, j);
        }
        assert(filled(g, at, val, k) =~= g);
    }
}

/// Evaluating a store that was evaluated before, with whatever input value,
/// reports what evaluating the fresh store with the new value reports. Where
/// that is success, it leaves the same store, which holds nothing of the
/// earlier evaluation and satisfies every constraint.
pub proof fn lemma_refill_matches_fresh_fill(
    nodes: Seq<Node>,
    input: usize,
    earlier: u32,
    val: u32,
)
    requires
        well_formed(nodes),
    ensures
        fill_status(fill_graph(nodes, input, earlier), input, val) == fill_status(
            nodes,
            input,
            val,
        ),
        fill_status(nodes, input, val) is Ok ==> {
            &&& fill_graph(fill_graph(nodes, input, earlier), input, val) == fill_graph(
                nodes,
                input,
                val,
            )
            &&& check_result(fill_graph(fill_graph(nodes, input, earlier), input, val)) == Ok::<
                bool,
                GraphError,
            >(true)
        },
{
    if input < nodes.len() {
        let n = nodes.len() as int;
        let at = input as int;
        let k1 = first_failure(nodes, at, earlier as nat, 0);
        let g = filled(nodes, at, earlier, k1);
        let k = first_failure(nodes, at, val as nat, 0);
        lemma_first_failure_after_fill(nodes, at, earlier, k1, val as nat, 0);
        lemma_first_failure_is_least(nodes, at, val as nat, 0);
        if k < n {
            lemma_value_after_fill(nodes, at, earlier, k1, val as nat, nodes[k].left());
            lemma_value_after_fill(nodes, at, earlier, k1, val as nat, nodes[k].right());
        } else {
            assert forall|j: int| 0 <= j < n implies #[trigger] filled(g, at, val, n)[j] == filled(
                nodes,
                at,
                val,
                n,
            )[j] by {
                lemma_value_after_fill(nodes, at, earlier, k1, val as nat, j);
            }
            assert(filled(g, at, val, n) =~= filled(nodes, at, val, n));
            lemma_fill_then_check(nodes, input, val);
        }
    }
}

} // verus!
