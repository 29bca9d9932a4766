//! The mathematical model of a graph: what a well-formed store is, what each
//! node evaluates to, and what evaluation and validation decide.

use vstd::prelude::*;
use crate::error::GraphError;
use crate::node::Node;

verus! {

/// What a node at position `i` must satisfy: it knows its own position, it is
/// either a computed node whose operands both come before it or a node with no
/// operands and no operation, and a hint node always holds a value.
pub open spec fn node_wf(n: Node, i: int) -> bool {
    &&& n.id == i
    &&& match n.inputs {
        (Some(a), Some(b)) => a < i && b < i && n.op is Some && n.hint is None,
        (None, None) => n.op is None,
        _ => false,
    }
    &&& n.hint is Some ==> n.output is Some
}

/// A store is well formed when each of its nodes is, at its position.
pub open spec fn well_formed(nodes: Seq<Node>) -> bool {
    forall|i: int| 0 <= i < nodes.len() ==> node_wf(#[trigger] nodes[i], i)
}

/// A stored output as a mathematical value.
pub open spec fn as_value(output: Option<u32>) -> Option<nat> {
    match output {
        Some(v) => Some(v as nat),
        None => None,
    }
}

/// The algebraic value of node `i` when node `input` is given `val`.
///
/// A computed node evaluates to its operation applied to the values of its
/// operands, over unbounded naturals. The designated input evaluates to `val`.
/// Every other node evaluates to the output it holds, and has no value when
/// it holds none; a computed node over an operand without a value has none
/// either.
pub open spec fn value(nodes: Seq<Node>, input: int, val: nat, i: int) -> Option<nat>
    decreases i,
{
    if i < 0 || i >= nodes.len() {
        None
    } else if nodes[i].is_computed() {
        let a = nodes[i].left();
        let b = nodes[i].right();
        if a < i && b < i && nodes[i].op is Some {
            match (value(nodes, input, val, a), value(nodes, input, val, b)) {
                (Some(x), Some(y)) => Some(nodes[i].op->0.apply(x, y)),
                _ => None,
            }
        } else {
            None
        }
    } else if i == input {
        Some(val)
    } else {
        as_value(nodes[i].output)
    }
}

/// Evaluation can pass node `i`: it is not computed, or its algebraic value
/// exists and fits in 32 bits.
pub open spec fn evaluates(nodes: Seq<Node>, input: int, val: nat, i: int) -> bool {
    nodes[i].is_computed() ==> {
        &&& value(nodes, input, val, i) is Some
        &&& value(nodes, input, val, i)->0 <= u32::MAX
    }
}

/// The first position at or after `from` that evaluation cannot pass, or the
/// length of the store when there is none.
pub open spec fn first_failure(nodes: Seq<Node>, input: int, val: nat, from: int) -> int
    decreases nodes.len() - from,
{
    if from >= nodes.len() {
        nodes.len() as int
    } else if !evaluates(nodes, input, val, from) {
        from
    } else {
        first_failure(nodes, input, val, from + 1)
    }
}

/// Why evaluation stops at the computed node `k`: the first operand without a
/// value, left before right, or else the overflow of the node's own result.
pub open spec fn fill_error(nodes: Seq<Node>, input: int, val: nat, k: int) -> GraphError {
    if value(nodes, input, val, nodes[k].left()) is None {
        GraphError::UnsetOutput { node: nodes[k].inputs.0->0 }
    } else if value(nodes, input, val, nodes[k].right()) is None {
        GraphError::UnsetOutput { node: nodes[k].inputs.1->0 }
    } else {
        GraphError::Overflow { node: k as usize }
    }
}

/// The output that node `j` holds once evaluation has passed the first `k`
/// nodes: a computed node before `k` holds its algebraic value, the input
/// holds `val`, and every other node keeps what it had.
pub open spec fn filled_output(nodes: Seq<Node>, input: int, val: u32, k: int, j: int) -> Option<
    u32,
> {
    if nodes[j].is_computed() && j < k {
        match value(nodes, input, val as nat, j) {
            Some(v) => Some(v as u32),
            None => None,
        }
    } else if j == input {
        Some(val)
    } else {
        nodes[j].output
    }
}

/// The store once evaluation has passed the first `k` nodes.
pub open spec fn filled(nodes: Seq<Node>, input: int, val: u32, k: int) -> Seq<Node> {
    Seq::new(nodes.len(), |j: int| nodes[j].with_output(filled_output(nodes, input, val, k, j)))
}

/// The store that evaluation leaves behind: untouched when `input` names no
/// node, and otherwise filled up to the first node that evaluation cannot
/// pass, which is the whole store when evaluation succeeds.
pub open spec fn fill_graph(nodes: Seq<Node>, input: usize, val: u32) -> Seq<Node> {
    if input < nodes.len() {
        filled(nodes, input as int, val, first_failure(nodes, input as int, val as nat, 0))
    } else {
        nodes
    }
}

/// What evaluation reports: success when `input` names a node and evaluation
/// passes every node, and otherwise the error of the first failure.
pub open spec fn fill_status(nodes: Seq<Node>, input: usize, val: u32) -> Result<(), GraphError> {
    if input >= nodes.len() {
        Err(GraphError::InvalidIndex { index: input })
    } else {
        let k = first_failure(nodes, input as int, val as nat, 0);
        if k == nodes.len() {
            Ok(())
        } else {
            Err(fill_error(nodes, input as int, val as nat, k))
        }
    }
}

/// Node `i` satisfies its constraint: it is not computed, or both operands and
/// the node itself hold an output and the node's output is exactly its
/// operation applied to the operands' outputs.
pub open spec fn consistent(nodes: Seq<Node>, i: int) -> bool {
    nodes[i].is_computed() ==> {
        let x = nodes[nodes[i].left()].output;
        let y = nodes[nodes[i].right()].output;
        let z = nodes[i].output;
        &&& nodes[i].op is Some
        &&& x is Some
        &&& y is Some
        &&& z is Some
        &&& z->0 == nodes[i].op->0.apply(x->0 as nat, y->0 as nat)
    }
}

/// The first position at or after `from` whose constraint fails, or the length
/// of the store when there is none.
pub open spec fn first_violation(nodes: Seq<Node>, from: int) -> int
    decreases nodes.len() - from,
{
    if from >= nodes.len() {
        nodes.len() as int
    } else if !consistent(nodes, from) {
        from
    } else {
        first_violation(nodes, from + 1)
    }
}

/// Why the constraint of the computed node `k` fails: an operand without an
/// output, left before right; a recomputed result that does not fit in 32
/// bits; the node's own output missing; or an output that differs from the
/// recomputed result.
pub open spec fn check_error(nodes: Seq<Node>, k: int) -> GraphError {
    let a = nodes[k].left();
    let b = nodes[k].right();
    if nodes[a].output is None {
        GraphError::UnsetOutput { node: nodes[k].inputs.0->0 }
    } else if nodes[b].output is None {
        GraphError::UnsetOutput { node: nodes[k].inputs.1->0 }
    } else {
        let expected = nodes[k].op->0.apply(nodes[a].output->0 as nat, nodes[b].output->0 as nat);
        if expected > u32::MAX {
            GraphError::Overflow { node: k as usize }
        } else if nodes[k].output is None {
            GraphError::UnsetOutput { node: k as usize }
        } else {
            GraphError::ConstraintViolation {
                node: k as usize,
                expected: expected as u32,
                actual: nodes[k].output->0,
            }
        }
    }
}

/// What validation reports: `Ok(true)` when every constraint holds, and
/// otherwise the error of the first node whose constraint fails.
pub open spec fn check_result(nodes: Seq<Node>) -> Result<bool, GraphError> {
    let k = first_violation(nodes, 0);
    if k == nodes.len() {
        Ok(true)
    } else {
        Err(check_error(nodes, k))
    }
}

/// What a hint assertion reports. The node at `hint` must carry a link to a
/// node with an output, and `target` must name a node with an output; the
/// assertion then succeeds exactly when the two outputs are equal.
pub open spec fn hint_result(nodes: Seq<Node>, hint: usize, target: usize) -> Result<
    bool,
    GraphError,
> {
    if hint >= nodes.len() {
        Err(GraphError::InvalidIndex { index: hint })
    } else if nodes[hint as int].hint is None {
        Err(GraphError::MissingHint { node: hint })
    } else {
        let linked = nodes[hint as int].hint->0;
        if linked >= nodes.len() {
            Err(GraphError::InvalidIndex { index: linked })
        } else if nodes[linked as int].output is None {
            Err(GraphError::UnsetOutput { node: linked })
        } else if target >= nodes.len() {
            Err(GraphError::InvalidIndex { index: target })
        } else if nodes[target as int].output is None {
            Err(GraphError::UnsetOutput { node: target })
        } else if nodes[linked as int].output->0 == nodes[target as int].output->0 {
            Ok(true)
        } else {
            Err(
                GraphError::ConstraintViolation {
                    node: target,
                    expected: nodes[linked as int].output->0,
                    actual: nodes[target as int].output->0,
                },
            )
        }
    }
}

} // verus!
