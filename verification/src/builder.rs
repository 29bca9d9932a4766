//! The builder: owner of the node store, with construction, evaluation and
//! validation.

use vstd::prelude::*;
use crate::error::GraphError;
use crate::laws::lemma_fill_then_check;
use crate::model::{
    as_value, check_result, consistent, evaluates, fill_graph, fill_status, filled, first_failure,
    first_violation, hint_result, node_wf, value, well_formed,
};
use crate::node::{Node, OPERATION};

verus! {

/// Builds a computation graph, evaluates it and validates it.
#[derive(Debug)]
pub struct Builder {
    graph: Vec<Node>,
}

impl View for Builder {
    type V = Seq<Node>;

    /// The nodes of the graph, in the order of their construction.
    closed spec fn view(&self) -> Seq<Node> {
        self.graph@
    }
}

impl Clone for Builder {
    /// An independent copy of the whole store, for evaluating one graph under
    /// several inputs side by side.
    fn clone(&self) -> (copy: Self)
        ensures
            copy@ == self@,
    {
        Builder { graph: self.graph.clone() }
    }
}

impl Builder {
    /// The store is well formed.
    pub open spec fn wf(&self) -> bool {
        well_formed(self@)
    }

    /// Creates a builder with an empty graph.
    pub fn new() -> (b: Self)
        ensures
            b@ == Seq::<Node>::empty(),
            b.wf(),
    {
        Builder { graph: Vec::new() }
    }

    /// The number of nodes in the graph, which is also the index that the next
    /// node will get.
    pub fn len(&self) -> (n: usize)
        ensures
            n == self@.len(),
    {
        self.graph.len()
    }

    /// Appends a node and returns its index.
    fn push_node(&mut self, node: Node) -> (id: usize)
        requires
            old(self).wf(),
            node_wf(node, old(self)@.len() as int),
        ensures
            id == old(self)@.len(),
            final(self)@ == old(self)@.push(node),
            final(self).wf(),
    {
        let id = self.graph.len();
        self.graph.push(node);
        id
    }

    /// Appends an input node: no operands, no operation, no output, no hint.
    pub fn init(&mut self) -> (id: usize)
        requires
            old(self).wf(),
        ensures
            id == old(self)@.len(),
            final(self)@ == old(self)@.push(
                (Node { id: id, inputs: (None, None), op: None, output: None, hint: None }),
            ),
            final(self).wf(),
    {
        let id = self.graph.len();
        self.push_node(Node { id: id, inputs: (None, None), op: None, output: None, hint: None })
    }

    /// Appends a constant node, whose output is `val` from the start.
    pub fn constant(&mut self, val: u32) -> (id: usize)
        requires
            old(self).wf(),
        ensures
            id == old(self)@.len(),
            final(self)@ == old(self)@.push(
                (Node { id: id, inputs: (None, None), op: None, output: Some(val), hint: None }),
            ),
            final(self).wf(),
    {
        let id = self.graph.len();
        self.push_node(
            Node { id: id, inputs: (None, None), op: None, output: Some(val), hint: None },
        )
    }

    /// Appends a computed node that adds the outputs of the existing nodes
    /// `a` and `b`.
    pub fn add(&mut self, a: usize, b: usize) -> (id: usize)
        requires
            old(self).wf(),
            a < old(self)@.len(),
            b < old(self)@.len(),
        ensures
            id == old(self)@.len(),
            final(self)@ == old(self)@.push(
                (Node {
                    id: id,
                    inputs: (Some(a), Some(b)),
                    op: Some(OPERATION::ADD),
                    output: None,
                    hint: None,
                }),
            ),
            final(self).wf(),
    {
        let id = self.graph.len();
        self.push_node(
            Node {
                id: id,
                inputs: (Some(a), Some(b)),
                op: Some(OPERATION::ADD),
                output: None,
                hint: None,
            },
        )
    }

    /// Appends a computed node that multiplies the outputs of the existing
    /// nodes `a` and `b`.
    pub fn mul(&mut self, a: usize, b: usize) -> (id: usize)
        requires
            old(self).wf(),
            a < old(self)@.len(),
            b < old(self)@.len(),
        ensures
            id == old(self)@.len(),
            final(self)@ == old(self)@.push(
                (Node {
                    id: id,
                    inputs: (Some(a), Some(b)),
                    op: Some(OPERATION::MUL),
                    output: None,
                    hint: None,
                }),
            ),
            final(self).wf(),
    {
        let id = self.graph.len();
        self.push_node(
            Node {
                id: id,
                inputs: (Some(a), Some(b)),
                op: Some(OPERATION::MUL),
                output: None,
                hint: None,
            },
        )
    }

    /// Appends a hint node: a value computed outside the graph, linked to the
    /// node `hint_node` that it claims to correspond to.
    pub fn hint(&mut self, hint_value: u32, hint_node: usize) -> (id: usize)
        requires
            old(self).wf(),
        ensures
            id == old(self)@.len(),
            final(self)@ == old(self)@.push(
                (Node {
                    id: id,
                    inputs: (None, None),
                    op: None,
                    output: Some(hint_value),
                    hint: Some(hint_node),
                }),
            ),
            final(self).wf(),
    {
        let id = self.graph.len();
        self.push_node(
            Node {
                id: id,
                inputs: (None, None),
                op: None,
                output: Some(hint_value),
                hint: Some(hint_node),
            },
        )
    }

    /// Checks a hint against a node of the graph.
    ///
    /// `a` is a hint node and `b` the node that must hold the value of the
    /// node that `a` is linked to. Returns `Ok(true)` exactly when both nodes
    /// exist, `a` carries a link to an existing node, the linked node and `b`
    /// both hold an output, and the two outputs are equal. Unequal outputs are
    /// a `ConstraintViolation` at `b`; everything else is structural misuse.
    pub fn assert_equal(&self, a: usize, b: usize) -> (r: Result<bool, GraphError>)
        ensures
            r == hint_result(self@, a, b),
            r is Ok <==> {
                &&& a < self@.len()
                &&& b < self@.len()
                &&& self@[a as int].hint is Some
                &&& self@[a as int].hint->0 < self@.len()
                &&& self@[self@[a as int].hint->0 as int].output is Some
                &&& self@[self@[a as int].hint->0 as int].output == self@[b as int].output
            },
            r is Ok ==> r == Ok::<bool, GraphError>(true),
    {
        if a >= self.graph.len() {
            return Err(GraphError::InvalidIndex { index: a });
        }
        let linked = match self.graph[a].hint {
            Some(linked) => linked,
            None => {
                return Err(GraphError::MissingHint { node: a });
            },
        };
        if linked >= self.graph.len() {
            return Err(GraphError::InvalidIndex { index: linked });
        }
        let expected = match self.graph[linked].output {
            Some(v) => v,
            None => {
                return Err(GraphError::UnsetOutput { node: linked });
            },
        };
        if b >= self.graph.len() {
            return Err(GraphError::InvalidIndex { index: b });
        }
        let actual = match self.graph[b].output {
            Some(v) => v,
            None => {
                return Err(GraphError::UnsetOutput { node: b });
            },
        };
        if expected == actual {
            Ok(true)
        } else {
            Err(GraphError::ConstraintViolation { node: b, expected: expected, actual: actual })
        }
    }

    /// Evaluates the graph with the node `input_node` set to `input_val`.
    ///
    /// The output of `input_node` is set first. Then the nodes are visited in
    /// ascending order, and each computed node receives its operation applied
    /// to the outputs of its operands; all other nodes keep their output.
    /// Arithmetic is exact: a result that does not fit in 32 bits stops the
    /// evaluation with `Overflow`, and an operand without an output stops it
    /// with `UnsetOutput`. When evaluation stops, the nodes before the failing
    /// one keep their new outputs and the others are left as they were. When
    /// `input_node` names no node, nothing changes. After a success every
    /// node holds its algebraic value and every constraint is satisfied.
    pub fn fill_nodes(&mut self, input_node: usize, input_val: u32) -> (r: Result<(), GraphError>)
        requires
            old(self).wf(),
        ensures
            final(self).wf(),
            r == fill_status(old(self)@, input_node, input_val),
            final(self)@ == fill_graph(old(self)@, input_node, input_val),
            final(self)@.len() == old(self)@.len(),
            forall|i: int|
                0 <= i < old(self)@.len() ==> #[trigger] final(self)@[i] == old(self)@[i].with_output(
                    final(self)@[i].output,
                ),
            forall|i: int|
                0 <= i < old(self)@.len() && !old(self)@[i].is_computed() && i != input_node
                    ==> #[trigger] final(self)@[i] == old(self)@[i],
            r is Ok <==> {
                &&& input_node < old(self)@.len()
                &&& forall|i: int|
                    0 <= i < old(self)@.len() ==> evaluates(
                        old(self)@,
                        input_node as int,
                        input_val as nat,
                        i,
                    )
            },
            r is Ok ==> forall|i: int|
                0 <= i < final(self)@.len() ==> as_value(#[trigger] final(self)@[i].output)
                    == value(old(self)@, input_node as int, input_val as nat, i),
            r is Ok ==> check_result(final(self)@) == Ok::<bool, GraphError>(true),
    {
        let n = self.graph.len();
        if input_node >= n {
            return Err(GraphError::InvalidIndex { index: input_node });
        }
        let ghost before = self@;
        let ghost input = input_node as int;
        let ghost val = input_val as nat;
        let mut designated = self.graph[input_node];
        designated.output = Some(input_val);
        self.graph.set(input_node, designated);
        assert(self@ =~= filled(before, input, input_val, 0));
        let mut i: usize = 0;
        while i < n
            invariant
                i <= n,
                n == before.len(),
                0 <= input < n,
                input == input_node as int,
                val == input_val as nat,
                before == old(self)@,
                well_formed(before),
                self@ == filled(before, input, input_val, i as int),
                forall|j: int| 0 <= j < i ==> evaluates(before, input, val, j),
                first_failure(before, input, val, 0) == first_failure(before, input, val, i as int),
            decreases n - i,
        {
            let node = self.graph[i];
            assert(node_wf(before[i as int], i as int));
            if let (Some(a), Some(b)) = node.inputs {
                proof {
                    assert(evaluates(before, input, val, a as int));
                    assert(evaluates(before, input, val, b as int));
                    assert(as_value(self@[a as int].output) == value(before, input, val, a as int));
                    assert(as_value(self@[b as int].output) == value(before, input, val, b as int));
                }
                let x = match self.graph[a].output {
                    Some(x) => x,
                    None => {
                        return Err(GraphError::UnsetOutput { node: a });
                    },
                };
                let y = match self.graph[b].output {
                    Some(y) => y,
                    None => {
                        return Err(GraphError::UnsetOutput { node: b });
                    },
                };
                if let Some(op) = node.op {
                    let z = match op.checked_apply(x, y) {
                        Some(z) => z,
                        None => {
                            return Err(GraphError::Overflow { node: i });
                        },
                    };
                    let mut computed = node;
                    computed.output = Some(z);
                    self.graph.set(i, computed);
                }
            }
            assert(self@ =~= filled(before, input, input_val, i as int + 1));
            i += 1;
        }
        proof {
            assert forall|j: int| 0 <= j < self@.len() implies as_value(#[trigger] self@[j].output)
                == value(before, input, val, j) by {
                assert(evaluates(before, input, val, j));
            }
            lemma_fill_then_check(before, input_node, input_val);
        }
        Ok(())
    }

    /// Validates the filled graph: every computed node must hold exactly its
    /// operation applied to the outputs of its operands.
    ///
    /// Returns `Ok(true)` exactly when that is so. Otherwise the error comes
    /// from the first node, in ascending order, whose constraint fails: an
    /// output that is missing, a recomputed result that does not fit in 32
    /// bits, or a stored output that differs from the recomputed one.
    pub fn check_constraints(&self) -> (r: Result<bool, GraphError>)
        requires
            self.wf(),
        ensures
            r == check_result(self@),
            r is Ok <==> forall|i: int| 0 <= i < self@.len() ==> consistent(self@, i),
            r is Ok ==> r == Ok::<bool, GraphError>(true),
    {
        let n = self.graph.len();
        let mut i: usize = 0;
        while i < n
            invariant
                i <= n,
                n == self@.len(),
                self.wf(),
                forall|j: int| 0 <= j < i ==> consistent(self@, j),
                first_violation(self@, 0) == first_violation(self@, i as int),
            decreases n - i,
        {
            let node = self.graph[i];
            assert(node_wf(self@[i as int], i as int));
            if let (Some(a), Some(b)) = node.inputs {
                let x = match self.graph[a].output {
                    Some(x) => x,
                    None => {
                        return Err(GraphError::UnsetOutput { node: a });
                    },
                };
                let y = match self.graph[b].output {
                    Some(y) => y,
                    None => {
                        return Err(GraphError::UnsetOutput { node: b });
                    },
                };
                if let Some(op) = node.op {
                    let expected = match op.checked_apply(x, y) {
                        Some(z) => z,
                        None => {
                            return Err(GraphError::Overflow { node: i });
                        },
                    };
                    let actual = match node.output {
                        Some(z) => z,
                        None => {
                            return Err(GraphError::UnsetOutput { node: i });
                        },
                    };
                    if actual != expected {
                        return Err(
                            GraphError::ConstraintViolation {
                                node: i,
                                expected: expected,
                                actual: actual,
                            },
                        );
                    }
                }
            }
            i += 1;
        }
        Ok(true)
    }

    /// Returns a copy of the node at `id`.
    pub fn get_node(self, id: usize) -> (n: Node)
        requires
            id < self@.len(),
        ensures
            n == self@[id as int],
    {
        self.graph[id]
    }
}

} // verus!
