//! Node records and the operations a computed node can carry.

use vstd::prelude::*;

verus! {

/// The operations that a computed node can apply to its two operands.
#[allow(non_camel_case_types)]
#[derive(Debug, Copy, Clone, PartialEq, Eq)]
pub enum OPERATION {
    ADD,
    MUL,
}

/// A node of the computation graph.
///
/// `inputs` holds the indices of the two operand nodes of a computed node and
/// is `(None, None)` for every other node. `op` is present exactly on computed
/// nodes. `output` is the node's current value, if it has one. `hint` is
/// present exactly on hint nodes and holds the index of the node that the
/// hint claims to correspond to.
#[derive(Debug, Copy, Clone, PartialEq, Eq)]
pub struct Node {
    pub id: usize,
    pub inputs: (Option<usize>, Option<usize>),
    pub op: Option<OPERATION>,
    pub output: Option<u32>,
    pub hint: Option<usize>,
}

impl OPERATION {
    /// The operation on mathematical integers, with no bound on the result.
    pub open spec fn apply(self, x: nat, y: nat) -> nat {
        match self {
            OPERATION::ADD => x + y,
            OPERATION::MUL => x * y,
        }
    }

    /// Applies the operation to two values, or returns `None` when the exact
    /// result does not fit in 32 bits.
    pub fn checked_apply(self, x: u32, y: u32) -> (r: Option<u32>)
        ensures
            r == (if self.apply(x as nat, y as nat) <= u32::MAX {
                Some(self.apply(x as nat, y as nat) as u32)
            } else {
                None
            }),
    {
        match self {
            OPERATION::ADD => x.checked_add(y),
            OPERATION::MUL => x.checked_mul(y),
        }
    }
}

impl Node {
    /// A node is computed when it names two operands.
    pub open spec fn is_computed(self) -> bool {
        self.inputs.0 is Some && self.inputs.1 is Some
    }

    /// Index of the left operand of a computed node.
    pub open spec fn left(self) -> int {
        self.inputs.0->0 as int
    }

    /// Index of the right operand of a computed node.
    pub open spec fn right(self) -> int {
        self.inputs.1->0 as int
    }

    /// The same node with another output.
    pub open spec fn with_output(self, output: Option<u32>) -> Node {
        Node { id: self.id, inputs: self.inputs, op: self.op, output: output, hint: self.hint }
    }
}

} // verus!
