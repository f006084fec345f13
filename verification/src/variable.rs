//! Handles for the wires of a constraint system.

use vstd::prelude::*;

verus! {

/// A wire of a constraint system.
#[derive(Clone, Copy, Debug, PartialEq, Eq, Structural)]
pub enum Variable {
    /// The `i`-th externally committed wire.
    Committed(usize),
    /// The left input of the `i`-th multiplication gate.
    MultiplierLeft(usize),
    /// The right input of the `i`-th multiplication gate.
    MultiplierRight(usize),
    /// The output of the `i`-th multiplication gate.
    MultiplierOutput(usize),
    /// The constant 1.
    One(),
}

/// The classes of wire that a constraint system allocates.
#[allow(non_camel_case_types)]
#[derive(Clone, Copy, Debug, PartialEq, Eq, Structural)]
pub enum VariableType {
    /// A committed wire.
    v,
    /// The left input of a multiplication gate.
    aL,
    /// The right input of a multiplication gate.
    aR,
    /// The output of a multiplication gate.
    aO,
}

impl Variable {
    /// Whether the wire exists in a system with `n` multiplication gates and
    /// `m` committed wires. The constant wire always exists.
    pub open spec fn in_range(self, n: nat, m: nat) -> bool {
        match self {
            Variable::Committed(i) => i < m,
            Variable::MultiplierLeft(i) => i < n,
            Variable::MultiplierRight(i) => i < n,
            Variable::MultiplierOutput(i) => i < n,
            Variable::One() => true,
        }
    }

    /// Whether the wire exists in a system with `n` multiplication gates and
    /// `m` committed wires.
    pub fn is_in_range(&self, n: usize, m: usize) -> (r: bool)
        ensures
            r == self.in_range(n as nat, m as nat),
    {
        match self {
            Variable::Committed(i) => *i < m,
            Variable::MultiplierLeft(i) => *i < n,
            Variable::MultiplierRight(i) => *i < n,
            Variable::MultiplierOutput(i) => *i < n,
            Variable::One() => true,
        }
    }

    /// The index of the wire in its class. The constant wire has the index
    /// 0.
    pub open spec fn index(self) -> int {
        match self {
            Variable::Committed(i) => i as int,
            Variable::MultiplierLeft(i) => i as int,
            Variable::MultiplierRight(i) => i as int,
            Variable::MultiplierOutput(i) => i as int,
            Variable::One() => 0,
        }
    }

    /// The `index`-th wire of the class `var_type`.
    pub fn new(var_type: VariableType, index: usize) -> (r: Variable)
        ensures
            r == Variable::spec_new(var_type, index),
    {
        match var_type {
            VariableType::v => Variable::Committed(index),
            VariableType::aL => Variable::MultiplierLeft(index),
            VariableType::aR => Variable::MultiplierRight(index),
            VariableType::aO => Variable::MultiplierOutput(index),
        }
    }

    /// The `index`-th wire of the class `var_type`.
    pub open spec fn spec_new(var_type: VariableType, index: usize) -> Variable {
        match var_type {
            VariableType::v => Variable::Committed(index),
            VariableType::aL => Variable::MultiplierLeft(index),
            VariableType::aR => Variable::MultiplierRight(index),
            VariableType::aO => Variable::MultiplierOutput(index),
        }
    }
}

} // verus!
