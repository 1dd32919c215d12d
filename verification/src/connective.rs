//! The logical connectives that a formula can apply.

use vstd::prelude::*;

verus! {

/// Negation: true exactly when the operand is false.
pub fn negation(a: bool) -> (out: bool)
    ensures
        out == !a,
{
    !a
}

/// Conjunction: true exactly when both operands are true.
pub fn conjunction(a: bool, b: bool) -> (out: bool)
    ensures
        out == (a && b),
{
    a && b
}

/// Disjunction: true exactly when at least one operand is true.
pub fn disjunction(a: bool, b: bool) -> (out: bool)
    ensures
        out == (a || b),
{
    a || b
}

/// Exclusive disjunction: true exactly when the operands differ.
pub fn exclusive_disjunction(a: bool, b: bool) -> (out: bool)
    ensures
        out == (a != b),
{
    a ^ b
}

/// Material conditional: false exactly when `a` is true and `b` is false.
pub fn material_condition(a: bool, b: bool) -> (out: bool)
    ensures
        out == (a ==> b),
{
    !a || b
}

/// Biconditional: true exactly when the operands agree.
pub fn logical_evidence(a: bool, b: bool) -> (out: bool)
    ensures
        out == (a <==> b),
{
    a == b
}

/// A connective of one operand.
#[derive(Clone, Copy, Debug, PartialEq, Eq, Structural)]
pub enum UnaryConnective {
    Negation,
}

/// A connective of two operands.
#[derive(Clone, Copy, Debug, PartialEq, Eq, Structural)]
pub enum BinaryConnective {
    Conjunction,
    Disjunction,
    ExclusiveDisjunction,
    MaterialCondition,
    LogicalEvidence,
}

impl UnaryConnective {
    /// The truth value that the connective gives for operand `a`.
    pub open spec fn value(self, a: bool) -> bool {
        match self {
            UnaryConnective::Negation => !a,
        }
    }

    /// Applies the connective to `a`.
    pub fn apply(self, a: bool) -> (out: bool)
        ensures
            out == self.value(a),
    {
        match self {
            UnaryConnective::Negation => negation(a),
        }
    }
}

impl BinaryConnective {
    /// The truth value that the connective gives for the operands `left`
    /// and `right`, in that order.
    pub open spec fn value(self, left: bool, right: bool) -> bool {
        match self {
            BinaryConnective::Conjunction => left && right,
            BinaryConnective::Disjunction => left || right,
            BinaryConnective::ExclusiveDisjunction => left != right,
            BinaryConnective::MaterialCondition => left ==> right,
            BinaryConnective::LogicalEvidence => left <==> right,
        }
    }

    /// Applies the connective to `left` and `right`, in that order.
    pub fn apply(self, left: bool, right: bool) -> (out: bool)
        ensures
            out == self.value(left, right),
    {
        match self {
            BinaryConnective::Conjunction => conjunction(left, right),
            BinaryConnective::Disjunction => disjunction(left, right),
            BinaryConnective::ExclusiveDisjunction => exclusive_disjunction(left, right),
            BinaryConnective::MaterialCondition => material_condition(left, right),
            BinaryConnective::LogicalEvidence => logical_evidence(left, right),
        }
    }
}

} // verus!
