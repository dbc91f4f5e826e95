//! Jump targets: names made from a counter that only moves forward.

use crate::assembly::expression_assembly;
use crate::ast::SpecExpression;
use crate::text::{decimal, decimal_string, lemma_decimal_injective};
use vstd::prelude::*;
use vstd::string::StringExecFns;

verus! {

/// The name of the label with the given number.
pub open spec fn label_text(n: usize) -> Seq<char> {
    "__ccgen"@ + decimal(n as nat)
}

/// The number of the label that follows label `n`. The counter wraps around at the
/// largest number that it can hold.
pub open spec fn label_after(n: usize) -> usize {
    if n == usize::MAX {
        0
    } else {
        (n + 1) as usize
    }
}

/// Makes a fresh label from the counter and moves the counter on.
pub fn gen_label(counter: &mut usize) -> (label: String)
    ensures
        label@ == label_text(*old(counter)),
        *final(counter) == label_after(*old(counter)),
{
    let n = *counter;
    *counter = n.wrapping_add(1);
    let mut label = String::from_str("__ccgen");
    let digits = decimal_string(n as u64);
    label.append(digits.as_str());
    label
}

/// Labels with different numbers have different names: as long as the counter has not
/// wrapped around, no label is made twice.
pub proof fn lemma_labels_differ(a: usize, b: usize)
    requires
        label_text(a) == label_text(b),
    ensures
        a == b,
{
    let prefix = "__ccgen"@;
    assert(decimal(a as nat) =~= label_text(a).subrange(
        prefix.len() as int,
        label_text(a).len() as int,
    ));
    assert(decimal(b as nat) =~= label_text(b).subrange(
        prefix.len() as int,
        label_text(b).len() as int,
    ));
    lemma_decimal_injective(a as nat, b as nat);
}

/// The number of labels that an expression takes: two for each logical operator.
pub open spec fn labels_needed(e: SpecExpression) -> nat
    decreases e,
{
    match e {
        SpecExpression::Constant(_) => 0,
        SpecExpression::Var(_) => 0,
        SpecExpression::Unary(_, operand) => labels_needed(*operand),
        SpecExpression::Assign(_, value) => labels_needed(*value),
        SpecExpression::Binary(op, left, right) => labels_needed(*left) + labels_needed(
            *right,
        ) + if op.is_logical() {
            2nat
        } else {
            0nat
        },
    }
}

/// The counter only moves forward: unless it wraps around, an emission leaves it at
/// least where it was, and an emission without error moves it on by the number of labels
/// that the expression takes. With [`lemma_labels_differ`], the labels of one emission and
/// those of the next are all different.
pub proof fn lemma_labels_taken(e: SpecExpression, frame: Map<Seq<char>, usize>, labels: usize)
    requires
        labels + labels_needed(e) <= usize::MAX,
    ensures
        labels <= expression_assembly(e, frame, labels).labels <= labels + labels_needed(e),
        expression_assembly(e, frame, labels).text is Ok ==> expression_assembly(
            e,
            frame,
            labels,
        ).labels == labels + labels_needed(e),
    decreases e,
{
    match e {
        SpecExpression::Constant(_) => {},
        SpecExpression::Var(_) => {},
        SpecExpression::Unary(_, operand) => {
            lemma_labels_taken(*operand, frame, labels);
        },
        SpecExpression::Assign(_, value) => {
            lemma_labels_taken(*value, frame, labels);
        },
        SpecExpression::Binary(_, left, right) => {
            lemma_labels_taken(*left, frame, labels);
            let first = expression_assembly(*left, frame, labels);
            if first.text is Ok {
                lemma_labels_taken(*right, frame, first.labels);
            }
        },
    }
}

} // verus!
