//! How the grammar groups: binding powers, associativity and compound assignment.

use crate::ast::{BinaryOperator, Constant, SpecExpression};
use crate::grammar::{
    accept, atom_grammar, climb, expression_grammar, infix_of, join, lemma_expression_consumes,
    right_minimum, Infix, Symbol,
};
use crate::token::{Literal, SpecToken};
use vstd::prelude::*;

verus! {

/// The expression that a token is by itself: a variable or a constant.
pub open spec fn operand_of(tok: SpecToken) -> Option<SpecExpression> {
    match tok {
        SpecToken::Identifier(name) => Some(SpecExpression::Var(name)),
        SpecToken::Literal(Literal::Int(i)) => Some(SpecExpression::Constant(Constant::Int(i))),
        _ => None,
    }
}

/// Whether the token ends an expression of the given minimum: it is no infix token, or one
/// that binds less tightly.
pub open spec fn ends_expression(tok: SpecToken, min_precedence: nat) -> bool {
    match infix_of(tok) {
        None => true,
        Some(infix) => infix.precedence < min_precedence,
    }
}

/// The binary operator of an infix token that is no assignment.
pub open spec fn operator_of(tok: SpecToken) -> Option<BinaryOperator> {
    match infix_of(tok) {
        Some(Infix { symbol: Symbol::Binary(op), .. }) => Some(op),
        _ => None,
    }
}

/// The binding power of an infix token.
pub open spec fn power_of(tok: SpecToken) -> nat
    recommends
        infix_of(tok) is Some,
{
    infix_of(tok)->Some_0.precedence as nat
}

/// A node of a binary operator.
pub open spec fn binary(op: BinaryOperator, left: SpecExpression, right: SpecExpression) -> SpecExpression {
    SpecExpression::Binary(op, Box::new(left), Box::new(right))
}

/// A node of an assignment.
pub open spec fn assignment(name: Seq<char>, value: SpecExpression) -> SpecExpression {
    SpecExpression::Assign(name, Box::new(value))
}

/// A token that ends the expression stays in the stream.
pub proof fn lemma_climb_ends(left: SpecExpression, tokens: Seq<SpecToken>, min_precedence: nat)
    requires
        tokens.len() > 0,
        ends_expression(tokens[0], min_precedence),
    ensures
        climb(left, tokens, min_precedence) == accept(left, tokens),
{
}

/// An infix token that binds tightly enough takes the expression after it as its right
/// side, and the climb goes on from their node.
pub proof fn lemma_climb_joins(
    left: SpecExpression,
    tokens: Seq<SpecToken>,
    min_precedence: nat,
    right: SpecExpression,
    rest: Seq<SpecToken>,
)
    requires
        tokens.len() > 0,
        !ends_expression(tokens[0], min_precedence),
        expression_grammar(tokens.drop_first(), right_minimum(infix_of(tokens[0])->Some_0))
            == accept(right, rest),
        join(infix_of(tokens[0])->Some_0.symbol, left, right) is Some,
    ensures
        climb(left, tokens, min_precedence) == climb(
            join(infix_of(tokens[0])->Some_0.symbol, left, right)->Some_0,
            rest,
            min_precedence,
        ),
{
    lemma_expression_consumes(tokens.drop_first(), right_minimum(infix_of(tokens[0])->Some_0));
}

/// A variable or a constant before a token that ends the expression is the whole
/// expression.
pub proof fn lemma_single_operand(tokens: Seq<SpecToken>, min_precedence: nat)
    requires
        tokens.len() >= 2,
        operand_of(tokens[0]) is Some,
        ends_expression(tokens[1], min_precedence),
    ensures
        expression_grammar(tokens, min_precedence) == accept(
            operand_of(tokens[0])->Some_0,
            tokens.skip(1),
        ),
{
    assert(atom_grammar(tokens) == accept(operand_of(tokens[0])->Some_0, tokens.drop_first()));
    assert(tokens.drop_first() =~= tokens.skip(1));
    lemma_climb_ends(operand_of(tokens[0])->Some_0, tokens.skip(1), min_precedence);
}

/// Precedence and left associativity: in `a o b p c`, with variables or constants for
/// operands, the operator that binds tighter takes `b`; where both bind alike, the left one
/// does.
pub proof fn law_tighter_operator_takes_the_operand(tokens: Seq<SpecToken>)
    requires
        tokens.len() >= 6,
        operand_of(tokens[0]) is Some,
        operator_of(tokens[1]) is Some,
        operand_of(tokens[2]) is Some,
        operator_of(tokens[3]) is Some,
        operand_of(tokens[4]) is Some,
        ends_expression(tokens[5], 1),
    ensures
        expression_grammar(tokens, 1) == accept(
            if power_of(tokens[3]) > power_of(tokens[1]) {
                binary(
                    operator_of(tokens[1])->Some_0,
                    operand_of(tokens[0])->Some_0,
                    binary(
                        operator_of(tokens[3])->Some_0,
                        operand_of(tokens[2])->Some_0,
                        operand_of(tokens[4])->Some_0,
                    ),
                )
            } else {
                binary(
                    operator_of(tokens[3])->Some_0,
                    binary(
                        operator_of(tokens[1])->Some_0,
                        operand_of(tokens[0])->Some_0,
                        operand_of(tokens[2])->Some_0,
                    ),
                    operand_of(tokens[4])->Some_0,
                )
            },
            tokens.skip(5),
        ),
{
    let a = operand_of(tokens[0])->Some_0;
    let b = operand_of(tokens[2])->Some_0;
    let c = operand_of(tokens[4])->Some_0;
    let first = infix_of(tokens[1])->Some_0;
    let second = infix_of(tokens[3])->Some_0;
    let o = operator_of(tokens[1])->Some_0;
    let p = operator_of(tokens[3])->Some_0;
    assert(tokens.drop_first() =~= tokens.skip(1));
    assert(tokens.skip(1).drop_first() =~= tokens.skip(2));
    assert(tokens.skip(2).drop_first() =~= tokens.skip(3));
    assert(tokens.skip(3).drop_first() =~= tokens.skip(4));
    assert(tokens.skip(4).drop_first() =~= tokens.skip(5));
    assert(tokens.skip(2).skip(1) =~= tokens.skip(3));
    assert(tokens.skip(4).skip(1) =~= tokens.skip(5));
    assert(atom_grammar(tokens) == accept(a, tokens.skip(1)));
    assert(expression_grammar(tokens, 1) == climb(a, tokens.skip(1), 1));
    assert(right_minimum(first) == power_of(tokens[1]) + 1);
    assert(right_minimum(second) == power_of(tokens[3]) + 1);
    // The last operand ends wherever it is parsed.
    lemma_single_operand(tokens.skip(4), right_minimum(second));
    if power_of(tokens[3]) > power_of(tokens[1]) {
        // The second operator goes into the right side of the first.
        assert(atom_grammar(tokens.skip(2)) == accept(b, tokens.skip(3)));
        lemma_climb_joins(b, tokens.skip(3), right_minimum(first), c, tokens.skip(5));
        lemma_climb_ends(binary(p, b, c), tokens.skip(5), right_minimum(first));
        assert(expression_grammar(tokens.skip(2), right_minimum(first)) == accept(
            binary(p, b, c),
            tokens.skip(5),
        ));
        lemma_climb_joins(a, tokens.skip(1), 1, binary(p, b, c), tokens.skip(5));
        lemma_climb_ends(binary(o, a, binary(p, b, c)), tokens.skip(5), 1);
    } else {
        // The second operator ends the right side of the first.
        lemma_single_operand(tokens.skip(2), right_minimum(first));
        lemma_climb_joins(a, tokens.skip(1), 1, b, tokens.skip(3));
        lemma_climb_joins(binary(o, a, b), tokens.skip(3), 1, c, tokens.skip(5));
        lemma_climb_ends(binary(p, binary(o, a, b), c), tokens.skip(5), 1);
    }
}

/// Right associativity of assignment: `x = y = c` assigns to `x` the value of the
/// assignment to `y`.
pub proof fn law_assignment_groups_from_the_right(tokens: Seq<SpecToken>)
    requires
        tokens.len() >= 6,
        tokens[0] is Identifier,
        tokens[1] is Assign,
        tokens[2] is Identifier,
        tokens[3] is Assign,
        operand_of(tokens[4]) is Some,
        ends_expression(tokens[5], 1),
    ensures
        expression_grammar(tokens, 1) == accept(
            assignment(
                tokens[0]->Identifier_0,
                assignment(tokens[2]->Identifier_0, operand_of(tokens[4])->Some_0),
            ),
            tokens.skip(5),
        ),
{
    let x = tokens[0]->Identifier_0;
    let y = tokens[2]->Identifier_0;
    let c = operand_of(tokens[4])->Some_0;
    assert(tokens.drop_first() =~= tokens.skip(1));
    assert(tokens.skip(1).drop_first() =~= tokens.skip(2));
    assert(tokens.skip(2).drop_first() =~= tokens.skip(3));
    assert(tokens.skip(3).drop_first() =~= tokens.skip(4));
    assert(tokens.skip(4).skip(1) =~= tokens.skip(5));
    assert(atom_grammar(tokens) == accept(SpecExpression::Var(x), tokens.skip(1)));
    assert(atom_grammar(tokens.skip(2)) == accept(SpecExpression::Var(y), tokens.skip(3)));
    lemma_single_operand(tokens.skip(4), 1);
    lemma_climb_joins(SpecExpression::Var(y), tokens.skip(3), 1, c, tokens.skip(5));
    lemma_climb_ends(assignment(y, c), tokens.skip(5), 1);
    assert(expression_grammar(tokens.skip(2), 1) == accept(assignment(y, c), tokens.skip(5)));
    lemma_climb_joins(SpecExpression::Var(x), tokens.skip(1), 1, assignment(y, c), tokens.skip(5));
    lemma_climb_ends(assignment(x, assignment(y, c)), tokens.skip(5), 1);
}

/// The operator of a compound assignment token.
pub open spec fn compound_of(tok: SpecToken) -> Option<BinaryOperator> {
    match infix_of(tok) {
        Some(Infix { symbol: Symbol::Assign(Some(op)), .. }) => Some(op),
        _ => None,
    }
}

/// Compound assignment: `x op= c` is the assignment to `x` of `x op c`.
pub proof fn law_compound_assignment_unfolds(tokens: Seq<SpecToken>)
    requires
        tokens.len() >= 4,
        tokens[0] is Identifier,
        compound_of(tokens[1]) is Some,
        operand_of(tokens[2]) is Some,
        ends_expression(tokens[3], 1),
    ensures
        expression_grammar(tokens, 1) == accept(
            assignment(
                tokens[0]->Identifier_0,
                binary(
                    compound_of(tokens[1])->Some_0,
                    SpecExpression::Var(tokens[0]->Identifier_0),
                    operand_of(tokens[2])->Some_0,
                ),
            ),
            tokens.skip(3),
        ),
{
    let x = tokens[0]->Identifier_0;
    let op = compound_of(tokens[1])->Some_0;
    let c = operand_of(tokens[2])->Some_0;
    assert(tokens.drop_first() =~= tokens.skip(1));
    assert(tokens.skip(1).drop_first() =~= tokens.skip(2));
    assert(tokens.skip(2).skip(1) =~= tokens.skip(3));
    assert(atom_grammar(tokens) == accept(SpecExpression::Var(x), tokens.skip(1)));
    lemma_single_operand(tokens.skip(2), 1);
    lemma_climb_joins(SpecExpression::Var(x), tokens.skip(1), 1, c, tokens.skip(3));
    lemma_climb_ends(
        assignment(x, binary(op, SpecExpression::Var(x), c)),
        tokens.skip(3),
        1,
    );
}

/// Compound assignment, written out: where `op` has an infix token `o`, `x op= c` and
/// `x = x o c` are the same expression.
pub proof fn law_compound_assignment_is_plain_assignment(
    compound: Seq<SpecToken>,
    plain: Seq<SpecToken>,
)
    requires
        compound.len() >= 4,
        compound[0] is Identifier,
        compound_of(compound[1]) is Some,
        operand_of(compound[2]) is Some,
        ends_expression(compound[3], 1),
        plain.len() >= 6,
        plain[0] == compound[0],
        plain[1] is Assign,
        plain[2] == compound[0],
        operator_of(plain[3]) == compound_of(compound[1]),
        plain[4] == compound[2],
        ends_expression(plain[5], 1),
    ensures
        expression_grammar(compound, 1).result == expression_grammar(plain, 1).result,
{
    law_compound_assignment_unfolds(compound);
    let x = plain[0]->Identifier_0;
    let op = operator_of(plain[3])->Some_0;
    let c = operand_of(plain[4])->Some_0;
    let variable = SpecExpression::Var(x);
    assert(plain.drop_first() =~= plain.skip(1));
    assert(plain.skip(1).drop_first() =~= plain.skip(2));
    assert(plain.skip(2).drop_first() =~= plain.skip(3));
    assert(plain.skip(3).drop_first() =~= plain.skip(4));
    assert(plain.skip(4).skip(1) =~= plain.skip(5));
    assert(atom_grammar(plain) == accept(variable, plain.skip(1)));
    assert(atom_grammar(plain.skip(2)) == accept(variable, plain.skip(3)));
    lemma_single_operand(plain.skip(4), right_minimum(infix_of(plain[3])->Some_0));
    lemma_climb_joins(variable, plain.skip(3), 1, c, plain.skip(5));
    lemma_climb_ends(binary(op, variable, c), plain.skip(5), 1);
    assert(expression_grammar(plain.skip(2), 1) == accept(binary(op, variable, c), plain.skip(5)));
    lemma_climb_joins(variable, plain.skip(1), 1, binary(op, variable, c), plain.skip(5));
    lemma_climb_ends(assignment(x, binary(op, variable, c)), plain.skip(5), 1);
}

} // verus!
