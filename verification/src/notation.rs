//! Which expressions the grammar can yield, and a way to write each of them.
//!
//! An expression is written with every operand in parentheses. Writing is a right inverse
//! of parsing, and what parsing yields can be written: so the grammar yields exactly the
//! expressions that can be written.

use crate::ast::{BinaryOperator, SpecExpression, UnaryOperator};
use crate::grammar::{
    accept, atom_grammar, climb, expect_grammar, expression_grammar, infix_of, join,
    lemma_expression_consumes, right_minimum, unary_operator_of, Symbol,
};
use crate::grouping::{binary, ends_expression, lemma_climb_ends, lemma_climb_joins};
use crate::token::{Literal, SpecToken};
use vstd::prelude::*;

verus! {

/// The token of a prefix operator.
pub open spec fn prefix_token(op: UnaryOperator) -> SpecToken {
    match op {
        UnaryOperator::Negative => SpecToken::Negative,
        UnaryOperator::Complement => SpecToken::Complement,
        UnaryOperator::Negation => SpecToken::Negation,
    }
}

/// The infix token of a binary operator, for the operators that have one.
pub open spec fn infix_token(op: BinaryOperator) -> Option<SpecToken> {
    match op {
        BinaryOperator::Multiplication => Some(SpecToken::Multiplication),
        BinaryOperator::Division => Some(SpecToken::Division),
        BinaryOperator::Addition => Some(SpecToken::Addition),
        BinaryOperator::Subtraction => Some(SpecToken::Negative),
        BinaryOperator::LessThan => Some(SpecToken::LessThan),
        BinaryOperator::LessThanEqual => Some(SpecToken::LessThanEqual),
        BinaryOperator::GreaterThan => Some(SpecToken::GreaterThan),
        BinaryOperator::GreaterThanEqual => Some(SpecToken::GreaterThanEqual),
        BinaryOperator::Equal => Some(SpecToken::Equal),
        BinaryOperator::NotEqual => Some(SpecToken::NotEqual),
        BinaryOperator::And => Some(SpecToken::And),
        BinaryOperator::Or => Some(SpecToken::Or),
        _ => None,
    }
}

/// The compound assignment token of a binary operator, for the operators that have one.
pub open spec fn compound_token(op: BinaryOperator) -> Option<SpecToken> {
    match op {
        BinaryOperator::Addition => Some(SpecToken::AssignAdd),
        BinaryOperator::Subtraction => Some(SpecToken::AssignSub),
        BinaryOperator::Multiplication => Some(SpecToken::AssignMul),
        BinaryOperator::Division => Some(SpecToken::AssignDiv),
        BinaryOperator::Modulo => Some(SpecToken::AssignMod),
        BinaryOperator::BitAnd => Some(SpecToken::AssignAnd),
        BinaryOperator::BitOr => Some(SpecToken::AssignOr),
        BinaryOperator::BitXor => Some(SpecToken::AssignXor),
        BinaryOperator::ShiftLeft => Some(SpecToken::AssignShiftLeft),
        BinaryOperator::ShiftRight => Some(SpecToken::AssignShiftRight),
        _ => None,
    }
}

/// Whether the expression can be written: each of its binary operators has an infix
/// token, or is the operator of an assignment `name = name op right` that a compound
/// assignment token can express.
pub open spec fn writable(e: SpecExpression) -> bool
    decreases e,
{
    match e {
        SpecExpression::Constant(_) => true,
        SpecExpression::Var(_) => true,
        SpecExpression::Unary(_, operand) => writable(*operand),
        SpecExpression::Binary(op, left, right) => infix_token(op) is Some && writable(*left)
            && writable(*right),
        SpecExpression::Assign(name, value) => match *value {
            SpecExpression::Binary(op, left, right) => (infix_token(op) is Some && writable(*left)
                && writable(*right)) || (compound_token(op) is Some && *left
                == SpecExpression::Var(name) && writable(*right)),
            _ => writable(*value),
        },
    }
}

/// The tokens `tokens` in parentheses.
pub open spec fn enclosed(tokens: Seq<SpecToken>) -> Seq<SpecToken> {
    seq![SpecToken::OpenParenthesis] + tokens + seq![SpecToken::CloseParenthesis]
}

/// The tokens of an expression, written with every operand in parentheses. An assignment
/// is written with `=` where its value can be written, and else with its compound token.
pub open spec fn written(e: SpecExpression) -> Seq<SpecToken>
    decreases e,
{
    match e {
        SpecExpression::Constant(c) => seq![SpecToken::Literal(Literal::Int(c->Int_0))],
        SpecExpression::Var(name) => seq![SpecToken::Identifier(name)],
        SpecExpression::Unary(op, operand) => seq![prefix_token(op)] + enclosed(
            written(*operand),
        ),
        SpecExpression::Binary(op, left, right) => enclosed(written(*left)) + seq![
            infix_token(op)->Some_0,
        ] + enclosed(written(*right)),
        SpecExpression::Assign(name, value) => match *value {
            SpecExpression::Binary(op, left, right) if !writable(*value) => seq![
                SpecToken::Identifier(name),
                compound_token(op)->Some_0,
            ] + enclosed(written(*right)),
            _ => seq![SpecToken::Identifier(name), SpecToken::Assign] + enclosed(written(*value)),
        },
    }
}

/// Whether the token is no infix token, so that it ends every expression.
pub open spec fn ends_all(tok: SpecToken) -> bool {
    infix_of(tok) is None
}

/// An expression in parentheses is an atom.
proof fn lemma_enclosed_atom(e: SpecExpression, rest: Seq<SpecToken>)
    requires
        rest.len() > 0,
        expression_grammar(written(e) + (seq![SpecToken::CloseParenthesis] + rest), 1) == accept(
            e,
            seq![SpecToken::CloseParenthesis] + rest,
        ),
    ensures
        atom_grammar(enclosed(written(e)) + rest) == accept(e, rest),
{
    let tokens = enclosed(written(e)) + rest;
    let closing = seq![SpecToken::CloseParenthesis] + rest;
    assert(tokens[0] == SpecToken::OpenParenthesis);
    assert(tokens.drop_first() =~= written(e) + closing);
    assert(closing[0] == SpecToken::CloseParenthesis);
    assert(closing.drop_first() =~= rest);
    assert(expect_grammar(closing, SpecToken::CloseParenthesis) == accept((), rest));
}

/// An expression in parentheses before a token that ends the expression is the whole
/// expression.
proof fn lemma_enclosed_expression(e: SpecExpression, rest: Seq<SpecToken>, min_precedence: nat)
    requires
        rest.len() > 0,
        ends_expression(rest[0], min_precedence),
        atom_grammar(enclosed(written(e)) + rest) == accept(e, rest),
    ensures
        expression_grammar(enclosed(written(e)) + rest, min_precedence) == accept(e, rest),
{
    lemma_expression_consumes(enclosed(written(e)) + rest, min_precedence);
    lemma_climb_ends(e, rest, min_precedence);
}

/// A variable or a constant parses back.
proof fn lemma_operand_parses_back(e: SpecExpression, rest: Seq<SpecToken>)
    requires
        e is Constant || e is Var,
        rest.len() > 0,
        ends_all(rest[0]),
    ensures
        expression_grammar(written(e) + rest, 1) == accept(e, rest),
{
    let tokens = written(e) + rest;
    assert(tokens[0] == written(e)[0]);
    assert(tokens.drop_first() =~= rest);
    assert(atom_grammar(tokens) == accept(e, rest));
    lemma_expression_consumes(tokens, 1);
    lemma_climb_ends(e, rest, 1);
}

/// A prefix operator before an operand in parentheses parses back.
proof fn lemma_unary_parses_back(op: UnaryOperator, operand: SpecExpression, rest: Seq<SpecToken>)
    requires
        rest.len() > 0,
        ends_all(rest[0]),
        atom_grammar(enclosed(written(operand)) + rest) == accept(operand, rest),
    ensures
        expression_grammar(written(SpecExpression::Unary(op, Box::new(operand))) + rest, 1)
            == accept(SpecExpression::Unary(op, Box::new(operand)), rest),
{
    let e = SpecExpression::Unary(op, Box::new(operand));
    let tokens = written(e) + rest;
    assert(tokens[0] == prefix_token(op));
    assert(tokens.drop_first() =~= enclosed(written(operand)) + rest);
    assert(unary_operator_of(tokens[0]) == Some(op));
    assert(atom_grammar(tokens) == accept(e, rest));
    lemma_expression_consumes(tokens, 1);
    lemma_climb_ends(e, rest, 1);
}

/// An infix token between operands in parentheses parses back.
proof fn lemma_binary_parses_back(
    op: BinaryOperator,
    left: SpecExpression,
    right: SpecExpression,
    rest: Seq<SpecToken>,
)
    requires
        rest.len() > 0,
        ends_all(rest[0]),
        infix_token(op) is Some,
        atom_grammar(
            enclosed(written(left)) + (seq![infix_token(op)->Some_0] + enclosed(written(right))
                + rest),
        ) == accept(left, seq![infix_token(op)->Some_0] + enclosed(written(right)) + rest),
        atom_grammar(enclosed(written(right)) + rest) == accept(right, rest),
    ensures
        expression_grammar(written(binary(op, left, right)) + rest, 1) == accept(
            binary(op, left, right),
            rest,
        ),
{
    let e = binary(op, left, right);
    let tokens = written(e) + rest;
    let infix = infix_token(op)->Some_0;
    let after = seq![infix] + enclosed(written(right)) + rest;
    assert(tokens =~= enclosed(written(left)) + after);
    lemma_expression_consumes(tokens, 1);
    assert(expression_grammar(tokens, 1) == climb(left, after, 1));
    assert(after[0] == infix);
    assert(after.drop_first() =~= enclosed(written(right)) + rest);
    assert(infix_of(infix) is Some);
    assert(infix_of(infix)->Some_0.symbol == Symbol::Binary(op));
    lemma_enclosed_expression(right, rest, right_minimum(infix_of(infix)->Some_0));
    lemma_climb_joins(left, after, 1, right, rest);
    lemma_climb_ends(e, rest, 1);
}

/// An assignment token between a variable and a value in parentheses parses back.
proof fn lemma_assignment_parses_back(
    name: Seq<char>,
    tok: SpecToken,
    operand: SpecExpression,
    rest: Seq<SpecToken>,
)
    requires
        rest.len() > 0,
        ends_all(rest[0]),
        infix_of(tok) matches Some(infix) && infix.symbol is Assign,
        atom_grammar(enclosed(written(operand)) + rest) == accept(operand, rest),
    ensures
        expression_grammar(
            seq![SpecToken::Identifier(name), tok] + enclosed(written(operand)) + rest,
            1,
        ) == accept(
            join(infix_of(tok)->Some_0.symbol, SpecExpression::Var(name), operand)->Some_0,
            rest,
        ),
{
    let variable = SpecExpression::Var(name);
    let tokens = seq![SpecToken::Identifier(name), tok] + enclosed(written(operand)) + rest;
    let after = seq![tok] + enclosed(written(operand)) + rest;
    assert(tokens[0] == SpecToken::Identifier(name));
    assert(tokens.drop_first() =~= after);
    assert(atom_grammar(tokens) == accept(variable, after));
    lemma_expression_consumes(tokens, 1);
    lemma_enclosed_expression(operand, rest, 1);
    assert(after[0] == tok);
    assert(after.drop_first() =~= enclosed(written(operand)) + rest);
    lemma_climb_joins(variable, after, 1, operand, rest);
    lemma_climb_ends(
        join(infix_of(tok)->Some_0.symbol, variable, operand)->Some_0,
        rest,
        1,
    );
}

/// Writing is undone by parsing: the tokens of a writable expression, before a token that
/// is no infix token, parse to the expression and leave what follows.
pub proof fn law_written_parses_back(e: SpecExpression, rest: Seq<SpecToken>)
    requires
        writable(e),
        rest.len() > 0,
        ends_all(rest[0]),
    ensures
        expression_grammar(written(e) + rest, 1) == accept(e, rest),
    decreases e,
{
    let closing = seq![SpecToken::CloseParenthesis] + rest;
    assert(closing[0] == SpecToken::CloseParenthesis);
    match e {
        SpecExpression::Constant(_) => {
            lemma_operand_parses_back(e, rest);
        },
        SpecExpression::Var(_) => {
            lemma_operand_parses_back(e, rest);
        },
        SpecExpression::Unary(op, operand) => {
            law_written_parses_back(*operand, closing);
            lemma_enclosed_atom(*operand, rest);
            lemma_unary_parses_back(op, *operand, rest);
        },
        SpecExpression::Binary(op, left, right) => {
            let after = seq![infix_token(op)->Some_0] + enclosed(written(*right)) + rest;
            let left_closing = seq![SpecToken::CloseParenthesis] + after;
            assert(left_closing[0] == SpecToken::CloseParenthesis);
            law_written_parses_back(*left, left_closing);
            lemma_enclosed_atom(*left, after);
            law_written_parses_back(*right, closing);
            lemma_enclosed_atom(*right, rest);
            lemma_binary_parses_back(op, *left, *right, rest);
        },
        SpecExpression::Assign(name, value) => {
            if writable(*value) {
                law_written_parses_back(*value, closing);
                lemma_enclosed_atom(*value, rest);
                lemma_assignment_parses_back(name, SpecToken::Assign, *value, rest);
            } else {
                let op = value->Binary_0;
                let right = *value->Binary_2;
                law_written_parses_back(right, closing);
                lemma_enclosed_atom(right, rest);
                lemma_assignment_parses_back(name, compound_token(op)->Some_0, right, rest);
            }
        },
    }
}

/// The node of an infix token and two writable expressions is writable.
proof fn lemma_join_writable(tok: SpecToken, left: SpecExpression, right: SpecExpression)
    requires
        infix_of(tok) is Some,
        writable(left),
        writable(right),
        join(infix_of(tok)->Some_0.symbol, left, right) is Some,
    ensures
        writable(join(infix_of(tok)->Some_0.symbol, left, right)->Some_0),
{
}

/// What parsing yields can be written.
pub proof fn law_parsed_is_writable(tokens: Seq<SpecToken>, min_precedence: nat)
    ensures
        atom_grammar(tokens).result matches Ok(e) ==> writable(e),
        expression_grammar(tokens, min_precedence).result matches Ok(e) ==> writable(e),
    decreases tokens.len(), 1nat,
{
    lemma_atom_writable(tokens);
    let first = atom_grammar(tokens);
    if first.result is Ok {
        lemma_expression_consumes(tokens, min_precedence);
        lemma_climb_writable(first.result->Ok_0, first.rest, min_precedence);
    }
}

proof fn lemma_atom_writable(tokens: Seq<SpecToken>)
    ensures
        atom_grammar(tokens).result matches Ok(e) ==> writable(e),
    decreases tokens.len(), 0nat,
{
    if tokens.len() > 0 {
        if unary_operator_of(tokens[0]) is Some {
            lemma_atom_writable(tokens.drop_first());
        } else if tokens[0] is OpenParenthesis {
            law_parsed_is_writable(tokens.drop_first(), 1);
        }
    }
}

proof fn lemma_climb_writable(left: SpecExpression, tokens: Seq<SpecToken>, min_precedence: nat)
    requires
        writable(left),
    ensures
        climb(left, tokens, min_precedence).result matches Ok(e) ==> writable(e),
    decreases tokens.len(), 0nat,
{
    if tokens.len() > 0 {
        match infix_of(tokens[0]) {
            Some(infix) if infix.precedence >= min_precedence => {
                law_parsed_is_writable(tokens.drop_first(), right_minimum(infix));
                lemma_expression_consumes(tokens.drop_first(), right_minimum(infix));
                let right = expression_grammar(tokens.drop_first(), right_minimum(infix));
                match right.result {
                    Err(_) => {},
                    Ok(operand) => match join(infix.symbol, left, operand) {
                        None => {},
                        Some(node) => {
                            lemma_join_writable(tokens[0], left, operand);
                            lemma_climb_writable(node, right.rest, min_precedence);
                        },
                    },
                }
            },
            _ => {},
        }
    }
}

} // verus!
