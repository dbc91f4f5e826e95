//! The grammar, as functions from a sequence of tokens to what the parser makes of it.
//!
//! Each function returns the node that the tokens begin with, or the error that they run
//! into, together with the tokens that the parser leaves in the stream.

use crate::ast::{
    BinaryOperator, Constant, SpecExpression, SpecFunction, SpecStatement, UnaryOperator,
};
use crate::error::SpecError;
use crate::token::{Keyword, Literal, SpecToken};
use vstd::prelude::*;

verus! {

/// What parsing makes of a sequence of tokens.
pub struct Parsed<T> {
    /// The node, or the first error.
    pub result: Result<T, SpecError>,
    /// The tokens that are left in the stream.
    pub rest: Seq<SpecToken>,
}

/// Success with `value`, leaving `rest`.
pub open spec fn accept<T>(value: T, rest: Seq<SpecToken>) -> Parsed<T> {
    Parsed { result: Ok(value), rest }
}

/// Failure with `error`, leaving `rest`.
pub open spec fn reject<T>(error: SpecError, rest: Seq<SpecToken>) -> Parsed<T> {
    Parsed { result: Err(error), rest }
}

/// Failure on the first of `tokens`, which is none of `expected`. The error takes the tokens
/// that follow with it, so nothing is left in the stream.
pub open spec fn unexpected<T>(
    wanted: Seq<char>,
    expected: Seq<SpecToken>,
    tokens: Seq<SpecToken>,
) -> Parsed<T>
    recommends
        tokens.len() > 0,
{
    reject(
        SpecError::UnexpectedToken {
            wanted,
            expected,
            found: tokens[0],
            tokens: tokens.drop_first(),
        },
        Seq::empty(),
    )
}

/// Failure because the tokens have run out.
pub open spec fn ended<T>(wanted: Seq<char>) -> Parsed<T> {
    reject(SpecError::UnexpectedEnd { wanted }, Seq::empty())
}

/// Exactly the token `tok`.
pub open spec fn expect_grammar(tokens: Seq<SpecToken>, tok: SpecToken) -> Parsed<()> {
    if tokens.len() == 0 {
        ended(""@)
    } else if tokens[0] != tok {
        unexpected(""@, seq![tok], tokens)
    } else {
        accept((), tokens.drop_first())
    }
}

/// An integer literal.
pub open spec fn constant_grammar(tokens: Seq<SpecToken>) -> Parsed<Constant> {
    if tokens.len() == 0 {
        ended("Constant"@)
    } else {
        match tokens[0] {
            SpecToken::Literal(Literal::Int(i)) => accept(Constant::Int(i), tokens.drop_first()),
            _ => unexpected("Constant"@, seq![SpecToken::Literal(Literal::Int(0))], tokens),
        }
    }
}

/// The prefix operator that a token denotes, if any.
pub open spec fn unary_operator_of(tok: SpecToken) -> Option<UnaryOperator> {
    match tok {
        SpecToken::Complement => Some(UnaryOperator::Complement),
        SpecToken::Negative => Some(UnaryOperator::Negative),
        SpecToken::Negation => Some(UnaryOperator::Negation),
        _ => None,
    }
}

/// A prefix operator: `~`, `-` or `!`.
pub open spec fn unary_operator_grammar(tokens: Seq<SpecToken>) -> Parsed<UnaryOperator> {
    if tokens.len() == 0 {
        ended("UnaryOperator"@)
    } else {
        match unary_operator_of(tokens[0]) {
            Some(op) => accept(op, tokens.drop_first()),
            None => unexpected(
                "UnaryOperator"@,
                seq![SpecToken::Complement, SpecToken::Negation, SpecToken::Negative],
                tokens,
            ),
        }
    }
}

/// The arithmetic, bitwise or shift operator that a token denotes, if any.
pub open spec fn binary_operator_of(tok: SpecToken) -> Option<BinaryOperator> {
    match tok {
        SpecToken::Addition => Some(BinaryOperator::Addition),
        SpecToken::Negative => Some(BinaryOperator::Subtraction),
        SpecToken::Multiplication => Some(BinaryOperator::Multiplication),
        SpecToken::Division => Some(BinaryOperator::Division),
        SpecToken::Modulo => Some(BinaryOperator::Modulo),
        SpecToken::BitAnd => Some(BinaryOperator::BitAnd),
        SpecToken::BitOr => Some(BinaryOperator::BitOr),
        SpecToken::BitXor => Some(BinaryOperator::BitXor),
        SpecToken::ShiftLeft => Some(BinaryOperator::ShiftLeft),
        SpecToken::ShiftRight => Some(BinaryOperator::ShiftRight),
        _ => None,
    }
}

/// The tokens that denote an arithmetic, bitwise or shift operator.
pub open spec fn binary_operator_tokens() -> Seq<SpecToken> {
    seq![
        SpecToken::Addition,
        SpecToken::Negative,
        SpecToken::Multiplication,
        SpecToken::Division,
        SpecToken::Modulo,
        SpecToken::BitAnd,
        SpecToken::BitOr,
        SpecToken::BitXor,
        SpecToken::ShiftLeft,
        SpecToken::ShiftRight,
    ]
}

/// An arithmetic, bitwise or shift operator.
pub open spec fn binary_operator_grammar(tokens: Seq<SpecToken>) -> Parsed<BinaryOperator> {
    if tokens.len() == 0 {
        ended("BinaryOperator"@)
    } else {
        match binary_operator_of(tokens[0]) {
            Some(op) => accept(op, tokens.drop_first()),
            None => unexpected("BinaryOperator"@, binary_operator_tokens(), tokens),
        }
    }
}

/// What an infix token does to the expressions on its two sides.
#[derive(Clone, Copy)]
pub enum Symbol {
    /// It joins them with a binary operator.
    Binary(BinaryOperator),
    /// It assigns the right side to the variable on the left: plainly for `=`, and for
    /// `op=` after combining the variable's value with the right side by `op`.
    Assign(Option<BinaryOperator>),
}

/// How an infix token groups with its neighbours.
#[derive(Clone, Copy)]
pub struct Infix {
    pub symbol: Symbol,
    /// The binding power: a higher one binds tighter.
    pub precedence: u8,
    /// Whether a chain of such tokens groups from the right.
    pub right_associative: bool,
}

/// A left-associative binary operator of the given binding power.
pub open spec fn binary_infix(op: BinaryOperator, precedence: u8) -> Infix {
    Infix { symbol: Symbol::Binary(op), precedence, right_associative: false }
}

/// An assignment: right-associative, with the lowest binding power.
pub open spec fn assign_infix(op: Option<BinaryOperator>) -> Infix {
    Infix { symbol: Symbol::Assign(op), precedence: 1, right_associative: true }
}

/// The table of infix tokens. A token that is not in it ends the expression.
pub open spec fn infix_of(tok: SpecToken) -> Option<Infix> {
    match tok {
        SpecToken::Multiplication => Some(binary_infix(BinaryOperator::Multiplication, 12)),
        SpecToken::Division => Some(binary_infix(BinaryOperator::Division, 12)),
        SpecToken::Addition => Some(binary_infix(BinaryOperator::Addition, 11)),
        SpecToken::Negative => Some(binary_infix(BinaryOperator::Subtraction, 11)),
        SpecToken::LessThan => Some(binary_infix(BinaryOperator::LessThan, 9)),
        SpecToken::LessThanEqual => Some(binary_infix(BinaryOperator::LessThanEqual, 9)),
        SpecToken::GreaterThan => Some(binary_infix(BinaryOperator::GreaterThan, 9)),
        SpecToken::GreaterThanEqual => Some(binary_infix(BinaryOperator::GreaterThanEqual, 9)),
        SpecToken::Equal => Some(binary_infix(BinaryOperator::Equal, 8)),
        SpecToken::NotEqual => Some(binary_infix(BinaryOperator::NotEqual, 8)),
        SpecToken::And => Some(binary_infix(BinaryOperator::And, 4)),
        SpecToken::Or => Some(binary_infix(BinaryOperator::Or, 3)),
        SpecToken::Assign => Some(assign_infix(None)),
        SpecToken::AssignAdd => Some(assign_infix(Some(BinaryOperator::Addition))),
        SpecToken::AssignSub => Some(assign_infix(Some(BinaryOperator::Subtraction))),
        SpecToken::AssignMul => Some(assign_infix(Some(BinaryOperator::Multiplication))),
        SpecToken::AssignDiv => Some(assign_infix(Some(BinaryOperator::Division))),
        SpecToken::AssignMod => Some(assign_infix(Some(BinaryOperator::Modulo))),
        SpecToken::AssignAnd => Some(assign_infix(Some(BinaryOperator::BitAnd))),
        SpecToken::AssignOr => Some(assign_infix(Some(BinaryOperator::BitOr))),
        SpecToken::AssignXor => Some(assign_infix(Some(BinaryOperator::BitXor))),
        SpecToken::AssignShiftLeft => Some(assign_infix(Some(BinaryOperator::ShiftLeft))),
        SpecToken::AssignShiftRight => Some(assign_infix(Some(BinaryOperator::ShiftRight))),
        _ => None,
    }
}

/// The least binding power that an operator in the right operand may have.
pub open spec fn right_minimum(infix: Infix) -> nat {
    if infix.right_associative {
        infix.precedence as nat
    } else {
        infix.precedence as nat + 1
    }
}

/// The node that an infix token makes of the expressions on its two sides. An assignment
/// has none unless its left side is a variable; `x op= e` stands for `x = x op e`.
pub open spec fn join(symbol: Symbol, left: SpecExpression, right: SpecExpression) -> Option<
    SpecExpression,
> {
    match symbol {
        Symbol::Binary(op) => Some(SpecExpression::Binary(op, Box::new(left), Box::new(right))),
        Symbol::Assign(compound) => match left {
            SpecExpression::Var(name) => Some(
                SpecExpression::Assign(
                    name,
                    Box::new(
                        match compound {
                            None => right,
                            Some(op) => SpecExpression::Binary(
                                op,
                                Box::new(SpecExpression::Var(name)),
                                Box::new(right),
                            ),
                        },
                    ),
                ),
            ),
            _ => None,
        },
    }
}

/// The tokens with which an atom may begin, but for an identifier.
pub open spec fn atom_starters() -> Seq<SpecToken> {
    seq![
        SpecToken::Negative,
        SpecToken::Negation,
        SpecToken::Complement,
        SpecToken::OpenParenthesis,
        SpecToken::Literal(Literal::Empty),
    ]
}

/// An atom: a prefix operator before an atom, a literal, a variable, or an expression in
/// parentheses.
pub open spec fn atom_grammar(tokens: Seq<SpecToken>) -> Parsed<SpecExpression>
    decreases tokens.len(), 0nat,
{
    if tokens.len() == 0 {
        ended("Expression"@)
    } else if let Some(op) = unary_operator_of(tokens[0]) {
        let operand = atom_grammar(tokens.drop_first());
        match operand.result {
            Ok(e) => accept(SpecExpression::Unary(op, Box::new(e)), operand.rest),
            Err(_) => operand,
        }
    } else {
        match tokens[0] {
            SpecToken::Literal(_) => {
                let constant = constant_grammar(tokens);
                match constant.result {
                    Ok(c) => accept(SpecExpression::Constant(c), constant.rest),
                    Err(error) => reject(error, constant.rest),
                }
            },
            SpecToken::OpenParenthesis => closed(expression_grammar(tokens.drop_first(), 1)),
            SpecToken::Identifier(name) => accept(SpecExpression::Var(name), tokens.drop_first()),
            _ => unexpected("Expression atom"@, atom_starters(), tokens),
        }
    }
}

/// An expression that has been parsed, and then the token `tok`.
pub open spec fn followed_by(parsed: Parsed<SpecExpression>, tok: SpecToken) -> Parsed<
    SpecExpression,
> {
    match parsed.result {
        Err(_) => parsed,
        Ok(e) => {
            let end = expect_grammar(parsed.rest, tok);
            match end.result {
                Ok(_) => accept(e, end.rest),
                Err(error) => reject(error, end.rest),
            }
        },
    }
}

/// An expression that has been parsed, and then `)`.
pub open spec fn closed(parsed: Parsed<SpecExpression>) -> Parsed<SpecExpression> {
    followed_by(parsed, SpecToken::CloseParenthesis)
}

/// An expression that has been parsed, and then `;`.
pub open spec fn terminated(parsed: Parsed<SpecExpression>) -> Parsed<SpecExpression> {
    followed_by(parsed, SpecToken::Semicolon)
}

/// An expression whose infix tokens all have a binding power of at least `min_precedence`:
/// an atom, extended to the right as far as such tokens reach.
///
/// The comparison of lengths is there for the recursion to be well-founded. An atom always
/// takes a token ([`lemma_expression_consumes`]), so the comparison never fails.
pub open spec fn expression_grammar(tokens: Seq<SpecToken>, min_precedence: nat) -> Parsed<
    SpecExpression,
>
    decreases tokens.len(), 1nat,
{
    let first = atom_grammar(tokens);
    match first.result {
        Ok(left) if first.rest.len() < tokens.len() => climb(left, first.rest, min_precedence),
        _ => first,
    }
}

/// The expression that begins with `left`, which has been parsed, and goes on in `tokens`.
///
/// An infix token that binds at least as tightly as `min_precedence` takes `left` as its left
/// side and, as its right side, the expression that follows with the token's own minimum;
/// the node of the two is then extended in the same way. Any other token ends the
/// expression and stays in the stream. The comparison of lengths never fails, as in
/// [`expression_grammar`].
pub open spec fn climb(left: SpecExpression, tokens: Seq<SpecToken>, min_precedence: nat) -> Parsed<
    SpecExpression,
>
    decreases tokens.len(), 0nat,
{
    if tokens.len() == 0 {
        ended("Expression"@)
    } else {
        match infix_of(tokens[0]) {
            Some(infix) if infix.precedence >= min_precedence => {
                let right = expression_grammar(tokens.drop_first(), right_minimum(infix));
                match right.result {
                    Err(_) => right,
                    Ok(operand) => match join(infix.symbol, left, operand) {
                        None => reject(SpecError::InvalidSyntax, right.rest),
                        Some(node) => if right.rest.len() < tokens.len() {
                            climb(node, right.rest, min_precedence)
                        } else {
                            accept(node, right.rest)
                        },
                    },
                }
            },
            _ => accept(left, tokens),
        }
    }
}

/// A whole expression.
pub open spec fn full_expression_grammar(tokens: Seq<SpecToken>) -> Parsed<SpecExpression> {
    expression_grammar(tokens, 1)
}

/// The tokens with which a statement may begin.
pub open spec fn statement_starters() -> Seq<SpecToken> {
    seq![
        SpecToken::Keyword(Keyword::Return),
        SpecToken::Keyword(Keyword::Int),
        SpecToken::Identifier(""@),
    ]
}

/// What follows the keyword of a declaration: a name, and then `;` or an initializer. The
/// initializer is parsed as an assignment to the name, so it begins with the name itself.
pub open spec fn declaration_grammar(tokens: Seq<SpecToken>) -> Parsed<SpecStatement> {
    if tokens.len() == 0 {
        ended("Statement"@)
    } else {
        match tokens[0] {
            SpecToken::Identifier(name) => {
                if tokens.len() == 1 {
                    ended("Identifier"@)
                } else {
                    match tokens[1] {
                        SpecToken::Semicolon => accept(
                            SpecStatement::Declaration(name, None),
                            tokens.skip(2),
                        ),
                        SpecToken::Assign => {
                            let init = terminated(full_expression_grammar(tokens));
                            match init.result {
                                Ok(e) => accept(
                                    SpecStatement::Declaration(name, Some(e)),
                                    init.rest,
                                ),
                                Err(error) => reject(error, init.rest),
                            }
                        },
                        _ => unexpected(
                            "Statement part"@,
                            seq![SpecToken::Semicolon, SpecToken::Assign],
                            tokens.drop_first(),
                        ),
                    }
                }
            },
            _ => unexpected("Identifier"@, seq![SpecToken::Identifier("_"@)], tokens),
        }
    }
}

/// A statement: `return e;`, a declaration, or `e;`.
pub open spec fn statement_grammar(tokens: Seq<SpecToken>) -> Parsed<SpecStatement> {
    if tokens.len() == 0 {
        ended("Keyword"@)
    } else {
        match tokens[0] {
            SpecToken::Keyword(Keyword::Return) => {
                let value = terminated(full_expression_grammar(tokens.drop_first()));
                match value.result {
                    Ok(e) => accept(SpecStatement::Return(e), value.rest),
                    Err(error) => reject(error, value.rest),
                }
            },
            SpecToken::Keyword(Keyword::Int) => declaration_grammar(tokens.drop_first()),
            SpecToken::Identifier(_) | SpecToken::Literal(_) => {
                let effect = terminated(full_expression_grammar(tokens));
                match effect.result {
                    Ok(e) => accept(SpecStatement::Expression(e), effect.rest),
                    Err(error) => reject(error, effect.rest),
                }
            },
            _ => unexpected("Statement"@, statement_starters(), tokens),
        }
    }
}

/// The statements of a body up to its closing brace, after the statements `done`. The
/// comparison of lengths never fails: a statement always takes a token
/// ([`lemma_statement_consumes`]).
pub open spec fn body_grammar(tokens: Seq<SpecToken>, done: Seq<SpecStatement>) -> Parsed<
    Seq<SpecStatement>,
>
    decreases tokens.len(),
{
    if tokens.len() > 0 && tokens[0] == SpecToken::CloseBrace {
        accept(done, tokens.drop_first())
    } else {
        let next = statement_grammar(tokens);
        match next.result {
            Err(error) => reject(error, next.rest),
            Ok(statement) => if next.rest.len() < tokens.len() {
                body_grammar(next.rest, done.push(statement))
            } else {
                accept(done.push(statement), next.rest)
            },
        }
    }
}

/// The fixed tokens between a function's name and its body: `(`, `)` and `{`.
pub open spec fn header_grammar(tokens: Seq<SpecToken>) -> Parsed<()> {
    let open = expect_grammar(tokens, SpecToken::OpenParenthesis);
    match open.result {
        Err(_) => open,
        Ok(_) => {
            let close = expect_grammar(open.rest, SpecToken::CloseParenthesis);
            match close.result {
                Err(_) => close,
                Ok(_) => expect_grammar(close.rest, SpecToken::OpenBrace),
            }
        },
    }
}

/// A function: `int name ( ) { statements }`.
pub open spec fn function_grammar(tokens: Seq<SpecToken>) -> Parsed<SpecFunction> {
    let keyword = expect_grammar(tokens, SpecToken::Keyword(Keyword::Int));
    match keyword.result {
        Err(error) => reject(error, keyword.rest),
        Ok(_) => if keyword.rest.len() == 0 {
            ended("Function"@)
        } else {
            match keyword.rest[0] {
                SpecToken::Identifier(name) => {
                    let header = header_grammar(keyword.rest.drop_first());
                    match header.result {
                        Err(error) => reject(error, header.rest),
                        Ok(_) => {
                            let body = body_grammar(header.rest, Seq::empty());
                            match body.result {
                                Err(error) => reject(error, body.rest),
                                Ok(statements) => accept(
                                    SpecFunction { name, body: statements },
                                    body.rest,
                                ),
                            }
                        },
                    }
                },
                _ => reject(SpecError::InvalidSyntax, keyword.rest.drop_first()),
            }
        },
    }
}

/// Each successful parse takes at least one token, and none leaves more than it was given.
pub proof fn lemma_expression_consumes(tokens: Seq<SpecToken>, min_precedence: nat)
    ensures
        atom_grammar(tokens).rest.len() <= tokens.len(),
        atom_grammar(tokens).result is Ok ==> atom_grammar(tokens).rest.len() < tokens.len(),
        expression_grammar(tokens, min_precedence).rest.len() <= tokens.len(),
        expression_grammar(tokens, min_precedence).result is Ok ==> expression_grammar(
            tokens,
            min_precedence,
        ).rest.len() < tokens.len(),
    decreases tokens.len(), 1nat,
{
    lemma_atom_consumes(tokens);
    let first = atom_grammar(tokens);
    if first.result is Ok {
        lemma_climb_consumes(first.result->Ok_0, first.rest, min_precedence);
    }
}

proof fn lemma_atom_consumes(tokens: Seq<SpecToken>)
    ensures
        atom_grammar(tokens).rest.len() <= tokens.len(),
        atom_grammar(tokens).result is Ok ==> atom_grammar(tokens).rest.len() < tokens.len(),
    decreases tokens.len(), 0nat,
{
    if tokens.len() > 0 {
        if unary_operator_of(tokens[0]) is Some {
            lemma_atom_consumes(tokens.drop_first());
        } else if tokens[0] is OpenParenthesis {
            lemma_expression_consumes(tokens.drop_first(), 1);
        }
    }
}

proof fn lemma_climb_consumes(left: SpecExpression, tokens: Seq<SpecToken>, min_precedence: nat)
    ensures
        climb(left, tokens, min_precedence).rest.len() <= tokens.len(),
    decreases tokens.len(), 0nat,
{
    if tokens.len() > 0 {
        match infix_of(tokens[0]) {
            Some(infix) if infix.precedence >= min_precedence => {
                lemma_expression_consumes(tokens.drop_first(), right_minimum(infix));
                let right = expression_grammar(tokens.drop_first(), right_minimum(infix));
                match right.result {
                    Err(_) => {},
                    Ok(operand) => match join(infix.symbol, left, operand) {
                        None => {},
                        Some(node) => {
                            lemma_climb_consumes(node, right.rest, min_precedence);
                        },
                    },
                }
            },
            _ => {},
        }
    }
}

/// A statement that parses takes at least one token.
pub proof fn lemma_statement_consumes(tokens: Seq<SpecToken>)
    ensures
        statement_grammar(tokens).rest.len() <= tokens.len(),
        statement_grammar(tokens).result is Ok ==> statement_grammar(tokens).rest.len()
            < tokens.len(),
{
    if tokens.len() > 0 {
        lemma_expression_consumes(tokens, 1);
        lemma_expression_consumes(tokens.drop_first(), 1);
    }
}

} // verus!
