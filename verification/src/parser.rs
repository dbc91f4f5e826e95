//! The parser: recursive descent over the token stream, with precedence climbing for
//! expressions.

use crate::ast::{
    statement_views, BinaryOperator, Constant, Expression, Function, Program, SpecExpression,
    SpecFunction, SpecStatement, Statement, UnaryOperator,
};
use crate::error::{Error, SpecError};
use crate::grammar::{
    assign_infix, atom_grammar, atom_starters, binary_infix, binary_operator_grammar,
    binary_operator_tokens, body_grammar, climb, constant_grammar, expect_grammar,
    expression_grammar, full_expression_grammar, function_grammar, infix_of, join,
    lemma_expression_consumes, lemma_statement_consumes, right_minimum, statement_grammar,
    statement_starters, terminated, unary_operator_grammar, Infix, Parsed, Symbol,
};
use crate::stream::{advance, remaining, restore, take_rest, token_stream, TokenStream};
use crate::token::{token_views, Keyword, Literal, SpecToken, Token};
use vstd::prelude::*;
use vstd::string::StringExecFns;

verus! {

/// Whether a parser's result and the tokens it left agree with what the grammar says.
pub open spec fn parse_agrees<T: View>(
    result: Result<T, Error>,
    rest: Seq<SpecToken>,
    parsed: Parsed<T::V>,
) -> bool {
    &&& rest == parsed.rest
    &&& match result {
        Ok(node) => parsed.result == Ok::<T::V, SpecError>(node@),
        Err(error) => parsed.result == Err::<T::V, SpecError>(error@),
    }
}

/// The error for a token that cannot stand where it was found. It takes with it what the
/// stream still held.
pub fn unexpected_token(
    t: &mut TokenStream,
    wanted: &'static str,
    expected: Vec<Token>,
    found: Token,
) -> (error: Error)
    ensures
        error@ == (SpecError::UnexpectedToken {
            wanted: wanted@,
            expected: token_views(expected@),
            found: found@,
            tokens: remaining(*old(t)),
        }),
        remaining(*final(t)) == Seq::<SpecToken>::empty(),
{
    let tokens = take_rest(t);
    Error::UnexpectedToken { wanted, expected, found, tokens }
}

/// Takes the next token, which has to be `tok`.
pub fn consume_token(t: &mut TokenStream, tok: Token) -> (r: Result<(), Error>)
    ensures
        parse_agrees(r, remaining(*final(t)), expect_grammar(remaining(*old(t)), tok@)),
{
    match advance(t) {
        None => Err(Error::UnexpectedEnd { wanted: "" }),
        Some(next) => {
            if next != tok {
                let expected = vec![tok];
                assert(token_views(expected@) =~= seq![tok@]);
                Err(unexpected_token(t, "", expected, next))
            } else {
                Ok(())
            }
        },
    }
}

/// Parses an integer literal.
pub fn parse_constant(t: &mut TokenStream) -> (r: Result<Constant, Error>)
    ensures
        parse_agrees(r, remaining(*final(t)), constant_grammar(remaining(*old(t)))),
{
    match advance(t) {
        None => Err(Error::UnexpectedEnd { wanted: "Constant" }),
        Some(Token::Literal(Literal::Int(i))) => Ok(Constant::Int(i)),
        Some(tok) => {
            let expected = vec![Token::Literal(Literal::Int(0))];
            assert(token_views(expected@) =~= seq![SpecToken::Literal(Literal::Int(0))]);
            Err(unexpected_token(t, "Constant", expected, tok))
        },
    }
}

/// Parses a prefix operator.
pub fn parse_unary_operator(t: &mut TokenStream) -> (r: Result<UnaryOperator, Error>)
    ensures
        parse_agrees(r, remaining(*final(t)), unary_operator_grammar(remaining(*old(t)))),
{
    match advance(t) {
        None => Err(Error::UnexpectedEnd { wanted: "UnaryOperator" }),
        Some(Token::Complement) => Ok(UnaryOperator::Complement),
        Some(Token::Negative) => Ok(UnaryOperator::Negative),
        Some(Token::Negation) => Ok(UnaryOperator::Negation),
        Some(tok) => {
            let expected = vec![Token::Complement, Token::Negation, Token::Negative];
            assert(token_views(expected@) =~= seq![
                SpecToken::Complement,
                SpecToken::Negation,
                SpecToken::Negative,
            ]);
            Err(unexpected_token(t, "UnaryOperator", expected, tok))
        },
    }
}

/// Parses an arithmetic, bitwise or shift operator.
pub fn parse_binary_operator(t: &mut TokenStream) -> (r: Result<BinaryOperator, Error>)
    ensures
        parse_agrees(r, remaining(*final(t)), binary_operator_grammar(remaining(*old(t)))),
{
    match advance(t) {
        None => Err(Error::UnexpectedEnd { wanted: "BinaryOperator" }),
        Some(Token::Addition) => Ok(BinaryOperator::Addition),
        Some(Token::Negative) => Ok(BinaryOperator::Subtraction),
        Some(Token::Multiplication) => Ok(BinaryOperator::Multiplication),
        Some(Token::Division) => Ok(BinaryOperator::Division),
        Some(Token::Modulo) => Ok(BinaryOperator::Modulo),
        Some(Token::BitAnd) => Ok(BinaryOperator::BitAnd),
        Some(Token::BitOr) => Ok(BinaryOperator::BitOr),
        Some(Token::BitXor) => Ok(BinaryOperator::BitXor),
        Some(Token::ShiftLeft) => Ok(BinaryOperator::ShiftLeft),
        Some(Token::ShiftRight) => Ok(BinaryOperator::ShiftRight),
        Some(tok) => {
            let expected = vec![
                Token::Addition,
                Token::Negative,
                Token::Multiplication,
                Token::Division,
                Token::Modulo,
                Token::BitAnd,
                Token::BitOr,
                Token::BitXor,
                Token::ShiftLeft,
                Token::ShiftRight,
            ];
            assert(token_views(expected@) =~= binary_operator_tokens());
            Err(unexpected_token(t, "BinaryOperator", expected, tok))
        },
    }
}

/// Looks a token up in the table of infix tokens.
pub fn lookup_infix(tok: &Token) -> (r: Option<Infix>)
    ensures
        r == infix_of(tok@),
{
    match tok {
        Token::Multiplication => Some(left_infix(BinaryOperator::Multiplication, 12)),
        Token::Division => Some(left_infix(BinaryOperator::Division, 12)),
        Token::Addition => Some(left_infix(BinaryOperator::Addition, 11)),
        Token::Negative => Some(left_infix(BinaryOperator::Subtraction, 11)),
        Token::LessThan => Some(left_infix(BinaryOperator::LessThan, 9)),
        Token::LessThanEqual => Some(left_infix(BinaryOperator::LessThanEqual, 9)),
        Token::GreaterThan => Some(left_infix(BinaryOperator::GreaterThan, 9)),
        Token::GreaterThanEqual => Some(left_infix(BinaryOperator::GreaterThanEqual, 9)),
        Token::Equal => Some(left_infix(BinaryOperator::Equal, 8)),
        Token::NotEqual => Some(left_infix(BinaryOperator::NotEqual, 8)),
        Token::And => Some(left_infix(BinaryOperator::And, 4)),
        Token::Or => Some(left_infix(BinaryOperator::Or, 3)),
        Token::Assign => Some(right_infix(None)),
        Token::AssignAdd => Some(right_infix(Some(BinaryOperator::Addition))),
        Token::AssignSub => Some(right_infix(Some(BinaryOperator::Subtraction))),
        Token::AssignMul => Some(right_infix(Some(BinaryOperator::Multiplication))),
        Token::AssignDiv => Some(right_infix(Some(BinaryOperator::Division))),
        Token::AssignMod => Some(right_infix(Some(BinaryOperator::Modulo))),
        Token::AssignAnd => Some(right_infix(Some(BinaryOperator::BitAnd))),
        Token::AssignOr => Some(right_infix(Some(BinaryOperator::BitOr))),
        Token::AssignXor => Some(right_infix(Some(BinaryOperator::BitXor))),
        Token::AssignShiftLeft => Some(right_infix(Some(BinaryOperator::ShiftLeft))),
        Token::AssignShiftRight => Some(right_infix(Some(BinaryOperator::ShiftRight))),
        _ => None,
    }
}

fn left_infix(op: BinaryOperator, precedence: u8) -> (r: Infix)
    ensures
        r == binary_infix(op, precedence),
{
    Infix { symbol: Symbol::Binary(op), precedence, right_associative: false }
}

fn right_infix(op: Option<BinaryOperator>) -> (r: Infix)
    ensures
        r == assign_infix(op),
{
    Infix { symbol: Symbol::Assign(op), precedence: 1, right_associative: true }
}

/// Makes the node of an infix token and the expressions on its two sides. There is none
/// for an assignment whose left side is not a variable.
pub fn join_nodes(symbol: Symbol, left: Expression, right: Expression) -> (r: Option<Expression>)
    ensures
        match r {
            Some(node) => join(symbol, left@, right@) == Some(node@),
            None => join(symbol, left@, right@) is None,
        },
{
    match symbol {
        Symbol::Binary(op) => Some(Expression::Binary(op, Box::new(left), Box::new(right))),
        Symbol::Assign(compound) => match left {
            Expression::Var(name) => {
                let value = match compound {
                    None => right,
                    Some(op) => {
                        let variable = Expression::Var(name.clone());
                        assert(variable@ == SpecExpression::Var(name@));
                        Expression::Binary(op, Box::new(variable), Box::new(right))
                    },
                };
                assert(compound is Some ==> value@ == SpecExpression::Binary(
                    compound->Some_0,
                    Box::new(SpecExpression::Var(name@)),
                    Box::new(right@),
                ));
                Some(Expression::Assign(name, Box::new(value)))
            },
            _ => None,
        },
    }
}

/// Parses an atom: a prefix operator before an atom, a literal, a variable, or an
/// expression in parentheses.
pub fn parse_atom(t: &mut TokenStream) -> (r: Result<Expression, Error>)
    ensures
        parse_agrees(r, remaining(*final(t)), atom_grammar(remaining(*old(t)))),
    decreases remaining(*old(t)).len(), 0nat,
{
    match advance(t) {
        None => Err(Error::UnexpectedEnd { wanted: "Expression" }),
        Some(tok) => match tok {
            Token::Negative | Token::Negation | Token::Complement => {
                restore(t, tok);
                assert(remaining(*t) =~= remaining(*old(t)));
                let op = parse_unary_operator(t)?;
                let operand = parse_atom(t)?;
                Ok(Expression::Unary(op, Box::new(operand)))
            },
            Token::Literal(_) => {
                restore(t, tok);
                assert(remaining(*t) =~= remaining(*old(t)));
                let constant = parse_constant(t)?;
                Ok(Expression::Constant(constant))
            },
            Token::OpenParenthesis => {
                let inner = parse_expr(t, 1)?;
                consume_token(t, Token::CloseParenthesis)?;
                Ok(inner)
            },
            Token::Identifier(name) => Ok(Expression::Var(name)),
            tok => {
                let expected = vec![
                    Token::Negative,
                    Token::Negation,
                    Token::Complement,
                    Token::OpenParenthesis,
                    Token::Literal(Literal::Empty),
                ];
                assert(token_views(expected@) =~= atom_starters());
                Err(unexpected_token(t, "Expression atom", expected, tok))
            },
        },
    }
}

/// Parses an expression whose infix tokens all bind at least as tightly as
/// `min_precedence`, by precedence climbing.
pub fn parse_expr(t: &mut TokenStream, min_precedence: u8) -> (r: Result<Expression, Error>)
    ensures
        parse_agrees(
            r,
            remaining(*final(t)),
            expression_grammar(remaining(*old(t)), min_precedence as nat),
        ),
    decreases remaining(*old(t)).len(), 1nat,
{
    let ghost start = remaining(*t);
    let mut left = parse_atom(t)?;
    proof {
        lemma_expression_consumes(start, min_precedence as nat);
    }
    loop
        invariant
            start == remaining(*old(t)),
            remaining(*t).len() < start.len(),
            climb(left@, remaining(*t), min_precedence as nat) == expression_grammar(
                start,
                min_precedence as nat,
            ),
        decreases remaining(*t).len(),
    {
        let ghost here = remaining(*t);
        let tok = match advance(t) {
            None => {
                return Err(Error::UnexpectedEnd { wanted: "Expression" });
            },
            Some(tok) => tok,
        };
        let infix = match lookup_infix(&tok) {
            Some(infix) if infix.precedence >= min_precedence => infix,
            _ => {
                restore(t, tok);
                assert(remaining(*t) =~= here);
                return Ok(left);
            },
        };
        let next_minimum = if infix.right_associative {
            infix.precedence
        } else {
            infix.precedence + 1
        };
        let right = parse_expr(t, next_minimum)?;
        proof {
            lemma_expression_consumes(here.drop_first(), right_minimum(infix));
        }
        left =
        match join_nodes(infix.symbol, left, right) {
            Some(node) => node,
            None => {
                return Err(Error::InvalidSyntax);
            },
        };
    }
}

/// Parses a whole expression.
pub fn parse_expression(t: &mut TokenStream) -> (r: Result<Expression, Error>)
    ensures
        parse_agrees(r, remaining(*final(t)), full_expression_grammar(remaining(*old(t)))),
{
    parse_expr(t, 1)
}

/// Parses a whole expression and the `;` after it.
pub fn parse_terminated(t: &mut TokenStream) -> (r: Result<Expression, Error>)
    ensures
        parse_agrees(
            r,
            remaining(*final(t)),
            terminated(full_expression_grammar(remaining(*old(t)))),
        ),
{
    let e = parse_expression(t)?;
    consume_token(t, Token::Semicolon)?;
    Ok(e)
}

/// Parses a statement: `return e;`, a declaration, or `e;`.
pub fn parse_statement(t: &mut TokenStream) -> (r: Result<Statement, Error>)
    ensures
        parse_agrees(r, remaining(*final(t)), statement_grammar(remaining(*old(t)))),
{
    let ghost start = remaining(*t);
    let first = match advance(t) {
        None => {
            return Err(Error::UnexpectedEnd { wanted: "Keyword" });
        },
        Some(first) => first,
    };
    match first {
        Token::Keyword(Keyword::Return) => Ok(Statement::Return(parse_terminated(t)?)),
        Token::Keyword(Keyword::Int) => {
            let second = match advance(t) {
                None => {
                    return Err(Error::UnexpectedEnd { wanted: "Statement" });
                },
                Some(second) => second,
            };
            let name = match second {
                Token::Identifier(name) => name,
                tok => {
                    let expected = vec![Token::Identifier(String::from_str("_"))];
                    assert(token_views(expected@) =~= seq![SpecToken::Identifier("_"@)]);
                    return Err(unexpected_token(t, "Identifier", expected, tok));
                },
            };
            let third = match advance(t) {
                None => {
                    return Err(Error::UnexpectedEnd { wanted: "Identifier" });
                },
                Some(third) => third,
            };
            match third {
                Token::Semicolon => {
                    assert(remaining(*t) =~= start.drop_first().skip(2));
                    Ok(Statement::Declaration(name, None))
                },
                Token::Assign => {
                    restore(t, Token::Assign);
                    restore(t, Token::Identifier(name.clone()));
                    assert(remaining(*t) =~= start.drop_first());
                    let init = parse_terminated(t)?;
                    Ok(Statement::Declaration(name, Some(init)))
                },
                tok => {
                    let expected = vec![Token::Semicolon, Token::Assign];
                    assert(token_views(expected@) =~= seq![
                        SpecToken::Semicolon,
                        SpecToken::Assign,
                    ]);
                    Err(unexpected_token(t, "Statement part", expected, tok))
                },
            }
        },
        Token::Identifier(_) | Token::Literal(_) => {
            restore(t, first);
            assert(remaining(*t) =~= start);
            Ok(Statement::Expression(parse_terminated(t)?))
        },
        tok => {
            let expected = vec![
                Token::Keyword(Keyword::Return),
                Token::Keyword(Keyword::Int),
                Token::Identifier(String::from_str("")),
            ];
            assert(token_views(expected@) =~= statement_starters());
            Err(unexpected_token(t, "Statement", expected, tok))
        },
    }
}

/// Parses the statements of a body up to its closing brace, which it takes too.
pub fn parse_body(t: &mut TokenStream) -> (r: Result<Vec<Statement>, Error>)
    ensures
        remaining(*final(t)) == body_grammar(remaining(*old(t)), Seq::empty()).rest,
        match r {
            Ok(body) => body_grammar(remaining(*old(t)), Seq::empty()).result == Ok::<
                Seq<SpecStatement>,
                SpecError,
            >(statement_views(body@)),
            Err(error) => body_grammar(remaining(*old(t)), Seq::empty()).result == Err::<
                Seq<SpecStatement>,
                SpecError,
            >(error@),
        },
{
    let mut body: Vec<Statement> = Vec::new();
    assert(statement_views(body@) =~= Seq::<SpecStatement>::empty());
    loop
        invariant
            body_grammar(remaining(*t), statement_views(body@)) == body_grammar(
                remaining(*old(t)),
                Seq::empty(),
            ),
        decreases remaining(*t).len(),
    {
        let ghost here = remaining(*t);
        match advance(t) {
            Some(Token::CloseBrace) => {
                return Ok(body);
            },
            Some(tok) => {
                restore(t, tok);
                assert(remaining(*t) =~= here);
            },
            None => {},
        }
        let statement = parse_statement(t)?;
        proof {
            lemma_statement_consumes(here);
            assert(statement_views(body@.push(statement))
                =~= statement_views(body@).push(statement@));
        }
        body.push(statement);
    }
}

/// Parses a function: `int name ( ) { statements }`.
pub fn parse_function(t: &mut TokenStream) -> (r: Result<Function, Error>)
    ensures
        parse_agrees(r, remaining(*final(t)), function_grammar(remaining(*old(t)))),
{
    consume_token(t, Token::Keyword(Keyword::Int))?;
    let name = match advance(t) {
        None => {
            return Err(Error::UnexpectedEnd { wanted: "Function" });
        },
        Some(Token::Identifier(name)) => name,
        Some(_) => {
            return Err(Error::InvalidSyntax);
        },
    };
    consume_token(t, Token::OpenParenthesis)?;
    consume_token(t, Token::CloseParenthesis)?;
    consume_token(t, Token::OpenBrace)?;
    let body = parse_body(t)?;
    Ok(Function { name, body })
}

/// Parses a program: one function.
pub fn parse_program(t: &mut TokenStream) -> (r: Result<Program, Error>)
    ensures
        parse_agrees(r, remaining(*final(t)), function_grammar(remaining(*old(t)))),
{
    Ok(Program(parse_function(t)?))
}

/// Parses a program from its tokens. Tokens after the function's closing brace are
/// ignored.
pub fn parse(t: Vec<Token>) -> (r: Result<Program, Error>)
    ensures
        match r {
            Ok(program) => function_grammar(token_views(t@)).result == Ok::<
                SpecFunction,
                SpecError,
            >(program@),
            Err(error) => function_grammar(token_views(t@)).result == Err::<
                SpecFunction,
                SpecError,
            >(error@),
        },
{
    let mut stream = token_stream(t);
    parse_program(&mut stream)
}

} // verus!
