//! The abstract syntax tree and its mathematical view.

use vstd::prelude::*;

verus! {

/// A literal constant.
#[derive(Debug, Clone, Copy, PartialEq, Eq, Structural)]
pub enum Constant {
    Int(u32),
}

/// A prefix operator.
#[derive(Debug, Clone, Copy, PartialEq, Eq, Structural)]
pub enum UnaryOperator {
    /// Arithmetic negation, `-`.
    Negative,
    /// Bitwise complement, `~`.
    Complement,
    /// Logical not, `!`.
    Negation,
}

/// An infix operator.
#[derive(Debug, Clone, Copy, PartialEq, Eq, Structural)]
pub enum BinaryOperator {
    Addition,
    Subtraction,
    Multiplication,
    Division,
    Modulo,
    BitAnd,
    BitOr,
    BitXor,
    ShiftLeft,
    ShiftRight,
    LessThan,
    LessThanEqual,
    GreaterThan,
    GreaterThanEqual,
    Equal,
    NotEqual,
    /// Logical and, `&&`: the right operand is evaluated only if the left one is not zero.
    And,
    /// Logical or, `||`: the right operand is evaluated only if the left one is zero.
    Or,
}

impl BinaryOperator {
    /// Whether the operator evaluates its right operand only on demand.
    pub open spec fn is_logical(self) -> bool {
        self == BinaryOperator::And || self == BinaryOperator::Or
    }
}

/// An expression. Each node owns its operands.
#[derive(Debug, PartialEq, Eq)]
pub enum Expression {
    Constant(Constant),
    /// The value of a variable.
    Var(String),
    Unary(UnaryOperator, Box<Expression>),
    Binary(BinaryOperator, Box<Expression>, Box<Expression>),
    /// An assignment to the named variable; its value is the value assigned.
    Assign(String, Box<Expression>),
}

/// The view of an [`Expression`].
pub enum SpecExpression {
    Constant(Constant),
    Var(Seq<char>),
    Unary(UnaryOperator, Box<SpecExpression>),
    Binary(BinaryOperator, Box<SpecExpression>, Box<SpecExpression>),
    Assign(Seq<char>, Box<SpecExpression>),
}

/// A statement of a function's body.
#[derive(Debug, PartialEq, Eq)]
pub enum Statement {
    /// Leaves the function with the expression's value.
    Return(Expression),
    /// Introduces a variable, with or without an initial value.
    Declaration(String, Option<Expression>),
    /// An expression that is evaluated for its effect.
    Expression(Expression),
}

/// The view of a [`Statement`].
pub enum SpecStatement {
    Return(SpecExpression),
    Declaration(Seq<char>, Option<SpecExpression>),
    Expression(SpecExpression),
}

/// A function: its name and the statements of its body, in source order.
#[derive(Debug, PartialEq, Eq)]
pub struct Function {
    pub name: String,
    pub body: Vec<Statement>,
}

/// The view of a [`Function`].
pub struct SpecFunction {
    pub name: Seq<char>,
    pub body: Seq<SpecStatement>,
}

/// A program: exactly one function.
#[derive(Debug, PartialEq, Eq)]
pub struct Program(pub Function);

impl View for Constant {
    type V = Constant;

    open spec fn view(&self) -> Constant {
        *self
    }
}

impl View for UnaryOperator {
    type V = UnaryOperator;

    open spec fn view(&self) -> UnaryOperator {
        *self
    }
}

impl View for BinaryOperator {
    type V = BinaryOperator;

    open spec fn view(&self) -> BinaryOperator {
        *self
    }
}

/// The view of an expression: the same tree with each name as a sequence of characters.
pub open spec fn expression_view(e: Expression) -> SpecExpression
    decreases e,
{
    match e {
        Expression::Constant(c) => SpecExpression::Constant(c),
        Expression::Var(name) => SpecExpression::Var(name@),
        Expression::Unary(op, operand) => SpecExpression::Unary(
            op,
            Box::new(expression_view(*operand)),
        ),
        Expression::Binary(op, left, right) => SpecExpression::Binary(
            op,
            Box::new(expression_view(*left)),
            Box::new(expression_view(*right)),
        ),
        Expression::Assign(name, value) => SpecExpression::Assign(
            name@,
            Box::new(expression_view(*value)),
        ),
    }
}

impl View for Expression {
    type V = SpecExpression;

    open spec fn view(&self) -> SpecExpression {
        expression_view(*self)
    }
}

impl View for Statement {
    type V = SpecStatement;

    open spec fn view(&self) -> SpecStatement {
        match *self {
            Statement::Return(e) => SpecStatement::Return(e@),
            Statement::Declaration(name, None) => SpecStatement::Declaration(name@, None),
            Statement::Declaration(name, Some(e)) => SpecStatement::Declaration(name@, Some(e@)),
            Statement::Expression(e) => SpecStatement::Expression(e@),
        }
    }
}

/// The views of a sequence of statements, in order.
pub open spec fn statement_views(body: Seq<Statement>) -> Seq<SpecStatement> {
    body.map_values(|s: Statement| s@)
}

impl View for Function {
    type V = SpecFunction;

    open spec fn view(&self) -> SpecFunction {
        SpecFunction { name: self.name@, body: statement_views(self.body@) }
    }
}

impl View for Program {
    type V = SpecFunction;

    open spec fn view(&self) -> SpecFunction {
        self.0@
    }
}

} // verus!
