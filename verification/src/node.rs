//! What the nodes of the syntax tree have in common: each is parsed from the token stream
//! and emitted as assembly text.

use crate::assembly::{
    binary_assembly, constant_assembly, declarations, emitted, expression_assembly,
    function_assembly, statement_assembly, unary_assembly, Code, Emitted,
};
use crate::ast::{
    BinaryOperator, Constant, Expression, Function, Program, SpecExpression, SpecFunction,
    SpecStatement, Statement, UnaryOperator,
};
use crate::emitter::{
    binary_code, emit_agrees, emit_constant, emit_expression, emit_function, emit_statement,
    unary_code,
};
use crate::error::Error;
use crate::frame::{VarMap, FIRST_SLOT, SLOT_SIZE};
use crate::grammar::{
    binary_operator_grammar, constant_grammar, full_expression_grammar, function_grammar,
    statement_grammar, unary_operator_grammar, Parsed,
};
use crate::parser::{
    parse_agrees, parse_binary_operator, parse_constant, parse_expression, parse_function,
    parse_program, parse_statement, parse_unary_operator,
};
use crate::stream::{remaining, TokenStream};
use crate::token::SpecToken;
use vstd::prelude::*;
use vstd::string::StringExecFns;

verus! {

/// A node of the syntax tree.
pub trait ASTNode: Sized + View {
    /// What parsing a node of this type makes of a sequence of tokens.
    spec fn grammar(tokens: Seq<SpecToken>) -> Parsed<Self::V>;

    /// Whether the node can be emitted with the next free slot at `stack_index`.
    spec fn emittable(node: Self::V, stack_index: usize) -> bool;

    /// What emitting the node yields in a given state of the emission.
    spec fn assembly(
        node: Self::V,
        frame: Map<Seq<char>, usize>,
        stack_index: usize,
        labels: usize,
    ) -> Emitted;

    /// Parses a node from the front of the stream.
    fn parse(t: &mut TokenStream) -> (r: Result<Self, Error>)
        ensures
            parse_agrees(r, remaining(*final(t)), Self::grammar(remaining(*old(t)))),
    ;

    /// Emits the node. `vmap` holds the slots of the variables declared so far,
    /// `stack_index` the offset of the next free slot and `labels` the label counter. A
    /// function or a program makes its frame anew: what `vmap` held before does not count.
    fn emit(self, vmap: &mut VarMap, stack_index: &mut usize, labels: &mut usize) -> (r: Result<
        String,
        Error,
    >)
        requires
            Self::emittable(self@, *old(stack_index)),
        ensures
            emit_agrees(
                r,
                Self::assembly(self@, old(vmap)@, *old(stack_index), *old(labels)).text,
            ),
            final(vmap)@ == Self::assembly(
                self@,
                old(vmap)@,
                *old(stack_index),
                *old(labels),
            ).frame,
            *final(stack_index) == Self::assembly(
                self@,
                old(vmap)@,
                *old(stack_index),
                *old(labels),
            ).stack_index,
            *final(labels) == Self::assembly(
                self@,
                old(vmap)@,
                *old(stack_index),
                *old(labels),
            ).labels,
    ;
}

impl ASTNode for Program {
    open spec fn grammar(tokens: Seq<SpecToken>) -> Parsed<SpecFunction> {
        function_grammar(tokens)
    }

    open spec fn emittable(node: SpecFunction, stack_index: usize) -> bool {
        FIRST_SLOT + SLOT_SIZE * declarations(node.body) <= usize::MAX
    }

    open spec fn assembly(
        node: SpecFunction,
        frame: Map<Seq<char>, usize>,
        stack_index: usize,
        labels: usize,
    ) -> Emitted {
        function_assembly(node, stack_index, labels)
    }

    fn parse(t: &mut TokenStream) -> (r: Result<Program, Error>) {
        parse_program(t)
    }

    fn emit(self, vmap: &mut VarMap, stack_index: &mut usize, labels: &mut usize) -> (r: Result<
        String,
        Error,
    >) {
        self.0.emit(vmap, stack_index, labels)
    }
}

impl ASTNode for Function {
    open spec fn grammar(tokens: Seq<SpecToken>) -> Parsed<SpecFunction> {
        function_grammar(tokens)
    }

    open spec fn emittable(node: SpecFunction, stack_index: usize) -> bool {
        FIRST_SLOT + SLOT_SIZE * declarations(node.body) <= usize::MAX
    }

    open spec fn assembly(
        node: SpecFunction,
        frame: Map<Seq<char>, usize>,
        stack_index: usize,
        labels: usize,
    ) -> Emitted {
        function_assembly(node, stack_index, labels)
    }

    fn parse(t: &mut TokenStream) -> (r: Result<Function, Error>) {
        parse_function(t)
    }

    fn emit(self, vmap: &mut VarMap, stack_index: &mut usize, labels: &mut usize) -> (r: Result<
        String,
        Error,
    >) {
        emit_function(&self, vmap, labels)
    }
}

impl ASTNode for Statement {
    open spec fn grammar(tokens: Seq<SpecToken>) -> Parsed<SpecStatement> {
        statement_grammar(tokens)
    }

    open spec fn emittable(node: SpecStatement, stack_index: usize) -> bool {
        node is Declaration ==> stack_index + SLOT_SIZE <= usize::MAX
    }

    open spec fn assembly(
        node: SpecStatement,
        frame: Map<Seq<char>, usize>,
        stack_index: usize,
        labels: usize,
    ) -> Emitted {
        statement_assembly(node, frame, stack_index, labels)
    }

    fn parse(t: &mut TokenStream) -> (r: Result<Statement, Error>) {
        parse_statement(t)
    }

    fn emit(self, vmap: &mut VarMap, stack_index: &mut usize, labels: &mut usize) -> (r: Result<
        String,
        Error,
    >) {
        emit_statement(&self, vmap, stack_index, labels)
    }
}

impl ASTNode for Expression {
    open spec fn grammar(tokens: Seq<SpecToken>) -> Parsed<SpecExpression> {
        full_expression_grammar(tokens)
    }

    open spec fn emittable(node: SpecExpression, stack_index: usize) -> bool {
        true
    }

    open spec fn assembly(
        node: SpecExpression,
        frame: Map<Seq<char>, usize>,
        stack_index: usize,
        labels: usize,
    ) -> Emitted {
        emitted(expression_assembly(node, frame, labels), frame, stack_index)
    }

    fn parse(t: &mut TokenStream) -> (r: Result<Expression, Error>) {
        parse_expression(t)
    }

    fn emit(self, vmap: &mut VarMap, stack_index: &mut usize, labels: &mut usize) -> (r: Result<
        String,
        Error,
    >) {
        emit_expression(&self, vmap, labels)
    }
}

impl ASTNode for Constant {
    open spec fn grammar(tokens: Seq<SpecToken>) -> Parsed<Constant> {
        constant_grammar(tokens)
    }

    open spec fn emittable(node: Constant, stack_index: usize) -> bool {
        true
    }

    open spec fn assembly(
        node: Constant,
        frame: Map<Seq<char>, usize>,
        stack_index: usize,
        labels: usize,
    ) -> Emitted {
        emitted(Code { text: Ok(constant_assembly(node)), labels }, frame, stack_index)
    }

    fn parse(t: &mut TokenStream) -> (r: Result<Constant, Error>) {
        parse_constant(t)
    }

    fn emit(self, vmap: &mut VarMap, stack_index: &mut usize, labels: &mut usize) -> (r: Result<
        String,
        Error,
    >) {
        Ok(emit_constant(self))
    }
}

impl ASTNode for UnaryOperator {
    open spec fn grammar(tokens: Seq<SpecToken>) -> Parsed<UnaryOperator> {
        unary_operator_grammar(tokens)
    }

    open spec fn emittable(node: UnaryOperator, stack_index: usize) -> bool {
        true
    }

    open spec fn assembly(
        node: UnaryOperator,
        frame: Map<Seq<char>, usize>,
        stack_index: usize,
        labels: usize,
    ) -> Emitted {
        emitted(Code { text: Ok(unary_assembly(node)), labels }, frame, stack_index)
    }

    fn parse(t: &mut TokenStream) -> (r: Result<UnaryOperator, Error>) {
        parse_unary_operator(t)
    }

    fn emit(self, vmap: &mut VarMap, stack_index: &mut usize, labels: &mut usize) -> (r: Result<
        String,
        Error,
    >) {
        Ok(String::from_str(unary_code(self)))
    }
}

impl ASTNode for BinaryOperator {
    open spec fn grammar(tokens: Seq<SpecToken>) -> Parsed<BinaryOperator> {
        binary_operator_grammar(tokens)
    }

    /// The logical operators have no instructions of their own.
    open spec fn emittable(node: BinaryOperator, stack_index: usize) -> bool {
        !node.is_logical()
    }

    open spec fn assembly(
        node: BinaryOperator,
        frame: Map<Seq<char>, usize>,
        stack_index: usize,
        labels: usize,
    ) -> Emitted {
        emitted(Code { text: Ok(binary_assembly(node)), labels }, frame, stack_index)
    }

    fn parse(t: &mut TokenStream) -> (r: Result<BinaryOperator, Error>) {
        parse_binary_operator(t)
    }

    fn emit(self, vmap: &mut VarMap, stack_index: &mut usize, labels: &mut usize) -> (r: Result<
        String,
        Error,
    >) {
        Ok(String::from_str(binary_code(self)))
    }
}

} // verus!
