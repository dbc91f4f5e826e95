//! The emitter: a walk over the tree that writes the assembly text.

use crate::assembly::{
    binary_assembly, body_assembly, constant_assembly, declarations, expression_assembly,
    function_assembly, statement_assembly, unary_assembly, ADD, BIT_AND, BIT_OR, BIT_XOR,
    COMPLEMENT, DIVIDE, EPILOGUE, EQUAL, FETCH_LEFT, GLOBAL, GREATER, GREATER_OR_EQUAL,
    INITIALIZE, JUMP_IF_FALSE, JUMP_IF_TRUE, LABEL_END, LESS, LESS_OR_EQUAL, LINE_END,
    LOAD_CONSTANT, LOAD_SLOT, LOAD_SLOT_END, LOGICAL_NOT, MULTIPLY, NEGATE, NORMALIZE, NOT_EQUAL,
    PROLOGUE, REMAINDER, RETURN, SAVE_LEFT, SHIFT_LEFT, SHIFT_RIGHT, SKIP, SPACE, STORE_SLOT,
    STORE_SLOT_END, SUBTRACT, TEST,
};
use crate::ast::{
    statement_views, BinaryOperator, Constant, Expression, Function, SpecStatement, Statement,
    UnaryOperator,
};
use crate::error::{Error, SpecError};
use crate::frame::{VarMap, FIRST_SLOT, SLOT_SIZE};
use crate::label::gen_label;
use crate::text::decimal_string;
use vstd::prelude::*;
use vstd::string::StringExecFns;

verus! {

/// Whether an emitter's result is the text, or the error, that the node's assembly has.
pub open spec fn emit_agrees(r: Result<String, Error>, text: Result<Seq<char>, SpecError>) -> bool {
    match r {
        Ok(code) => text == Ok::<Seq<char>, SpecError>(code@),
        Err(error) => text == Err::<Seq<char>, SpecError>(error@),
    }
}

/// Writes a constant.
pub fn emit_constant(c: Constant) -> (text: String)
    ensures
        text@ == constant_assembly(c),
{
    match c {
        Constant::Int(i) => decimal_string(i as u64),
    }
}

/// The instructions of a prefix operator.
pub fn unary_code(op: UnaryOperator) -> (code: &'static str)
    ensures
        code@ == unary_assembly(op),
{
    match op {
        UnaryOperator::Negative => NEGATE,
        UnaryOperator::Complement => COMPLEMENT,
        UnaryOperator::Negation => LOGICAL_NOT,
    }
}

/// The instructions of a binary operator that is applied to both of its operands.
pub fn binary_code(op: BinaryOperator) -> (code: &'static str)
    requires
        !op.is_logical(),
    ensures
        code@ == binary_assembly(op),
{
    match op {
        BinaryOperator::Addition => ADD,
        BinaryOperator::Subtraction => SUBTRACT,
        BinaryOperator::Multiplication => MULTIPLY,
        BinaryOperator::Division => DIVIDE,
        BinaryOperator::Modulo => REMAINDER,
        BinaryOperator::BitAnd => BIT_AND,
        BinaryOperator::BitOr => BIT_OR,
        BinaryOperator::BitXor => BIT_XOR,
        BinaryOperator::ShiftLeft => SHIFT_LEFT,
        BinaryOperator::ShiftRight => SHIFT_RIGHT,
        BinaryOperator::LessThan => LESS,
        BinaryOperator::LessThanEqual => LESS_OR_EQUAL,
        BinaryOperator::GreaterThan => GREATER,
        BinaryOperator::GreaterThanEqual => GREATER_OR_EQUAL,
        BinaryOperator::Equal => EQUAL,
        _ => NOT_EQUAL,
    }
}

/// The slot of a variable, or the error for a variable that has none.
pub fn slot_of(vmap: &VarMap, name: &String) -> (r: Result<usize, Error>)
    ensures
        match r {
            Ok(offset) => vmap@.contains_key(name@) && offset == vmap@[name@],
            Err(error) => !vmap@.contains_key(name@) && error@ == (SpecError::UndeclaredVariable {
                var: name@,
            }),
        },
{
    match vmap.get(name.as_str()) {
        Some(offset) => Ok(offset),
        None => Err(Error::UndeclaredVariable { var: name.clone() }),
    }
}

/// Writes the code of an expression.
pub fn emit_expression(e: &Expression, vmap: &VarMap, labels: &mut usize) -> (r: Result<
    String,
    Error,
>)
    ensures
        emit_agrees(r, expression_assembly(e@, vmap@, *old(labels)).text),
        *final(labels) == expression_assembly(e@, vmap@, *old(labels)).labels,
    decreases e,
{
    match e {
        Expression::Constant(c) => {
            let mut code = String::from_str(LOAD_CONSTANT);
            let value = emit_constant(*c);
            code.append(value.as_str());
            code.append(LINE_END);
            Ok(code)
        },
        Expression::Var(name) => {
            let offset = slot_of(vmap, name)?;
            let mut code = String::from_str(LOAD_SLOT);
            let digits = decimal_string(offset as u64);
            code.append(digits.as_str());
            code.append(LOAD_SLOT_END);
            Ok(code)
        },
        Expression::Assign(name, value) => {
            let mut code = emit_expression(value, vmap, labels)?;
            let offset = slot_of(vmap, name)?;
            let mut store = String::from_str(STORE_SLOT);
            let digits = decimal_string(offset as u64);
            store.append(digits.as_str());
            store.append(STORE_SLOT_END);
            code.append(store.as_str());
            Ok(code)
        },
        Expression::Unary(op, operand) => {
            let mut code = emit_expression(operand, vmap, labels)?;
            code.append(SPACE);
            code.append(unary_code(*op));
            code.append(SPACE);
            Ok(code)
        },
        Expression::Binary(op, left, right) => {
            let mut code = emit_expression(left, vmap, labels)?;
            let right_code = emit_expression(right, vmap, labels)?;
            match op {
                BinaryOperator::And | BinaryOperator::Or => {
                    let enter = gen_label(labels);
                    let leave = gen_label(labels);
                    code.append(TEST);
                    code.append(
                        match op {
                            BinaryOperator::And => JUMP_IF_TRUE,
                            _ => JUMP_IF_FALSE,
                        },
                    );
                    code.append(enter.as_str());
                    code.append(SKIP);
                    code.append(leave.as_str());
                    code.append(LINE_END);
                    code.append(enter.as_str());
                    code.append(LABEL_END);
                    code.append(right_code.as_str());
                    code.append(NORMALIZE);
                    code.append(leave.as_str());
                    code.append(LABEL_END);
                },
                _ => {
                    code.append(SAVE_LEFT);
                    code.append(right_code.as_str());
                    code.append(FETCH_LEFT);
                    code.append(binary_code(*op));
                },
            }
            Ok(code)
        },
    }
}

/// Writes the code of a statement.
pub fn emit_statement(
    s: &Statement,
    vmap: &mut VarMap,
    stack_index: &mut usize,
    labels: &mut usize,
) -> (r: Result<String, Error>)
    requires
        s@ is Declaration ==> *old(stack_index) + SLOT_SIZE <= usize::MAX,
    ensures
        emit_agrees(
            r,
            statement_assembly(s@, old(vmap)@, *old(stack_index), *old(labels)).text,
        ),
        final(vmap)@ == statement_assembly(s@, old(vmap)@, *old(stack_index), *old(labels)).frame,
        *final(stack_index) == statement_assembly(
            s@,
            old(vmap)@,
            *old(stack_index),
            *old(labels),
        ).stack_index,
        *final(labels) == statement_assembly(
            s@,
            old(vmap)@,
            *old(stack_index),
            *old(labels),
        ).labels,
{
    match s {
        Statement::Declaration(name, init) => {
            if vmap.contains_key(name.as_str()) {
                Err(Error::DuplicateDeclaration { var: name.clone() })
            } else {
                vmap.insert(name.clone(), *stack_index);
                *stack_index = *stack_index + SLOT_SIZE;
                match init {
                    Some(e) => {
                        let mut code = emit_expression(e, vmap, labels)?;
                        code.append(INITIALIZE);
                        Ok(code)
                    },
                    None => Ok(String::new()),
                }
            }
        },
        Statement::Expression(e) => emit_expression(e, vmap, labels),
        Statement::Return(e) => {
            let mut code = emit_expression(e, vmap, labels)?;
            code.append(RETURN);
            Ok(code)
        },
    }
}

/// Writes the code of the statements of a body, one after the other, up to the first
/// error.
pub fn emit_body(
    body: &Vec<Statement>,
    vmap: &mut VarMap,
    stack_index: &mut usize,
    labels: &mut usize,
) -> (r: Result<String, Error>)
    requires
        *old(stack_index) + SLOT_SIZE * declarations(statement_views(body@)) <= usize::MAX,
    ensures
        emit_agrees(
            r,
            body_assembly(
                statement_views(body@),
                Seq::empty(),
                old(vmap)@,
                *old(stack_index),
                *old(labels),
            ).text,
        ),
        final(vmap)@ == body_assembly(
            statement_views(body@),
            Seq::empty(),
            old(vmap)@,
            *old(stack_index),
            *old(labels),
        ).frame,
        *final(stack_index) == body_assembly(
            statement_views(body@),
            Seq::empty(),
            old(vmap)@,
            *old(stack_index),
            *old(labels),
        ).stack_index,
        *final(labels) == body_assembly(
            statement_views(body@),
            Seq::empty(),
            old(vmap)@,
            *old(stack_index),
            *old(labels),
        ).labels,
{
    let ghost all = statement_views(body@);
    let ghost whole = body_assembly(all, Seq::empty(), vmap@, *stack_index, *labels);
    let mut code = String::new();
    let mut i: usize = 0;
    assert(all.skip(0) =~= all);
    while i < body.len()
        invariant
            i <= body.len(),
            all == statement_views(body@),
            whole == body_assembly(
                all,
                Seq::empty(),
                old(vmap)@,
                *old(stack_index),
                *old(labels),
            ),
            *stack_index + SLOT_SIZE * declarations(all.skip(i as int)) <= usize::MAX,
            body_assembly(all.skip(i as int), code@, vmap@, *stack_index, *labels) == whole,
        decreases body.len() - i,
    {
        let ghost rest = all.skip(i as int);
        assert(rest[0] == body@[i as int]@);
        assert(rest.drop_first() =~= all.skip(i + 1));
        let piece = emit_statement(&body[i], vmap, stack_index, labels)?;
        code.append(piece.as_str());
        i = i + 1;
    }
    Ok(code)
}

/// Counts the declarations among the statements of a body. A caller that wants to know
/// whether the slots of a function fit the machine compares this count with what the
/// emitter requires.
pub fn declaration_count(body: &Vec<Statement>) -> (n: usize)
    ensures
        n == declarations(statement_views(body@)),
{
    let ghost all = statement_views(body@);
    let mut n: usize = 0;
    let mut i: usize = body.len();
    assert(all.skip(i as int) =~= Seq::<SpecStatement>::empty());
    while i > 0
        invariant
            i <= body.len(),
            all == statement_views(body@),
            n == declarations(all.skip(i as int)),
            n <= body.len() - i,
        decreases i,
    {
        i = i - 1;
        assert(all.skip(i as int).drop_first() =~= all.skip(i + 1));
        assert(all.skip(i as int)[0] == body@[i as int]@);
        match &body[i] {
            Statement::Declaration(_, _) => {
                n = n + 1;
            },
            _ => {},
        }
    }
    assert(all.skip(0) =~= all);
    n
}

/// Writes the code of a function: its symbol, the prologue, the body and the epilogue.
/// The frame binder is made anew: what `vmap` held is dropped, and the function's own
/// declarations are what it holds afterwards.
pub fn emit_function(f: &Function, vmap: &mut VarMap, labels: &mut usize) -> (r: Result<
    String,
    Error,
>)
    requires
        FIRST_SLOT + SLOT_SIZE * declarations(f@.body) <= usize::MAX,
    ensures
        emit_agrees(r, function_assembly(f@, 0, *old(labels)).text),
        final(vmap)@ == function_assembly(f@, 0, *old(labels)).frame,
        *final(labels) == function_assembly(f@, 0, *old(labels)).labels,
{
    *vmap = VarMap::new();
    let mut stack_index = FIRST_SLOT;
    let body = emit_body(&f.body, vmap, &mut stack_index, labels)?;
    let mut code = String::from_str(GLOBAL);
    code.append(f.name.as_str());
    code.append(LINE_END);
    code.append(f.name.as_str());
    code.append(PROLOGUE);
    code.append(body.as_str());
    code.append(EPILOGUE);
    Ok(code)
}

} // verus!
