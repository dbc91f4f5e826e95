//! The assembly text of each node, as functions of the node and of the emission state.
//!
//! An expression leaves its value in `rax`. The frame maps each declared variable to the
//! offset of its slot below `rbp`; the label counter numbers the jump targets.

use crate::ast::{
    BinaryOperator, Constant, SpecExpression, SpecFunction, SpecStatement, UnaryOperator,
};
use crate::error::SpecError;
use crate::frame::{FIRST_SLOT, SLOT_SIZE};
use crate::label::{label_after, label_text};
use crate::text::decimal;
use vstd::prelude::*;

verus! {

/// Negates `rax`.
pub const NEGATE: &'static str = "neg rax\n";

/// Complements `rax` bit by bit.
pub const COMPLEMENT: &'static str = "not rax\n";

/// Puts 1 into `rax` if it holds zero, and else 0.
pub const LOGICAL_NOT: &'static str = "cmp rax, 0 \nmov rax, 0 \nsete al \n";

/// Adds the operands.
pub const ADD: &'static str = "add rax, rcx\n";

/// Subtracts the right operand from the left one.
pub const SUBTRACT: &'static str = "sub rcx, rax\nmov rax, rcx\n";

/// Multiplies the operands.
pub const MULTIPLY: &'static str = "imul rax, rcx\n";

/// Divides the left operand, sign-extended into `rdx:rax`, by the right one, and keeps the
/// quotient.
pub const DIVIDE: &'static str = "mov rbx, rax\nmov rax, rcx\ncqo\nidiv rbx\n";

/// Divides as [`DIVIDE`] does, and keeps the remainder.
pub const REMAINDER: &'static str = "mov rbx, rax\nmov rax, rcx\ncqo\nidiv rbx\nmov rax, rdx\n";

/// Combines the operands bit by bit with and.
pub const BIT_AND: &'static str = "and rcx, rax\n                 mov rax, rcx\n                 ";

/// Combines the operands bit by bit with or.
pub const BIT_OR: &'static str = "or rcx, rax\n                 mov rax, rcx\n                 ";

/// Combines the operands bit by bit with exclusive or.
pub const BIT_XOR: &'static str = "xor rcx, rax\n                 mov rax, rcx\n                 ";

/// Shifts the left operand to the left by the right one.
pub const SHIFT_LEFT: &'static str = "shl rcx, rax\n                 mov rax, rcx\n                 ";

/// Shifts the left operand to the right by the right one.
pub const SHIFT_RIGHT: &'static str = "shr rcx, rax\n                 mov rax, rcx\n                 ";

/// Puts 1 into `rax` if the left operand is less than the right one, and else 0.
pub const LESS: &'static str = "cmp rcx, rax\nmov rax, 0\nsetl al\n";

/// Puts 1 into `rax` if the left operand is at most the right one, and else 0.
pub const LESS_OR_EQUAL: &'static str = "cmp rcx, rax\nmov rax, 0\nsetle al\n";

/// Puts 1 into `rax` if the left operand is greater than the right one, and else 0.
pub const GREATER: &'static str = "cmp rcx, rax\nmov rax, 0\nsetg al\n";

/// Puts 1 into `rax` if the left operand is at least the right one, and else 0.
pub const GREATER_OR_EQUAL: &'static str = "cmp rcx, rax\nmov rax, 0\nsetge al\n";

/// Puts 1 into `rax` if the operands are equal, and else 0.
pub const EQUAL: &'static str = "cmp rcx, rax\nmov rax, 0\nsete al\n";

/// Puts 1 into `rax` if the operands differ, and else 0.
pub const NOT_EQUAL: &'static str = "cmp rcx, rax\nmov rax, 0\nsetne al\n";

/// Saves the left operand while the right one is evaluated.
pub const SAVE_LEFT: &'static str = "push rax\n";

/// Brings the left operand back, into `rcx`.
pub const FETCH_LEFT: &'static str = "pop rcx\n";

/// Tests the left operand of a logical operator.
pub const TEST: &'static str = "cmp rax, 0\n";

/// The jump to the right operand of `&&`: taken if the left operand is not zero.
pub const JUMP_IF_TRUE: &'static str = "jne ";

/// The jump to the right operand of `||`: taken if the left operand is zero.
pub const JUMP_IF_FALSE: &'static str = "je ";

/// The jump past the right operand of a logical operator.
pub const SKIP: &'static str = "\njmp ";

/// Turns the right operand of a logical operator into 0 or 1.
pub const NORMALIZE: &'static str = "cmp rax, 0\nmov rax, 0\nsetne al\n";

/// Ends the definition of a label.
pub const LABEL_END: &'static str = ":\n";

/// Ends a line.
pub const LINE_END: &'static str = "\n";

/// Begins the load of a constant into `rax`.
pub const LOAD_CONSTANT: &'static str = "mov rax, ";

/// Begins the load of a slot into `rax`; the offset of the slot follows.
pub const LOAD_SLOT: &'static str = "mov rax, [rbp - ";

/// Ends the load of a slot.
pub const LOAD_SLOT_END: &'static str = "]\n";

/// Begins the store of `rax` into a slot; the offset of the slot follows.
pub const STORE_SLOT: &'static str = "mov [rbp - ";

/// Ends the store into a slot.
pub const STORE_SLOT_END: &'static str = "], rax\n";

/// Stands before and after the instructions of a prefix operator.
pub const SPACE: &'static str = " ";

/// Puts the value of an initializer into the variable's slot, which is the top of the
/// stack.
pub const INITIALIZE: &'static str = "\npush rax\n";

/// Leaves the function from a `return`: the frame and the saved registers are restored.
pub const RETURN: &'static str =
    "\nmov rsp, rbp\npop r15\npop r14\npop r13\npop r12\npop rbp\npop rbx\nret";

/// Begins the declaration of the function's symbol.
pub const GLOBAL: &'static str = "global ";

/// Follows the function's label: saves the registers that the caller relies on and sets
/// up the frame.
pub const PROLOGUE: &'static str =
    ":\npush rbx \npush rbp\npush r12\npush r13\npush r14\npush r15\nmov rbp, rsp\n";

/// Leaves the function at the end of its body, with the value 0.
pub const EPILOGUE: &'static str =
    " \nmov rsp, rbp\npop r15\npop r14\npop r13\npop r12\npop rbp\npop rbx\nmov rax, 0\nret\n             ";

/// The text of a constant: its decimal numeral.
pub open spec fn constant_assembly(c: Constant) -> Seq<char> {
    match c {
        Constant::Int(i) => decimal(i as nat),
    }
}

/// The instructions that apply a prefix operator to `rax`.
pub open spec fn unary_assembly(op: UnaryOperator) -> Seq<char> {
    match op {
        UnaryOperator::Negative => NEGATE@,
        UnaryOperator::Complement => COMPLEMENT@,
        UnaryOperator::Negation => LOGICAL_NOT@,
    }
}

/// The instructions that combine the left operand, in `rcx`, with the right one, in
/// `rax`. The logical operators have none: they are emitted as jumps.
pub open spec fn binary_assembly(op: BinaryOperator) -> Seq<char>
    recommends
        !op.is_logical(),
{
    match op {
        BinaryOperator::Addition => ADD@,
        BinaryOperator::Subtraction => SUBTRACT@,
        BinaryOperator::Multiplication => MULTIPLY@,
        BinaryOperator::Division => DIVIDE@,
        BinaryOperator::Modulo => REMAINDER@,
        BinaryOperator::BitAnd => BIT_AND@,
        BinaryOperator::BitOr => BIT_OR@,
        BinaryOperator::BitXor => BIT_XOR@,
        BinaryOperator::ShiftLeft => SHIFT_LEFT@,
        BinaryOperator::ShiftRight => SHIFT_RIGHT@,
        BinaryOperator::LessThan => LESS@,
        BinaryOperator::LessThanEqual => LESS_OR_EQUAL@,
        BinaryOperator::GreaterThan => GREATER@,
        BinaryOperator::GreaterThanEqual => GREATER_OR_EQUAL@,
        BinaryOperator::Equal => EQUAL@,
        BinaryOperator::NotEqual => NOT_EQUAL@,
        BinaryOperator::And | BinaryOperator::Or => Seq::empty(),
    }
}

/// Loads the slot at `offset` into `rax`.
pub open spec fn load_assembly(offset: usize) -> Seq<char> {
    LOAD_SLOT@ + decimal(offset as nat) + LOAD_SLOT_END@
}

/// Stores `rax` into the slot at `offset`.
pub open spec fn store_assembly(offset: usize) -> Seq<char> {
    STORE_SLOT@ + decimal(offset as nat) + STORE_SLOT_END@
}

/// The code of an operator that is applied to both operands: the left operand waits on
/// the stack while the right one is evaluated.
pub open spec fn eager_assembly(op: BinaryOperator, left: Seq<char>, right: Seq<char>) -> Seq<
    char,
> {
    left + SAVE_LEFT@ + right + FETCH_LEFT@ + binary_assembly(op)
}

/// The jump that leads to the right operand of a logical operator.
pub open spec fn jump_assembly(op: BinaryOperator) -> Seq<char> {
    if op == BinaryOperator::And {
        JUMP_IF_TRUE@
    } else {
        JUMP_IF_FALSE@
    }
}

/// The code of a logical operator. The code of the right operand stands behind the label
/// `enter`, and only the conditional jump leads there; otherwise control goes to the label
/// `leave`, past the right operand.
pub open spec fn short_circuit_assembly(
    op: BinaryOperator,
    left: Seq<char>,
    right: Seq<char>,
    enter: Seq<char>,
    leave: Seq<char>,
) -> Seq<char> {
    left + TEST@ + jump_assembly(op) + enter + SKIP@ + leave + LINE_END@ + enter + LABEL_END@
        + right + NORMALIZE@ + leave + LABEL_END@
}

/// What emitting an expression yields.
pub struct Code {
    /// The text, or the first error.
    pub text: Result<Seq<char>, SpecError>,
    /// The label counter afterwards.
    pub labels: usize,
}

/// The code of an expression, in post-order: operands before operators. A variable
/// without a slot in `frame` is an error. A logical operator takes two labels from the
/// counter once both of its operands have been emitted.
pub open spec fn expression_assembly(
    e: SpecExpression,
    frame: Map<Seq<char>, usize>,
    labels: usize,
) -> Code
    decreases e,
{
    match e {
        SpecExpression::Constant(c) => Code {
            text: Ok(LOAD_CONSTANT@ + constant_assembly(c) + LINE_END@),
            labels,
        },
        SpecExpression::Var(name) => Code {
            text: if frame.contains_key(name) {
                Ok(load_assembly(frame[name]))
            } else {
                Err(SpecError::UndeclaredVariable { var: name })
            },
            labels,
        },
        SpecExpression::Assign(name, value) => {
            let value = expression_assembly(*value, frame, labels);
            match value.text {
                Err(_) => value,
                Ok(code) => Code {
                    text: if frame.contains_key(name) {
                        Ok(code + store_assembly(frame[name]))
                    } else {
                        Err(SpecError::UndeclaredVariable { var: name })
                    },
                    labels: value.labels,
                },
            }
        },
        SpecExpression::Unary(op, operand) => {
            let operand = expression_assembly(*operand, frame, labels);
            match operand.text {
                Err(_) => operand,
                Ok(code) => Code {
                    text: Ok(code + SPACE@ + unary_assembly(op) + SPACE@),
                    labels: operand.labels,
                },
            }
        },
        SpecExpression::Binary(op, left, right) => {
            let left = expression_assembly(*left, frame, labels);
            match left.text {
                Err(_) => left,
                Ok(left_code) => {
                    let right = expression_assembly(*right, frame, left.labels);
                    match right.text {
                        Err(_) => right,
                        Ok(right_code) => if op.is_logical() {
                            Code {
                                text: Ok(
                                    short_circuit_assembly(
                                        op,
                                        left_code,
                                        right_code,
                                        label_text(right.labels),
                                        label_text(label_after(right.labels)),
                                    ),
                                ),
                                labels: label_after(label_after(right.labels)),
                            }
                        } else {
                            Code {
                                text: Ok(eager_assembly(op, left_code, right_code)),
                                labels: right.labels,
                            }
                        },
                    }
                },
            }
        },
    }
}

/// What emitting a node yields, and the state in which it leaves the emission.
pub struct Emitted {
    /// The text, or the first error.
    pub text: Result<Seq<char>, SpecError>,
    /// The slots of the declared variables.
    pub frame: Map<Seq<char>, usize>,
    /// The offset of the next free slot.
    pub stack_index: usize,
    /// The label counter.
    pub labels: usize,
}

/// The emission of a node that declares nothing.
pub open spec fn emitted(code: Code, frame: Map<Seq<char>, usize>, stack_index: usize) -> Emitted {
    Emitted { text: code.text, frame, stack_index, labels: code.labels }
}

/// The offset of the slot after the one at `stack_index`.
pub open spec fn next_slot(stack_index: usize) -> usize
    recommends
        stack_index + SLOT_SIZE <= usize::MAX,
{
    (stack_index + SLOT_SIZE) as usize
}

/// The code of a statement. A declaration gives its name the next free slot, unless the
/// name has one already, which is an error; the name has its slot before the initializer
/// is emitted.
pub open spec fn statement_assembly(
    s: SpecStatement,
    frame: Map<Seq<char>, usize>,
    stack_index: usize,
    labels: usize,
) -> Emitted {
    match s {
        SpecStatement::Declaration(name, init) => if frame.contains_key(name) {
            Emitted {
                text: Err(SpecError::DuplicateDeclaration { var: name }),
                frame,
                stack_index,
                labels,
            }
        } else {
            let frame = frame.insert(name, stack_index);
            let stack_index = next_slot(stack_index);
            match init {
                None => Emitted { text: Ok(Seq::empty()), frame, stack_index, labels },
                Some(e) => {
                    let value = expression_assembly(e, frame, labels);
                    Emitted {
                        text: match value.text {
                            Ok(code) => Ok(code + INITIALIZE@),
                            Err(error) => Err(error),
                        },
                        frame,
                        stack_index,
                        labels: value.labels,
                    }
                },
            }
        },
        SpecStatement::Expression(e) => emitted(
            expression_assembly(e, frame, labels),
            frame,
            stack_index,
        ),
        SpecStatement::Return(e) => {
            let value = expression_assembly(e, frame, labels);
            Emitted {
                text: match value.text {
                    Ok(code) => Ok(code + RETURN@),
                    Err(error) => Err(error),
                },
                frame,
                stack_index,
                labels: value.labels,
            }
        },
    }
}

/// The code of the statements `body`, in order, after the text `done`. The first error
/// ends the emission: no later statement is emitted.
pub open spec fn body_assembly(
    body: Seq<SpecStatement>,
    done: Seq<char>,
    frame: Map<Seq<char>, usize>,
    stack_index: usize,
    labels: usize,
) -> Emitted
    decreases body.len(),
{
    if body.len() == 0 {
        Emitted { text: Ok(done), frame, stack_index, labels }
    } else {
        let first = statement_assembly(body[0], frame, stack_index, labels);
        match first.text {
            Err(_) => first,
            Ok(code) => body_assembly(
                body.drop_first(),
                done + code,
                first.frame,
                first.stack_index,
                first.labels,
            ),
        }
    }
}

/// The number of declarations among the statements.
pub open spec fn declarations(body: Seq<SpecStatement>) -> nat
    decreases body.len(),
{
    if body.len() == 0 {
        0
    } else if body[0] is Declaration {
        1 + declarations(body.drop_first())
    } else {
        declarations(body.drop_first())
    }
}

/// The code of a function: its symbol, the prologue, the body and the epilogue.
///
/// Each function has a frame of its own. The body starts from a frame without variables
/// and with its first slot at [`FIRST_SLOT`], whatever the caller holds; the frame that is
/// left is that of the function's own declarations. The caller's offset stays as it is.
pub open spec fn function_assembly(f: SpecFunction, stack_index: usize, labels: usize) -> Emitted {
    let body = body_assembly(f.body, Seq::empty(), Map::empty(), FIRST_SLOT, labels);
    Emitted {
        text: match body.text {
            Ok(code) => Ok(
                GLOBAL@ + f.name + LINE_END@ + f.name + PROLOGUE@ + code + EPILOGUE@,
            ),
            Err(error) => Err(error),
        },
        frame: body.frame,
        stack_index,
        labels: body.labels,
    }
}

} // verus!
