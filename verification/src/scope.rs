//! The declaration discipline: a variable is declared once, and before it is used.
//!
//! The emitter checks the discipline as it goes. This module states the discipline over the
//! tree alone and proves that emission succeeds exactly on the bodies that keep it.

use crate::assembly::{body_assembly, expression_assembly, function_assembly, statement_assembly};
use crate::ast::{SpecExpression, SpecFunction, SpecStatement};
use crate::error::SpecError;
use crate::frame::FIRST_SLOT;
use vstd::prelude::*;

verus! {

/// Whether the expression reads or assigns the variable `name`.
pub open spec fn mentions(e: SpecExpression, name: Seq<char>) -> bool
    decreases e,
{
    match e {
        SpecExpression::Constant(_) => false,
        SpecExpression::Var(variable) => variable == name,
        SpecExpression::Unary(_, operand) => mentions(*operand, name),
        SpecExpression::Binary(_, left, right) => mentions(*left, name) || mentions(*right, name),
        SpecExpression::Assign(target, value) => target == name || mentions(*value, name),
    }
}

/// Whether the statement reads or assigns the variable `name`.
pub open spec fn uses(s: SpecStatement, name: Seq<char>) -> bool {
    match s {
        SpecStatement::Return(e) => mentions(e, name),
        SpecStatement::Expression(e) => mentions(e, name),
        SpecStatement::Declaration(_, Some(e)) => mentions(e, name),
        SpecStatement::Declaration(_, None) => false,
    }
}

/// Whether the statement declares the variable `name`.
pub open spec fn declares(s: SpecStatement, name: Seq<char>) -> bool {
    s matches SpecStatement::Declaration(variable, _) && variable == name
}

/// Whether the variable `name` has a slot when statement `k` is reached: from the frame
/// that the emission started with, or from one of the declarations before statement `k`.
pub open spec fn known(
    body: Seq<SpecStatement>,
    frame: Map<Seq<char>, usize>,
    k: int,
    name: Seq<char>,
) -> bool {
    frame.contains_key(name) || exists|j: int|
        0 <= j < k && j < body.len() && declares(#[trigger] body[j], name)
}

/// Whether statement `k` declares a variable that has a slot already.
pub open spec fn redeclares(body: Seq<SpecStatement>, frame: Map<Seq<char>, usize>, k: int) -> bool {
    body[k] matches SpecStatement::Declaration(variable, _) && known(body, frame, k, variable)
}

/// Whether statement `k` uses `name` though it has no slot, not even from statement `k`
/// itself: the initializer of a declaration may use the variable that it declares.
pub open spec fn uses_undeclared(
    body: Seq<SpecStatement>,
    frame: Map<Seq<char>, usize>,
    k: int,
    name: Seq<char>,
) -> bool {
    uses(body[k], name) && !known(body, frame, k + 1, name)
}

/// Whether the body keeps the discipline: no statement declares a variable again, and
/// none uses a variable that has no slot.
pub open spec fn well_scoped(body: Seq<SpecStatement>, frame: Map<Seq<char>, usize>) -> bool {
    &&& forall|k: int| 0 <= k < body.len() ==> !#[trigger] redeclares(body, frame, k)
    &&& forall|k: int, name: Seq<char>|
        0 <= k < body.len() ==> !#[trigger] uses_undeclared(body, frame, k, name)
}

/// An expression is emitted without error exactly if every variable that it mentions has
/// a slot. If not, the error is `UndeclaredVariable` with such a variable.
pub proof fn lemma_expression_scope(e: SpecExpression, frame: Map<Seq<char>, usize>, labels: usize)
    ensures
        expression_assembly(e, frame, labels).text is Ok <==> forall|name: Seq<char>|
            mentions(e, name) ==> frame.contains_key(name),
        expression_assembly(e, frame, labels).text matches Err(error) ==> error matches SpecError::UndeclaredVariable {
            var,
        } && mentions(e, var) && !frame.contains_key(var),
    decreases e,
{
    match e {
        SpecExpression::Constant(_) => {},
        SpecExpression::Var(variable) => {
            assert(mentions(e, variable));
        },
        SpecExpression::Unary(_, operand) => {
            lemma_expression_scope(*operand, frame, labels);
            assert forall|name: Seq<char>| mentions(e, name) == mentions(*operand, name) by {}
        },
        SpecExpression::Binary(_, left, right) => {
            lemma_expression_scope(*left, frame, labels);
            let first = expression_assembly(*left, frame, labels);
            lemma_expression_scope(*right, frame, first.labels);
            assert forall|name: Seq<char>|
                mentions(e, name) == (mentions(*left, name) || mentions(*right, name)) by {}
        },
        SpecExpression::Assign(target, value) => {
            lemma_expression_scope(*value, frame, labels);
            assert(mentions(e, target));
            assert forall|name: Seq<char>|
                mentions(e, name) == (target == name || mentions(*value, name)) by {}
        },
    }
}

/// Whether the statement declares a variable that has a slot in `frame`.
pub open spec fn clashes(s: SpecStatement, frame: Map<Seq<char>, usize>) -> bool {
    s matches SpecStatement::Declaration(variable, _) && frame.contains_key(variable)
}

/// What a statement does to the frame, and when it fails: with `DuplicateDeclaration` if it
/// declares a variable that has a slot, and else with `UndeclaredVariable` if it uses one
/// that has none.
pub proof fn lemma_statement_scope(
    s: SpecStatement,
    frame: Map<Seq<char>, usize>,
    stack_index: usize,
    labels: usize,
)
    ensures
        clashes(s, frame) ==> statement_assembly(s, frame, stack_index, labels).text == Err::<
            Seq<char>,
            SpecError,
        >(SpecError::DuplicateDeclaration { var: s->Declaration_0 }),
        clashes(s, frame) ==> statement_assembly(s, frame, stack_index, labels).frame == frame,
        !clashes(s, frame) ==> forall|name: Seq<char>|
            statement_assembly(s, frame, stack_index, labels).frame.contains_key(name) <==> (
            frame.contains_key(name) || declares(s, name)),
        !clashes(s, frame) ==> (statement_assembly(s, frame, stack_index, labels).text is Ok
            <==> forall|name: Seq<char>|
            uses(s, name) ==> statement_assembly(s, frame, stack_index, labels).frame.contains_key(
                name,
            )),
        !clashes(s, frame) ==> (statement_assembly(
            s,
            frame,
            stack_index,
            labels,
        ).text matches Err(error) ==> error matches SpecError::UndeclaredVariable { var } && uses(
            s,
            var,
        ) && !statement_assembly(s, frame, stack_index, labels).frame.contains_key(var)),
{
    let out = statement_assembly(s, frame, stack_index, labels);
    if !clashes(s, frame) {
        match s {
            SpecStatement::Declaration(variable, Some(e)) => {
                lemma_expression_scope(e, frame.insert(variable, stack_index), labels);
                assert(out.frame == frame.insert(variable, stack_index));
                assert forall|name: Seq<char>| uses(s, name) == mentions(e, name) by {}
            },
            SpecStatement::Declaration(variable, None) => {
                assert(out.frame == frame.insert(variable, stack_index));
            },
            SpecStatement::Expression(e) => {
                lemma_expression_scope(e, frame, labels);
                assert forall|name: Seq<char>| uses(s, name) == mentions(e, name) by {}
            },
            SpecStatement::Return(e) => {
                lemma_expression_scope(e, frame, labels);
                assert forall|name: Seq<char>| uses(s, name) == mentions(e, name) by {}
            },
        }
    }
}

/// Past a first statement that was emitted, the rest of the body sees the same variables
/// as the whole body did, one statement further on.
proof fn lemma_known_shifts(
    body: Seq<SpecStatement>,
    frame: Map<Seq<char>, usize>,
    later: Map<Seq<char>, usize>,
    k: int,
    name: Seq<char>,
)
    requires
        body.len() > 0,
        k >= 1,
        forall|n: Seq<char>|
            later.contains_key(n) <==> frame.contains_key(n) || declares(body[0], n),
    ensures
        known(body, frame, k, name) == known(body.drop_first(), later, k - 1, name),
{
    let rest = body.drop_first();
    if known(body, frame, k, name) {
        if !frame.contains_key(name) {
            let j = choose|j: int| 0 <= j < k && j < body.len() && declares(#[trigger] body[j], name);
            if j > 0 {
                assert(declares(rest[j - 1], name));
            }
        }
    }
    if known(rest, later, k - 1, name) {
        if later.contains_key(name) {
            if !frame.contains_key(name) {
                assert(declares(body[0], name));
            }
        } else {
            let j = choose|j: int|
                0 <= j < k - 1 && j < rest.len() && declares(#[trigger] rest[j], name);
            assert(declares(body[j + 1], name));
        }
    }
}

/// Emission succeeds exactly on the bodies that keep the declaration discipline. When it
/// fails, the error names a variable that some statement declares again, or one that some
/// statement uses without a slot.
pub proof fn lemma_body_scope(
    body: Seq<SpecStatement>,
    done: Seq<char>,
    frame: Map<Seq<char>, usize>,
    stack_index: usize,
    labels: usize,
)
    ensures
        body_assembly(body, done, frame, stack_index, labels).text is Ok <==> well_scoped(
            body,
            frame,
        ),
        match body_assembly(body, done, frame, stack_index, labels).text {
            Ok(_) => true,
            Err(SpecError::DuplicateDeclaration { var }) => exists|k: int|
                0 <= k < body.len() && #[trigger] redeclares(body, frame, k) && declares(
                    body[k],
                    var,
                ),
            Err(SpecError::UndeclaredVariable { var }) => exists|k: int|
                0 <= k < body.len() && #[trigger] uses_undeclared(body, frame, k, var),
            Err(_) => false,
        },
    decreases body.len(),
{
    if body.len() > 0 {
        let rest = body.drop_first();
        let first = statement_assembly(body[0], frame, stack_index, labels);
        lemma_statement_scope(body[0], frame, stack_index, labels);
        if redeclares(body, frame, 0) {
            assert(!well_scoped(body, frame));
        } else {
            assert forall|name: Seq<char>| known(body, frame, 1, name) == first.frame.contains_key(
                name,
            ) by {
                if declares(body[0], name) {
                    assert(known(body, frame, 1, name));
                }
            }
            match first.text {
                Err(error) => {
                    let var = error->UndeclaredVariable_var;
                    assert(uses_undeclared(body, frame, 0, var));
                },
                Ok(code) => {
                    lemma_body_scope(rest, done + code, first.frame, first.stack_index, first.labels);
                    assert forall|k: int, name: Seq<char>| k >= 1 implies known(body, frame, k, name)
                        == known(rest, first.frame, k - 1, name) by {
                        lemma_known_shifts(body, frame, first.frame, k, name);
                    }
                    assert forall|k: int| 1 <= k < body.len() implies redeclares(body, frame, k)
                        == redeclares(rest, first.frame, k - 1) by {}
                    assert forall|k: int, name: Seq<char>| 1 <= k < body.len() implies uses_undeclared(
                        body,
                        frame,
                        k,
                        name,
                    ) == uses_undeclared(rest, first.frame, k - 1, name) by {
                        lemma_known_shifts(body, frame, first.frame, k + 1, name);
                    }
                    let out = body_assembly(rest, done + code, first.frame, first.stack_index, first.labels);
                    if well_scoped(rest, first.frame) {
                        assert forall|k: int| 0 <= k < body.len() implies !#[trigger] redeclares(
                            body,
                            frame,
                            k,
                        ) by {
                            if k >= 1 {
                                assert(!redeclares(rest, first.frame, k - 1));
                            }
                        }
                        assert forall|k: int, name: Seq<char>| 0 <= k < body.len() implies !#[trigger] uses_undeclared(
                            body,
                            frame,
                            k,
                            name,
                        ) by {
                            if k >= 1 {
                                assert(!uses_undeclared(rest, first.frame, k - 1, name));
                            }
                        }
                    } else {
                        if exists|k: int| 0 <= k < rest.len() && #[trigger] redeclares(rest, first.frame, k) {
                            let k = choose|k: int| 0 <= k < rest.len() && #[trigger] redeclares(rest, first.frame, k);
                            assert(redeclares(body, frame, k + 1));
                        } else {
                            let (k, name) = choose|k: int, name: Seq<char>|
                                0 <= k < rest.len() && #[trigger] uses_undeclared(rest, first.frame, k, name);
                            assert(uses_undeclared(body, frame, k + 1, name));
                        }
                    }
                    match out.text {
                        Ok(_) => {},
                        Err(SpecError::DuplicateDeclaration { var }) => {
                            let k = choose|k: int|
                                0 <= k < rest.len() && #[trigger] redeclares(rest, first.frame, k)
                                    && declares(rest[k], var);
                            assert(redeclares(body, frame, k + 1) && declares(body[k + 1], var));
                        },
                        Err(SpecError::UndeclaredVariable { var }) => {
                            let k = choose|k: int|
                                0 <= k < rest.len() && #[trigger] uses_undeclared(rest, first.frame, k, var);
                            assert(uses_undeclared(body, frame, k + 1, var));
                        },
                        Err(_) => {},
                    }
                },
            }
        }
    }
}

/// Whether statement `k` breaks the discipline.
pub open spec fn offends(body: Seq<SpecStatement>, frame: Map<Seq<char>, usize>, k: int) -> bool {
    redeclares(body, frame, k) || exists|name: Seq<char>|
        #[trigger] uses_undeclared(body, frame, k, name)
}

/// The first statement that breaks the discipline decides the error: `DuplicateDeclaration`
/// with its variable if it declares a variable again, and else `UndeclaredVariable` with a
/// variable that it uses without a slot. What later statements do is of no account.
pub proof fn lemma_first_offence_decides(
    body: Seq<SpecStatement>,
    done: Seq<char>,
    frame: Map<Seq<char>, usize>,
    stack_index: usize,
    labels: usize,
    k: int,
)
    requires
        0 <= k < body.len(),
        offends(body, frame, k),
        forall|j: int| 0 <= j < k ==> !#[trigger] offends(body, frame, j),
    ensures
        redeclares(body, frame, k) ==> body_assembly(body, done, frame, stack_index, labels).text
            == Err::<Seq<char>, SpecError>(
            SpecError::DuplicateDeclaration { var: body[k]->Declaration_0 },
        ),
        !redeclares(body, frame, k) ==> (body_assembly(
            body,
            done,
            frame,
            stack_index,
            labels,
        ).text matches Err(SpecError::UndeclaredVariable { var }) && uses_undeclared(
            body,
            frame,
            k,
            var,
        )),
    decreases k,
{
    let rest = body.drop_first();
    let first = statement_assembly(body[0], frame, stack_index, labels);
    lemma_statement_scope(body[0], frame, stack_index, labels);
    assert(clashes(body[0], frame) == redeclares(body, frame, 0));
    if !clashes(body[0], frame) {
        assert forall|name: Seq<char>| known(body, frame, 1, name) == first.frame.contains_key(
            name,
        ) by {
            if declares(body[0], name) {
                assert(known(body, frame, 1, name));
            }
        }
    }
    if k == 0 {
        if !redeclares(body, frame, 0) {
            let name = choose|name: Seq<char>| #[trigger] uses_undeclared(body, frame, 0, name);
            assert(uses(body[0], name) && !first.frame.contains_key(name));
        }
    } else {
        assert(!offends(body, frame, 0));
        assert forall|name: Seq<char>| uses(body[0], name) implies first.frame.contains_key(
            name,
        ) by {
            assert(!uses_undeclared(body, frame, 0, name));
        }
        let code = first.text->Ok_0;
        assert forall|j: int, name: Seq<char>| j >= 1 implies known(body, frame, j, name) == known(
            rest,
            first.frame,
            j - 1,
            name,
        ) by {
            lemma_known_shifts(body, frame, first.frame, j, name);
        }
        assert forall|j: int| 1 <= j < body.len() implies redeclares(body, frame, j) == redeclares(
            rest,
            first.frame,
            j - 1,
        ) by {}
        assert forall|j: int, name: Seq<char>| 1 <= j < body.len() implies uses_undeclared(
            body,
            frame,
            j,
            name,
        ) == uses_undeclared(rest, first.frame, j - 1, name) by {
            lemma_known_shifts(body, frame, first.frame, j + 1, name);
        }
        assert forall|j: int| 0 <= j < k - 1 implies !#[trigger] offends(rest, first.frame, j) by {
            assert(!offends(body, frame, j + 1));
            if redeclares(rest, first.frame, j) {
                assert(redeclares(body, frame, j + 1));
            }
            if exists|name: Seq<char>| #[trigger] uses_undeclared(rest, first.frame, j, name) {
                let name = choose|name: Seq<char>| #[trigger]
                    uses_undeclared(rest, first.frame, j, name);
                assert(uses_undeclared(body, frame, j + 1, name));
            }
        }
        if !redeclares(body, frame, k) {
            let name = choose|name: Seq<char>| #[trigger] uses_undeclared(body, frame, k, name);
            assert(uses_undeclared(rest, first.frame, k - 1, name));
        }
        assert(offends(rest, first.frame, k - 1));
        lemma_first_offence_decides(
            rest,
            done + code,
            first.frame,
            first.stack_index,
            first.labels,
            k - 1,
        );
    }
}

/// A function is emitted without error exactly if its body keeps the declaration
/// discipline. The body starts from a frame without variables, so only the function's own
/// declarations count.
pub proof fn law_emitted_iff_well_scoped(
    f: SpecFunction,
    stack_index: usize,
    labels: usize,
)
    ensures
        function_assembly(f, stack_index, labels).text is Ok <==> well_scoped(f.body, Map::empty()),
{
    lemma_body_scope(f.body, Seq::empty(), Map::empty(), FIRST_SLOT, labels);
}

/// Errors come in source order: the first statement of a function that breaks the
/// discipline decides the error, whatever follows it.
pub proof fn law_first_offence_is_reported(
    f: SpecFunction,
    stack_index: usize,
    labels: usize,
    k: int,
)
    requires
        0 <= k < f.body.len(),
        offends(f.body, Map::empty(), k),
        forall|j: int| 0 <= j < k ==> !#[trigger] offends(f.body, Map::empty(), j),
    ensures
        redeclares(f.body, Map::empty(), k) ==> function_assembly(f, stack_index, labels).text
            == Err::<Seq<char>, SpecError>(
            SpecError::DuplicateDeclaration { var: f.body[k]->Declaration_0 },
        ),
        !redeclares(f.body, Map::empty(), k) ==> (function_assembly(f, stack_index, labels).text matches Err(SpecError::UndeclaredVariable { var }) && uses_undeclared(
            f.body,
            Map::empty(),
            k,
            var,
        )),
{
    lemma_first_offence_decides(f.body, Seq::empty(), Map::empty(), FIRST_SLOT, labels, k);
}

/// Declare before use: a function in which a statement uses a variable that has no slot
/// yet is not emitted. Unless some statement declares a variable again, the error is
/// `UndeclaredVariable`.
pub proof fn law_use_before_declaration_fails(
    f: SpecFunction,
    stack_index: usize,
    labels: usize,
    k: int,
    name: Seq<char>,
)
    requires
        0 <= k < f.body.len(),
        uses_undeclared(f.body, Map::empty(), k, name),
        forall|j: int| 0 <= j < f.body.len() ==> !#[trigger] redeclares(f.body, Map::empty(), j),
    ensures
        function_assembly(f, stack_index, labels).text is Err,
        function_assembly(f, stack_index, labels).text->Err_0 is UndeclaredVariable,
{
    lemma_body_scope(f.body, Seq::empty(), Map::empty(), FIRST_SLOT, labels);
}

/// No second declaration: a function in which a statement declares a variable that has a
/// slot already is not emitted. Unless some statement uses a variable that has no slot,
/// the error is `DuplicateDeclaration`.
pub proof fn law_second_declaration_fails(
    f: SpecFunction,
    stack_index: usize,
    labels: usize,
    k: int,
)
    requires
        0 <= k < f.body.len(),
        redeclares(f.body, Map::empty(), k),
        forall|j: int, name: Seq<char>|
            0 <= j < f.body.len() ==> !#[trigger] uses_undeclared(f.body, Map::empty(), j, name),
    ensures
        function_assembly(f, stack_index, labels).text is Err,
        function_assembly(f, stack_index, labels).text->Err_0 is DuplicateDeclaration,
{
    lemma_body_scope(f.body, Seq::empty(), Map::empty(), FIRST_SLOT, labels);
}

} // verus!
