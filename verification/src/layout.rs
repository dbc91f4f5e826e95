//! The layout of the frame: each declaration takes the next slot.

use crate::assembly::{body_assembly, declarations, function_assembly, statement_assembly};
use crate::ast::{SpecFunction, SpecStatement};
use crate::frame::{FIRST_SLOT, SLOT_SIZE};
use vstd::prelude::*;

verus! {

/// The number of declarations grows with the number of statements that are counted, and
/// grows strictly across a declaration.
pub proof fn lemma_declarations_grow(body: Seq<SpecStatement>, i: int, j: int)
    requires
        0 <= i <= j <= body.len(),
    ensures
        declarations(body.take(i)) <= declarations(body.take(j)),
        i < j && body[i] is Declaration ==> declarations(body.take(i)) < declarations(
            body.take(j),
        ),
    decreases i,
{
    if i == 0 {
        if j > 0 {
            assert(body.take(j)[0] == body[0]);
        }
    } else {
        let rest = body.drop_first();
        assert(body.take(i).drop_first() =~= rest.take(i - 1));
        assert(body.take(j).drop_first() =~= rest.take(j - 1));
        assert(body.take(i)[0] == body[0]);
        assert(body.take(j)[0] == body[0]);
        lemma_declarations_grow(rest, i - 1, j - 1);
    }
}

/// A slot is never taken away nor moved: whatever becomes of the emission, the variables
/// that the frame held keep their slots.
pub proof fn lemma_slots_stay(
    body: Seq<SpecStatement>,
    done: Seq<char>,
    frame: Map<Seq<char>, usize>,
    stack_index: usize,
    labels: usize,
    name: Seq<char>,
)
    requires
        frame.contains_key(name),
    ensures
        body_assembly(body, done, frame, stack_index, labels).frame.contains_key(name),
        body_assembly(body, done, frame, stack_index, labels).frame[name] == frame[name],
    decreases body.len(),
{
    if body.len() > 0 {
        let first = statement_assembly(body[0], frame, stack_index, labels);
        if first.text is Ok {
            lemma_slots_stay(
                body.drop_first(),
                done + first.text->Ok_0,
                first.frame,
                first.stack_index,
                first.labels,
                name,
            );
        }
    }
}

/// Where an emission without error puts the variables: the slots that the frame held
/// stay as they were, the declaration at position `k` gets the slot that lies as many
/// slots behind the first free one as there are declarations before it, and the next
/// free slot moves on by one slot for each declaration.
pub proof fn lemma_body_layout(
    body: Seq<SpecStatement>,
    done: Seq<char>,
    frame: Map<Seq<char>, usize>,
    stack_index: usize,
    labels: usize,
)
    requires
        body_assembly(body, done, frame, stack_index, labels).text is Ok,
        stack_index + SLOT_SIZE * declarations(body) <= usize::MAX,
    ensures
        body_assembly(body, done, frame, stack_index, labels).stack_index == stack_index
            + SLOT_SIZE * declarations(body),
        forall|name: Seq<char>| #[trigger]
            frame.contains_key(name) ==> body_assembly(
                body,
                done,
                frame,
                stack_index,
                labels,
            ).frame.contains_key(name) && body_assembly(
                body,
                done,
                frame,
                stack_index,
                labels,
            ).frame[name] == frame[name],
        forall|k: int|
            0 <= k < body.len() && #[trigger] body[k] is Declaration ==> body_assembly(
                body,
                done,
                frame,
                stack_index,
                labels,
            ).frame.contains_key(body[k]->Declaration_0) && body_assembly(
                body,
                done,
                frame,
                stack_index,
                labels,
            ).frame[body[k]->Declaration_0] == stack_index + SLOT_SIZE * declarations(
                body.take(k),
            ),
    decreases body.len(),
{
    if body.len() > 0 {
        let rest = body.drop_first();
        let first = statement_assembly(body[0], frame, stack_index, labels);
        let code = first.text->Ok_0;
        let out = body_assembly(rest, done + code, first.frame, first.stack_index, first.labels);
        lemma_body_layout(rest, done + code, first.frame, first.stack_index, first.labels);
        assert forall|name: Seq<char>| #[trigger] frame.contains_key(name) implies out.frame.contains_key(
            name,
        ) && out.frame[name] == frame[name] by {
            assert(first.frame.contains_key(name));
            assert(first.frame[name] == frame[name]);
        }
        assert forall|k: int| 0 <= k < body.len() && #[trigger] body[k] is Declaration implies out.frame.contains_key(
            body[k]->Declaration_0,
        ) && out.frame[body[k]->Declaration_0] == stack_index + SLOT_SIZE * declarations(
            body.take(k),
        ) by {
            if k == 0 {
                assert(first.frame.contains_key(body[0]->Declaration_0));
                assert(body.take(0) =~= Seq::<SpecStatement>::empty());
            } else {
                assert(rest[k - 1] == body[k]);
                assert(body.take(k).drop_first() =~= rest.take(k - 1));
                assert(body.take(k)[0] == body[0]);
            }
        }
    }
}

/// Slots follow the order of the declarations: in a function that is emitted without
/// error, a variable that is declared later has a slot at a greater offset, and the
/// declaration at position `i` has the slot at `FIRST_SLOT` plus one slot for each
/// declaration before it. So no two variables share a slot.
pub proof fn law_slots_follow_declarations(
    f: SpecFunction,
    stack_index: usize,
    labels: usize,
    i: int,
    j: int,
)
    requires
        function_assembly(f, stack_index, labels).text is Ok,
        FIRST_SLOT + SLOT_SIZE * declarations(f.body) <= usize::MAX,
        0 <= i < j < f.body.len(),
        f.body[i] is Declaration,
        f.body[j] is Declaration,
    ensures
        function_assembly(f, stack_index, labels).frame.contains_key(
            f.body[i]->Declaration_0,
        ),
        function_assembly(f, stack_index, labels).frame.contains_key(
            f.body[j]->Declaration_0,
        ),
        function_assembly(f, stack_index, labels).frame[f.body[i]->Declaration_0]
            == FIRST_SLOT + SLOT_SIZE * declarations(f.body.take(i)),
        function_assembly(f, stack_index, labels).frame[f.body[i]->Declaration_0]
            < function_assembly(f, stack_index, labels).frame[f.body[j]->Declaration_0],
{
    lemma_body_layout(f.body, Seq::empty(), Map::empty(), FIRST_SLOT, labels);
    lemma_declarations_grow(f.body, i, j);
}

} // verus!
