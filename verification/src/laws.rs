//! What holds of every session, whatever is done to it.

use crate::card::{all_flagged, flagged, CardView};
use crate::order::{is_permutation, lemma_reorder_keeps_items};
use crate::session::{RevealStage, SessionView};
use vstd::arithmetic::div_mod::lemma_mod_bound;
use vstd::prelude::*;

verus! {

/// One operation on a session, as the model sees it.
pub enum Operation {
    Load(Seq<CardView>),
    MarkKnown(int),
    Restore(int),
    DeleteUnknown(int),
    DeleteKnown(int),
    Add(Seq<char>, Option<Seq<char>>, Seq<char>),
    Reorder(Seq<usize>),
    Advance,
    Retreat,
    CycleStage,
    ToggleDirection,
}

/// The session after one operation.
pub open spec fn apply(session: SessionView, operation: Operation) -> SessionView {
    match operation {
        Operation::Load(cards) => session.load(cards),
        Operation::MarkKnown(index) => session.mark_known(index),
        Operation::Restore(index) => session.restore(index),
        Operation::DeleteUnknown(index) => session.delete_unknown(index),
        Operation::DeleteKnown(index) => session.delete_known(index),
        Operation::Add(word, pinyin, translation) => session.add(word, pinyin, translation),
        Operation::Reorder(order) => session.reordered(order),
        Operation::Advance => session.advance(),
        Operation::Retreat => session.retreat(),
        Operation::CycleStage => session.cycle_stage(),
        Operation::ToggleDirection => session.toggle_direction(),
    }
}

/// The session after a run of operations, applied first to last.
pub open spec fn apply_all(session: SessionView, operations: Seq<Operation>) -> SessionView
    decreases operations.len(),
{
    if operations.len() == 0 {
        session
    } else {
        apply(apply_all(session, operations.drop_last()), operations.last())
    }
}

/// A well-formed session is well formed after any one operation: unknown
/// cards are not flagged known, known cards are, and the cursor is in bounds.
pub proof fn lemma_operation_keeps_well_formed(session: SessionView, operation: Operation)
    requires
        session.wf(),
    ensures
        apply(session, operation).wf(),
{
    let after = apply(session, operation);
    match operation {
        Operation::Load(cards) => {
            assert forall|i: int| 0 <= i < after.unknown.len() implies !(
            #[trigger] after.unknown[i]).known by {
                cards.lemma_filter_pred(flagged(false), i);
            }
            assert forall|i: int| 0 <= i < after.known.len() implies (
            #[trigger] after.known[i]).known by {
                cards.lemma_filter_pred(flagged(true), i);
            }
        },
        Operation::Reorder(order) => {
            if is_permutation(order, session.unknown.len()) {
                assert forall|i: int| 0 <= i < after.unknown.len() implies !(
                #[trigger] after.unknown[i]).known by {
                    assert(order[i] < session.unknown.len());
                    assert(after.unknown[i] == session.unknown[order[i] as int]);
                }
            }
        },
        Operation::Advance => {
            if session.unknown.len() > 0 {
                lemma_mod_bound(session.cursor + 1, session.unknown.len() as int);
            }
        },
        Operation::Retreat => {
            if session.unknown.len() > 0 {
                lemma_mod_bound(
                    session.cursor - 1 + session.unknown.len(),
                    session.unknown.len() as int,
                );
            }
        },
        _ => {},
    }
}

/// A well-formed session is well formed after any run of operations.
pub proof fn lemma_operations_keep_well_formed(session: SessionView, operations: Seq<Operation>)
    requires
        session.wf(),
    ensures
        apply_all(session, operations).wf(),
    decreases operations.len(),
{
    if operations.len() > 0 {
        lemma_operations_keep_well_formed(session, operations.drop_last());
        lemma_operation_keeps_well_formed(
            apply_all(session, operations.drop_last()),
            operations.last(),
        );
    }
}

/// After any run of operations on a well-formed session, no card of the
/// unknown list is flagged known and every card of the known list is.
pub proof fn lemma_flags_stay_consistent(session: SessionView, operations: Seq<Operation>)
    requires
        session.wf(),
    ensures
        all_flagged(apply_all(session, operations).unknown, false),
        all_flagged(apply_all(session, operations).known, true),
{
    lemma_operations_keep_well_formed(session, operations);
}

/// After any run of operations on a well-formed session, the cursor is a
/// position of the unknown list, or exactly 0 when that list is empty.
pub proof fn lemma_cursor_stays_in_bounds(session: SessionView, operations: Seq<Operation>)
    requires
        session.wf(),
    ensures
        ({
            let after = apply_all(session, operations);
            if after.unknown.len() == 0 {
                after.cursor == 0
            } else {
                0 <= after.cursor < after.unknown.len()
            }
        }),
{
    lemma_operations_keep_well_formed(session, operations);
}

/// Putting the unknown cards in an order that names every position exactly
/// once keeps the cards, each as often as before, leaves the known list and
/// the direction as they were, and starts over at the first card and the first
/// face. This holds of a session without unknown cards too.
pub proof fn lemma_reordered_keeps_cards(session: SessionView, order: Seq<usize>)
    requires
        is_permutation(order, session.unknown.len()),
    ensures
        session.reordered(order).unknown.len() == session.unknown.len(),
        session.reordered(order).unknown.to_multiset() == session.unknown.to_multiset(),
        session.reordered(order).known == session.known,
        session.reordered(order).cursor == 0,
        session.reordered(order).stage == RevealStage::First,
        session.reordered(order).direction == session.direction,
{
    lemma_reorder_keeps_items(session.unknown, order);
}

/// Marking an unknown card known and restoring it at once puts it at the end
/// of the unknown list, not flagged known, and leaves the known list as it was.
pub proof fn lemma_mark_known_then_restore(session: SessionView, index: int)
    requires
        session.wf(),
        0 <= index < session.unknown.len(),
    ensures
        ({
            let marked = session.mark_known(index);
            let restored = marked.restore(marked.known.len() - 1);
            &&& restored.unknown == session.unknown.remove(index).push(session.unknown[index])
            &&& restored.unknown.last() == session.unknown[index]
            &&& !restored.unknown.last().known
            &&& restored.known == session.known
        }),
{
    let marked = session.mark_known(index);
    let restored = marked.restore(marked.known.len() - 1);
    assert(session.unknown[index].with_known(true).with_known(false) == session.unknown[index]);
    assert(restored.known =~= session.known);
    assert(restored.unknown =~= session.unknown.remove(index).push(session.unknown[index]));
}

} // verus!
