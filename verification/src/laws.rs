//! What holds of every story, every state and every line.

use crate::document::{json_shape, JsonShape};
use crate::engine::{chosen, fed, resolved, retried, session, ChoiceReport, HaltReason, State};
use crate::first::{is_first, lemma_first_exists, lemma_first_found};
use crate::input::typed_label;
use crate::load::{field, loaded, node_of};
use crate::story::{has_label, labels_distinct, leading_to, Outcome, StoryView};
use serde_json::Value;
use vstd::prelude::*;

verus! {

/// True when the engine, in `state`, waits for a line from the player.
pub open spec fn awaits_line(story: StoryView, state: State) -> bool {
    match state {
        State::Active(id) => story.lookup(id) matches Some(node) && !node.is_terminal(),
        State::LostAwaitingRetry(_) => true,
        _ => false,
    }
}

/// Looking twice at the node under the cursor changes nothing that looking once did not.
pub proof fn lemma_resolved_twice(story: StoryView, state: State)
    ensures
        resolved(story, resolved(story, state)) == resolved(story, state),
{
}

/// A traversal that has ended takes nothing more: no look at the node, no choice and
/// no answer changes its state.
pub proof fn lemma_final_state_takes_nothing(story: StoryView, state: State, line: Seq<char>, yes: bool)
    requires
        state.is_final(),
    ensures
        resolved(story, state) == state,
        chosen(story, state, line) == (state, ChoiceReport::NotActive),
        retried(story, state, yes) == state,
        fed(story, state, line) == state,
{
}

/// A traversal that has ended stays as it is, whatever is typed.
pub proof fn lemma_final_state_stays(story: StoryView, state: State, lines: Seq<Seq<char>>)
    requires
        state.is_final(),
    ensures
        session(story, state, lines) == state,
    decreases lines.len(),
{
    if lines.len() > 0 {
        lemma_final_state_stays(story, state, lines.skip(1));
    }
}

/// Every script comes to rest. A script of `n` lines is played in `n` steps, each of
/// which takes one line, and leaves the traversal won, ended or halted, or else waiting
/// for a line that the script does not hold. This holds of every story and every
/// starting state, whether or not the graph has cycles.
pub proof fn lemma_session_rests(story: StoryView, state: State, lines: Seq<Seq<char>>)
    ensures
        session(story, state, lines).is_final() || awaits_line(
            story,
            session(story, state, lines),
        ),
    decreases lines.len(),
{
    if lines.len() > 0 {
        lemma_session_rests(story, fed(story, state, lines[0]), lines.skip(1));
    }
}

/// A line that is not accepted as a choice leaves the state as it was.
pub proof fn lemma_rejected_line_keeps_state(story: StoryView, state: State, line: Seq<char>)
    requires
        chosen(story, state, line).1 != ChoiceReport::Accepted,
    ensures
        chosen(story, state, line).0 == state,
{
}

/// A line that is a number, but not the label of any choice of the current node, is
/// reported as an unknown choice and does not move the cursor.
pub proof fn lemma_unknown_label_keeps_cursor(story: StoryView, id: u32, line: Seq<char>, label: u32)
    requires
        typed_label(line) == Some(label),
        story.lookup(id) matches Some(node) ==> !has_label(node.choices, label),
    ensures
        chosen(story, State::Active(id), line) == (State::Active(id), ChoiceReport::UnknownChoice),
{
}

/// A line that is no number is reported as invalid input and does not move the cursor.
pub proof fn lemma_invalid_input_keeps_cursor(story: StoryView, id: u32, line: Seq<char>)
    requires
        typed_label(line) is None,
    ensures
        chosen(story, State::Active(id), line) == (State::Active(id), ChoiceReport::InvalidInput),
{
}

/// The node to step back to from `target` is the first node, in the order of
/// declaration, that has a choice leading to `target`: it leads there, no node declared
/// before it does, and where there is no such node, no node of the story leads there.
pub proof fn lemma_predecessor_is_first_declared(story: StoryView, target: u32)
    ensures
        match story.predecessor(target) {
            Some(node) => exists|i: int|
                {
                    &&& 0 <= i < story.nodes.len()
                    &&& #[trigger] story.nodes[i] == node
                    &&& node.leads_to(target)
                    &&& forall|j: int| 0 <= j < i ==> !(#[trigger] story.nodes[j]).leads_to(target)
                },
            None => forall|i: int|
                0 <= i < story.nodes.len() ==> !(#[trigger] story.nodes[i]).leads_to(target),
        },
{
    let p = leading_to(target);
    if exists|i: int| is_first(story.nodes, p, i) {
        let i = choose|i: int| is_first(story.nodes, p, i);
        assert(story.nodes[i] == story.predecessor(target).unwrap());
        assert forall|j: int| 0 <= j < i implies !(#[trigger] story.nodes[j]).leads_to(target) by {
            assert(!p(story.nodes[j]));
        }
    } else {
        let nodes = story.nodes;
        assert forall|i: int| 0 <= i < nodes.len() implies !(#[trigger] nodes[i]).leads_to(target) by {
            if story.nodes[i].leads_to(target) {
                assert(p(story.nodes[i]));
                let k = lemma_first_exists(story.nodes, p, i);
            }
        }
    }
}

/// Where the node at position `i` leads to `target` and no node declared before it does,
/// stepping back from `target` goes to that node, however many later nodes lead there too.
pub proof fn lemma_predecessor_ignores_later_nodes(story: StoryView, target: u32, i: int)
    requires
        0 <= i < story.nodes.len(),
        story.nodes[i].leads_to(target),
        forall|j: int| 0 <= j < i ==> !(#[trigger] story.nodes[j]).leads_to(target),
    ensures
        story.predecessor(target) == Some(story.nodes[i]),
        retried(story, State::LostAwaitingRetry(target), true) == State::Active(story.nodes[i].id),
{
    let p = leading_to(target);
    assert(p(story.nodes[i]));
    assert forall|j: int| 0 <= j < i implies !p(#[trigger] story.nodes[j]) by {}
    lemma_first_found(story.nodes, p, i);
}

/// A terminal node that is a win resolves to `Won`, whatever its text.
pub proof fn lemma_winning_node_wins(story: StoryView, id: u32)
    requires
        story.lookup(id) matches Some(node) && node.is_terminal() && node.outcome == Outcome::Win,
    ensures
        resolved(story, State::Active(id)) == State::Won,
{
}

/// A terminal node without an outcome halts the traversal; it is never taken for a loss.
pub proof fn lemma_node_without_outcome_halts(story: StoryView, id: u32)
    requires
        story.lookup(id) matches Some(node) && node.is_terminal() && node.outcome
            == Outcome::NotTerminal,
    ensures
        resolved(story, State::Active(id)) == State::Halted(HaltReason::InvalidOutcome(id)),
{
}

/// A story that loads has its entry node.
pub proof fn lemma_loaded_story_has_entry(bytes: Seq<u8>)
    ensures
        loaded(bytes) matches Ok(story) ==> story.has_entry(),
{
}

/// In a story that loads, no two choices of a node share a label.
pub proof fn lemma_loaded_labels_are_distinct(bytes: Seq<u8>, i: int)
    requires
        loaded(bytes) matches Ok(story) && 0 <= i < story.nodes.len(),
    ensures
        loaded(bytes) matches Ok(story) && labels_distinct(story.nodes[i].choices),
{
}

/// An entry whose `win` flag is `true` stands for a node that is a win.
pub proof fn lemma_true_flag_is_win(entry: Value)
    requires
        node_of(entry) is Some,
        field(json_shape(entry), "win"@) matches Some(flag) && json_shape(flag) == JsonShape::Bool(
            true,
        ),
    ensures
        node_of(entry).unwrap().outcome == Outcome::Win,
{
}

/// An entry whose `win` flag is missing, or is no boolean, stands for a node without an
/// outcome.
pub proof fn lemma_missing_flag_is_no_outcome(entry: Value)
    requires
        node_of(entry) is Some,
        field(json_shape(entry), "win"@) matches Some(flag) ==> !(json_shape(flag) is Bool),
    ensures
        node_of(entry).unwrap().outcome == Outcome::NotTerminal,
{
}

} // verus!
