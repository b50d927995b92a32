//! The traversal engine: a cursor on a story, moved by the player's choices.
//!
//! The engine is a state machine. It starts on the entry node. Resolving looks at the
//! node under the cursor and ends the story there if the node is terminal; a choice
//! moves the cursor along one edge; after a loss the player may step back to the node
//! that led there. What the player types never breaks anything: a line that is no
//! number, or no label of the node, leaves the engine where it was.

use crate::index::GraphIndex;
use crate::input::{is_yes, parse_label, says_yes, typed_label};
use crate::story::{Node, Outcome, StoryView, ENTRY_ID};
use vstd::prelude::*;

verus! {

/// Why a traversal cannot go on: the story itself is broken.
#[derive(Clone, Copy, Debug, PartialEq, Eq, Structural)]
pub enum HaltReason {
    /// The cursor stands on an identifier that no node carries.
    UnknownNode(u32),
    /// The node under the cursor has no choices and no outcome.
    InvalidOutcome(u32),
}

/// Where a traversal stands.
#[derive(Clone, Copy, Debug, PartialEq, Eq, Structural)]
pub enum State {
    /// The cursor stands on the node with this identifier.
    Active(u32),
    /// The story ended in a win.
    Won,
    /// The story ended in a loss on the node with this identifier, and the player
    /// has yet to say whether to step back.
    LostAwaitingRetry(u32),
    /// The story ended in a loss and will not be taken up again.
    Ended,
    /// The story is broken.
    Halted(HaltReason),
}

impl State {
    /// True for the states that no call leaves.
    pub open spec fn is_final(self) -> bool {
        self is Won || self is Ended || self is Halted
    }
}

/// What the engine made of a typed line.
#[derive(Clone, Copy, Debug, PartialEq, Eq, Structural)]
pub enum ChoiceReport {
    /// The line named a choice of the current node, and the cursor moved.
    Accepted,
    /// The line is no number.
    InvalidInput,
    /// The line is a number, but the current node offers no choice under it.
    UnknownChoice,
    /// The engine was not waiting for a choice.
    NotActive,
}

/// The state after the node under the cursor has been looked at.
///
/// An identifier that no node carries halts the traversal. A terminal node ends it: as a
/// win, as a loss, or, where the node has no outcome, as a broken story. A node with
/// choices leaves the cursor where it is. Any state but `Active` stays as it is.
pub open spec fn resolved(story: StoryView, state: State) -> State {
    match state {
        State::Active(id) => match story.lookup(id) {
            None => State::Halted(HaltReason::UnknownNode(id)),
            Some(node) => if !node.is_terminal() {
                State::Active(id)
            } else {
                match node.outcome {
                    Outcome::Win => State::Won,
                    Outcome::Lose => State::LostAwaitingRetry(id),
                    Outcome::NotTerminal => State::Halted(HaltReason::InvalidOutcome(id)),
                }
            },
        },
        _ => state,
    }
}

/// The state after a typed line has been offered as a choice, and what is reported of
/// the line.
pub open spec fn chosen(story: StoryView, state: State, line: Seq<char>) -> (State, ChoiceReport) {
    match state {
        State::Active(id) => match typed_label(line) {
            None => (state, ChoiceReport::InvalidInput),
            Some(label) => match story.lookup(id) {
                Some(node) => match node.choice(label) {
                    Some(choice) => (State::Active(choice.next_id), ChoiceReport::Accepted),
                    None => (state, ChoiceReport::UnknownChoice),
                },
                None => (state, ChoiceReport::UnknownChoice),
            },
        },
        _ => (state, ChoiceReport::NotActive),
    }
}

/// The state after the player has said whether to step back from a loss.
pub open spec fn retried(story: StoryView, state: State, yes: bool) -> State {
    match state {
        State::LostAwaitingRetry(id) => if yes {
            match story.predecessor(id) {
                Some(node) => State::Active(node.id),
                None => State::Ended,
            }
        } else {
            State::Ended
        },
        _ => state,
    }
}

/// The state after one typed line: the node under the cursor is looked at, and the line
/// is taken as a choice, or as the answer to whether to step back, whichever the engine
/// then waits for. A traversal that has ended takes no line.
pub open spec fn fed(story: StoryView, state: State, line: Seq<char>) -> State {
    let now = resolved(story, state);
    match now {
        State::Active(_) => chosen(story, now, line).0,
        State::LostAwaitingRetry(_) => retried(story, now, says_yes(line)),
        _ => now,
    }
}

/// The state after a whole script of typed lines, taken one by one.
pub open spec fn session(story: StoryView, state: State, lines: Seq<Seq<char>>) -> State
    decreases lines.len(),
{
    if lines.len() == 0 {
        resolved(story, state)
    } else {
        session(story, fed(story, state, lines[0]), lines.skip(1))
    }
}

/// The views of a sequence of lines, in the same order.
pub open spec fn line_views(lines: Seq<String>) -> Seq<Seq<char>> {
    lines.map_values(|l: String| l@)
}

/// The mathematical value of an [`Engine`]: an immutable story and the one thing that
/// changes, the state.
pub struct EngineView {
    pub story: StoryView,
    pub state: State,
}

/// A traversal of one story.
pub struct Engine {
    index: GraphIndex,
    state: State,
}

impl View for Engine {
    type V = EngineView;

    closed spec fn view(&self) -> EngineView {
        EngineView { story: self.index@, state: self.state }
    }
}

impl Engine {
    /// A traversal that stands on the entry node.
    pub fn new(index: GraphIndex) -> (engine: Engine)
        ensures
            engine@ == (EngineView { story: index@, state: State::Active(ENTRY_ID) }),
    {
        Engine { index, state: State::Active(ENTRY_ID) }
    }

    /// A traversal that stands on the node with the identifier `id`.
    pub fn starting_at(index: GraphIndex, id: u32) -> (engine: Engine)
        ensures
            engine@ == (EngineView { story: index@, state: State::Active(id) }),
    {
        Engine { index, state: State::Active(id) }
    }

    pub fn state(&self) -> (state: State)
        ensures
            state == self@.state,
    {
        self.state
    }

    /// The story and its index.
    pub fn index(&self) -> (index: &GraphIndex)
        ensures
            index@ == self@.story,
    {
        &self.index
    }

    /// The node under the cursor, whose text and choices are to be shown: there is one
    /// while the traversal is active and the cursor stands on an identifier that some
    /// node carries.
    pub fn current_node(&self) -> (node: Option<&Node>)
        ensures
            match self@.state {
                State::Active(id) => match node {
                    Some(n) => self@.story.lookup(id) == Some(n@),
                    None => self@.story.lookup(id) is None,
                },
                _ => node is None,
            },
    {
        match self.state {
            State::Active(id) => self.index.lookup(id),
            _ => None,
        }
    }

    /// Looks at the node under the cursor and ends the story there if the node is
    /// terminal. Returns the new state.
    pub fn resolve(&mut self) -> (state: State)
        ensures
            final(self)@.story == old(self)@.story,
            final(self)@.state == resolved(old(self)@.story, old(self)@.state),
            state == final(self)@.state,
    {
        if let State::Active(id) = self.state {
            let next = match self.index.lookup(id) {
                None => State::Halted(HaltReason::UnknownNode(id)),
                Some(node) => {
                    if !node.is_terminal() {
                        State::Active(id)
                    } else {
                        match node.outcome() {
                            Outcome::Win => State::Won,
                            Outcome::Lose => State::LostAwaitingRetry(id),
                            Outcome::NotTerminal => State::Halted(HaltReason::InvalidOutcome(id)),
                        }
                    }
                },
            };
            self.state = next;
        }
        self.state
    }

    /// Offers a typed line as the player's choice.
    ///
    /// The cursor moves only where the engine is active and the line, white space
    /// aside, is the label of a choice of the current node. Any other line is reported
    /// and leaves the state as it was.
    pub fn submit_choice(&mut self, line: &str) -> (report: ChoiceReport)
        ensures
            final(self)@.story == old(self)@.story,
            (final(self)@.state, report) == chosen(old(self)@.story, old(self)@.state, line@),
    {
        let id = match self.state {
            State::Active(id) => id,
            _ => {
                return ChoiceReport::NotActive;
            },
        };
        let label = match parse_label(line) {
            Some(label) => label,
            None => {
                return ChoiceReport::InvalidInput;
            },
        };
        let next_id = match self.index.lookup(id) {
            Some(node) => match node.choice(label) {
                Some(choice) => choice.next_id,
                None => {
                    return ChoiceReport::UnknownChoice;
                },
            },
            None => {
                return ChoiceReport::UnknownChoice;
            },
        };
        self.state = State::Active(next_id);
        ChoiceReport::Accepted
    }

    /// Takes the player's answer to whether to step back from a loss.
    ///
    /// With `yes`, the cursor goes to the first declared node that leads to the node of
    /// the loss; where no node leads there, and with any other answer, the story has
    /// ended. Returns whether the engine was waiting for the answer; where it was not,
    /// nothing changes.
    pub fn submit_retry(&mut self, yes: bool) -> (taken: bool)
        ensures
            final(self)@.story == old(self)@.story,
            final(self)@.state == retried(old(self)@.story, old(self)@.state, yes),
            taken == (old(self)@.state is LostAwaitingRetry),
    {
        let id = match self.state {
            State::LostAwaitingRetry(id) => id,
            _ => {
                return false;
            },
        };
        let next = if yes {
            match self.index.find_predecessor(id) {
                Some(node) => State::Active(node.id()),
                None => State::Ended,
            }
        } else {
            State::Ended
        };
        self.state = next;
        true
    }

    /// Takes one typed line as a session does: looks at the node under the cursor, then
    /// hands the line to whatever the engine waits for. Returns the new state.
    pub fn feed(&mut self, line: &str) -> (state: State)
        ensures
            final(self)@.story == old(self)@.story,
            final(self)@.state == fed(old(self)@.story, old(self)@.state, line@),
            state == final(self)@.state,
    {
        match self.resolve() {
            State::Active(_) => {
                let _ = self.submit_choice(line);
            },
            State::LostAwaitingRetry(_) => {
                let _ = self.submit_retry(is_yes(line));
            },
            _ => {},
        }
        self.state
    }

    /// Plays a whole script of typed lines and looks at the node on which it ends.
    /// Returns the state in which the script leaves the traversal.
    pub fn run(&mut self, lines: &Vec<String>) -> (state: State)
        ensures
            final(self)@.story == old(self)@.story,
            final(self)@.state == session(old(self)@.story, old(self)@.state, line_views(lines@)),
            state == final(self)@.state,
    {
        let ghost story = self@.story;
        let ghost all = line_views(lines@);
        let mut i: usize = 0;
        assert(all.skip(0) =~= all);
        while i < lines.len()
            invariant
                i <= lines.len(),
                all == line_views(lines@),
                self@.story == story,
                session(story, self@.state, all.skip(i as int)) == session(
                    story,
                    old(self)@.state,
                    all,
                ),
            decreases lines.len() - i,
        {
            let ghost rest = all.skip(i as int);
            assert(rest[0] == lines@[i as int]@);
            assert(rest.skip(1) =~= all.skip(i + 1));
            self.feed(lines[i].as_str());
            i += 1;
        }
        self.resolve()
    }
}

} // verus!
