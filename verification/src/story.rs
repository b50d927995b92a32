//! The story model: choices, nodes and stories, each with its mathematical view.

use crate::first::{first_where, lemma_first_absent, lemma_first_found};
use vstd::prelude::*;

verus! {

/// The identifier of the node at which every traversal starts.
pub const ENTRY_ID: u32 = 1;

/// How a node without choices ends the story.
///
/// `NotTerminal` stands for a node that carries no usable outcome flag. That is
/// in order for a node with choices; on a node without choices it marks a
/// broken story.
#[derive(Clone, Copy, Debug, PartialEq, Eq, Structural)]
pub enum Outcome {
    Win,
    Lose,
    NotTerminal,
}

/// One labelled option of a node.
#[derive(Debug, PartialEq, Eq)]
pub struct Choice {
    pub label: u32,
    pub text: String,
    pub next_id: u32,
}

/// The mathematical value of a [`Choice`].
pub struct ChoiceView {
    pub label: u32,
    pub text: Seq<char>,
    pub next_id: u32,
}

impl View for Choice {
    type V = ChoiceView;

    open spec fn view(&self) -> ChoiceView {
        ChoiceView { label: self.label, text: self.text@, next_id: self.next_id }
    }
}

impl Clone for Choice {
    fn clone(&self) -> (copy: Choice)
        ensures
            copy == *self,
    {
        Choice { label: self.label, text: self.text.clone(), next_id: self.next_id }
    }
}

/// The views of a sequence of choices, in the same order.
pub open spec fn choice_views(choices: Seq<Choice>) -> Seq<ChoiceView> {
    choices.map_values(|c: Choice| c@)
}

/// True when some choice in `choices` is offered under `label`.
pub open spec fn has_label(choices: Seq<ChoiceView>, label: u32) -> bool {
    exists|j: int| 0 <= j < choices.len() && (#[trigger] choices[j]).label == label
}

/// True when no two choices in `choices` share a label.
pub open spec fn labels_distinct(choices: Seq<ChoiceView>) -> bool {
    forall|j: int, k: int|
        0 <= j < k < choices.len() ==> (#[trigger] choices[j]).label != (#[trigger] choices[k]).label
}

/// The mathematical value of a [`Node`].
pub struct NodeView {
    pub id: u32,
    pub text: Seq<char>,
    pub choices: Seq<ChoiceView>,
    pub outcome: Outcome,
}

impl NodeView {
    /// A node is terminal exactly when it offers no choice.
    pub open spec fn is_terminal(self) -> bool {
        self.choices.len() == 0
    }

    /// The choice offered under `label`, if there is one.
    pub open spec fn choice(self, label: u32) -> Option<ChoiceView> {
        if has_label(self.choices, label) {
            Some(self.choices[choose|j: int| 0 <= j < self.choices.len() && (#[trigger] self.choices[j]).label == label])
        } else {
            None
        }
    }

    /// True when some choice of this node leads to `target`.
    pub open spec fn leads_to(self, target: u32) -> bool {
        exists|j: int| 0 <= j < self.choices.len() && (#[trigger] self.choices[j]).next_id == target
    }
}

/// One unit of the story: a text, and the choices that lead on from it.
///
/// No two choices of a node share a label.
#[derive(Debug, PartialEq, Eq)]
pub struct Node {
    id: u32,
    text: String,
    choices: Vec<Choice>,
    outcome: Outcome,
}

impl View for Node {
    type V = NodeView;

    closed spec fn view(&self) -> NodeView {
        NodeView {
            id: self.id,
            text: self.text@,
            choices: choice_views(self.choices@),
            outcome: self.outcome,
        }
    }
}

impl Clone for Node {
    fn clone(&self) -> (copy: Node)
        ensures
            copy@ == self@,
    {
        proof {
            use_type_invariant(self);
        }
        let mut choices: Vec<Choice> = Vec::new();
        let mut j: usize = 0;
        while j < self.choices.len()
            invariant
                j <= self.choices.len(),
                choices@ == self.choices@.take(j as int),
            decreases self.choices.len() - j,
        {
            choices.push(self.choices[j].clone());
            assert(choices@ =~= self.choices@.take(j + 1));
            j += 1;
        }
        assert(choices@ =~= self.choices@);
        Node { id: self.id, text: self.text.clone(), choices, outcome: self.outcome }
    }
}

impl Node {
    #[verifier::type_invariant]
    spec fn inv(self) -> bool {
        labels_distinct(choice_views(self.choices@))
    }

    /// A node without choices.
    pub fn new(id: u32, text: String, outcome: Outcome) -> (node: Node)
        ensures
            node@ == (NodeView { id, text: text@, choices: Seq::empty(), outcome }),
    {
        let node = Node { id, text, choices: Vec::new(), outcome };
        assert(choice_views(node.choices@) =~= Seq::empty());
        node
    }

    pub fn id(&self) -> (id: u32)
        ensures
            id == self@.id,
    {
        self.id
    }

    pub fn text(&self) -> (text: &str)
        ensures
            text@ == self@.text,
    {
        self.text.as_str()
    }

    pub fn outcome(&self) -> (outcome: Outcome)
        ensures
            outcome == self@.outcome,
    {
        self.outcome
    }

    /// The choices of this node, in the order in which they were added.
    pub fn choices(&self) -> (choices: &Vec<Choice>)
        ensures
            choice_views(choices@) == self@.choices,
            labels_distinct(self@.choices),
    {
        proof {
            use_type_invariant(self);
        }
        &self.choices
    }

    pub fn is_terminal(&self) -> (terminal: bool)
        ensures
            terminal == self@.is_terminal(),
    {
        self.choices.len() == 0
    }

    /// The position of the choice offered under `label`.
    fn position(&self, label: u32) -> (found: Option<usize>)
        ensures
            match found {
                Some(j) => j < self.choices@.len() && self.choices@[j as int].label == label,
                None => !has_label(self@.choices, label),
            },
    {
        let mut j: usize = 0;
        while j < self.choices.len()
            invariant
                j <= self.choices.len(),
                forall|k: int| 0 <= k < j ==> self.choices@[k].label != label,
            decreases self.choices.len() - j,
        {
            if self.choices[j].label == label {
                return Some(j);
            }
            j += 1;
        }
        assert forall|k: int| 0 <= k < self@.choices.len() implies (#[trigger] self@.choices[k]).label
            != label by {
            assert(self@.choices[k] == self.choices@[k]@);
        }
        None
    }

    /// The choice offered under `label`, if there is one.
    pub fn choice(&self, label: u32) -> (found: Option<&Choice>)
        ensures
            match found {
                Some(c) => self@.choice(label) == Some(c@),
                None => self@.choice(label) is None,
            },
    {
        proof {
            use_type_invariant(self);
        }
        match self.position(label) {
            Some(j) => {
                proof {
                    let views = self@.choices;
                    assert(views[j as int] == self.choices@[j as int]@);
                    let k = choose|k: int| 0 <= k < views.len() && (#[trigger] views[k]).label == label;
                    assert(k == j) by {
                        if k < j {
                            assert(views[k].label != views[j as int].label);
                        } else if j < k {
                            assert(views[j as int].label != views[k].label);
                        }
                    }
                }
                Some(&self.choices[j])
            },
            None => None,
        }
    }

    /// Offers `choice` under its label, unless that label is already taken.
    ///
    /// Returns whether the choice was added; a node whose label is taken is left as it was.
    pub fn add_choice(&mut self, choice: Choice) -> (added: bool)
        ensures
            added == !has_label(old(self)@.choices, choice.label),
            added ==> final(self)@ == (NodeView {
                choices: old(self)@.choices.push(choice@),
                ..old(self)@
            }),
            !added ==> *final(self) == *old(self),
    {
        proof {
            use_type_invariant(&*self);
        }
        match self.position(choice.label) {
            Some(j) => {
                assert(self@.choices[j as int] == self.choices@[j as int]@);
                false
            },
            None => {
                let ghost before = self@.choices;
                let ghost added = choice@;
                let mut choices: Vec<Choice> = Vec::new();
                assert(choice_views(choices@) =~= Seq::empty());
                core::mem::swap(&mut self.choices, &mut choices);
                choices.push(choice);
                proof {
                    let after = choice_views(choices@);
                    assert(after =~= before.push(added));
                    assert forall|j: int, k: int| 0 <= j < k < after.len() implies (#[trigger] after[j]).label
                        != (#[trigger] after[k]).label by {
                        if k < before.len() {
                            assert(before[j].label != before[k].label);
                        } else {
                            assert(before[j].label != added.label);
                        }
                    }
                }
                core::mem::swap(&mut self.choices, &mut choices);
                true
            },
        }
    }

    /// Whether some choice of this node leads to `target`.
    pub fn leads_to(&self, target: u32) -> (leads: bool)
        ensures
            leads == self@.leads_to(target),
    {
        let mut j: usize = 0;
        while j < self.choices.len()
            invariant
                j <= self.choices.len(),
                forall|k: int| 0 <= k < j ==> self.choices@[k].next_id != target,
            decreases self.choices.len() - j,
        {
            if self.choices[j].next_id == target {
                assert(self@.choices[j as int] == self.choices@[j as int]@);
                return true;
            }
            j += 1;
        }
        assert forall|k: int| 0 <= k < self@.choices.len() implies (#[trigger] self@.choices[k]).next_id
            != target by {
            assert(self@.choices[k] == self.choices@[k]@);
        }
        false
    }
}

/// The views of a sequence of nodes, in the same order.
pub open spec fn node_views(nodes: Seq<Node>) -> Seq<NodeView> {
    nodes.map_values(|n: Node| n@)
}

/// The test "has the identifier `id`".
pub open spec fn with_id(id: u32) -> spec_fn(NodeView) -> bool {
    |n: NodeView| n.id == id
}

/// The test "has a choice that leads to `target`".
pub open spec fn leading_to(target: u32) -> spec_fn(NodeView) -> bool {
    |n: NodeView| n.leads_to(target)
}

/// The mathematical value of a [`Story`].
pub struct StoryView {
    pub title: Seq<char>,
    pub nodes: Seq<NodeView>,
}

impl StoryView {
    /// The node that an identifier stands for: the first declared node that carries it.
    pub open spec fn lookup(self, id: u32) -> Option<NodeView> {
        first_where(self.nodes, with_id(id))
    }

    /// The node to which a traversal steps back from `target`: the first declared node
    /// with a choice that leads there.
    pub open spec fn predecessor(self, target: u32) -> Option<NodeView> {
        first_where(self.nodes, leading_to(target))
    }

    /// True when the story has the node at which every traversal starts.
    pub open spec fn has_entry(self) -> bool {
        self.lookup(ENTRY_ID) is Some
    }
}

/// A title and the nodes of the graph, in the order in which they were declared.
///
/// Two nodes may carry the same identifier, and a choice may lead to an identifier that
/// no node carries.
#[derive(Debug, PartialEq, Eq)]
pub struct Story {
    title: String,
    nodes: Vec<Node>,
}

impl View for Story {
    type V = StoryView;

    closed spec fn view(&self) -> StoryView {
        StoryView { title: self.title@, nodes: node_views(self.nodes@) }
    }
}

impl Story {
    pub fn new(title: String, nodes: Vec<Node>) -> (story: Story)
        ensures
            story@ == (StoryView { title: title@, nodes: node_views(nodes@) }),
    {
        Story { title, nodes }
    }

    pub fn title(&self) -> (title: &str)
        ensures
            title@ == self@.title,
    {
        self.title.as_str()
    }

    /// The nodes of the story, in the order in which they were declared.
    pub fn nodes(&self) -> (nodes: &Vec<Node>)
        ensures
            node_views(nodes@) == self@.nodes,
    {
        &self.nodes
    }

    /// Whether the story has the node at which every traversal starts.
    pub fn has_entry(&self) -> (present: bool)
        ensures
            present == self@.has_entry(),
    {
        let mut i: usize = 0;
        while i < self.nodes.len()
            invariant
                i <= self.nodes.len(),
                forall|j: int| 0 <= j < i ==> self.nodes@[j]@.id != ENTRY_ID,
            decreases self.nodes.len() - i,
        {
            if self.nodes[i].id() == ENTRY_ID {
                proof {
                    let views = self@.nodes;
                    assert forall|j: int| 0 <= j < i implies !with_id(ENTRY_ID)(#[trigger] views[j]) by {
                        assert(views[j] == self.nodes@[j]@);
                    }
                    assert(views[i as int] == self.nodes@[i as int]@);
                    lemma_first_found(views, with_id(ENTRY_ID), i as int);
                }
                return true;
            }
            i += 1;
        }
        proof {
            let views = self@.nodes;
            assert forall|j: int| 0 <= j < views.len() implies !with_id(ENTRY_ID)(#[trigger] views[j]) by {
                assert(views[j] == self.nodes@[j]@);
            }
            lemma_first_absent(views, with_id(ENTRY_ID));
        }
        false
    }
}

} // verus!
