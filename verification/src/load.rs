//! The loader: from the bytes of a JSON document to a story.
//!
//! A document is an object with a `title` and a list of `entries`. An entry is an object
//! with an `id`, a `text`, its `options` and, to say how the story ends there, a `win`
//! flag. The options are an object whose member names are the labels, each member an
//! object with a `text` and a `next_id`. Members with other names are ignored.

use crate::document::{inspect, json_document, json_shape, member_views, read_json, JsonNode, JsonShape};
use crate::first::{first_where, lemma_first_absent, lemma_first_found};
use crate::input::{canonical_decimal, parse_key};
use crate::story::{
    has_label, labels_distinct, node_views, Choice, ChoiceView, Node, NodeView, Outcome, Story,
    StoryView,
};
use serde_json::Value;
use vstd::prelude::*;

verus! {

/// Why a document is not a story.
#[derive(Clone, Copy, Debug, PartialEq, Eq, Structural)]
pub enum LoadError {
    /// The bytes are not a JSON document, or a field that a story needs is missing
    /// or holds a value of the wrong kind.
    Malformed,
    /// The document holds no node with the identifier at which traversals start.
    MissingEntry,
}

/// The test "is named `key`" on the members of an object.
pub open spec fn named(key: Seq<char>) -> spec_fn((Seq<char>, Value)) -> bool {
    |m: (Seq<char>, Value)| m.0 == key
}

/// The value of the member of `shape` that is named `key`, where `shape` is an object
/// that has such a member.
pub open spec fn field(shape: JsonShape, key: Seq<char>) -> Option<Value> {
    match shape {
        JsonShape::Object(members) => match first_where(members, named(key)) {
            Some(m) => Some(m.1),
            None => None,
        },
        _ => None,
    }
}

/// The text that `value` holds, where it is there and is a string.
pub open spec fn text_of(value: Option<Value>) -> Option<Seq<char>> {
    match value {
        Some(v) => match json_shape(v) {
            JsonShape::Text(s) => Some(s),
            _ => None,
        },
        None => None,
    }
}

/// The identifier or label that `value` holds, where it is there and is a whole number
/// from 0 to 2^32 - 1.
pub open spec fn number_of(value: Option<Value>) -> Option<u32> {
    match value {
        Some(v) => match json_shape(v) {
            JsonShape::Number(Some(n)) => if n <= u32::MAX {
                Some(n as u32)
            } else {
                None
            },
            _ => None,
        },
        None => None,
    }
}

/// The outcome that a `win` flag stands for: a win for `true`, a loss for `false`, and
/// no outcome where the flag is missing or is not a boolean.
pub open spec fn outcome_of(value: Option<Value>) -> Outcome {
    match value {
        Some(v) => match json_shape(v) {
            JsonShape::Bool(true) => Outcome::Win,
            JsonShape::Bool(false) => Outcome::Lose,
            _ => Outcome::NotTerminal,
        },
        None => Outcome::NotTerminal,
    }
}

/// The items that `value` holds, where it is there and is a list.
pub open spec fn items_of(value: Option<Value>) -> Option<Seq<Value>> {
    match value {
        Some(v) => match json_shape(v) {
            JsonShape::List(items) => Some(items),
            _ => None,
        },
        None => None,
    }
}

/// The members that `value` holds, where it is there and is an object.
pub open spec fn members_of(value: Option<Value>) -> Option<Seq<(Seq<char>, Value)>> {
    match value {
        Some(v) => match json_shape(v) {
            JsonShape::Object(members) => Some(members),
            _ => None,
        },
        None => None,
    }
}

/// The values of a sequence of options, where each of them is there.
pub open spec fn all_of<A>(s: Seq<Option<A>>) -> Option<Seq<A>> {
    if forall|i: int| 0 <= i < s.len() ==> (#[trigger] s[i]) is Some {
        Some(Seq::new(s.len(), |i: int| s[i].unwrap()))
    } else {
        None
    }
}

/// The choice that one member of an `options` object stands for: its name is the label,
/// written in decimal digits, and its value is an object with a `text` and a `next_id`.
pub open spec fn choice_of(member: (Seq<char>, Value)) -> Option<ChoiceView> {
    let shape = json_shape(member.1);
    match (
        canonical_decimal(member.0),
        text_of(field(shape, "text"@)),
        number_of(field(shape, "next_id"@)),
    ) {
        (Some(label), Some(text), Some(next_id)) => Some(ChoiceView { label, text, next_id }),
        _ => None,
    }
}

/// The choices that the members of an `options` object stand for, in the order of the
/// members: each member is a choice, and no two of them have the same label.
pub open spec fn choices_of(members: Seq<(Seq<char>, Value)>) -> Option<Seq<ChoiceView>> {
    match all_of(members.map_values(|m: (Seq<char>, Value)| choice_of(m))) {
        Some(choices) => if labels_distinct(choices) {
            Some(choices)
        } else {
            None
        },
        None => None,
    }
}

/// The node that one entry stands for.
pub open spec fn node_of(value: Value) -> Option<NodeView> {
    let shape = json_shape(value);
    match (
        number_of(field(shape, "id"@)),
        text_of(field(shape, "text"@)),
        members_of(field(shape, "options"@)),
    ) {
        (Some(id), Some(text), Some(members)) => match choices_of(members) {
            Some(choices) => Some(
                NodeView { id, text, choices, outcome: outcome_of(field(shape, "win"@)) },
            ),
            None => None,
        },
        _ => None,
    }
}

/// The nodes that a list of entries stands for, in the order of the list.
pub open spec fn nodes_of(items: Seq<Value>) -> Option<Seq<NodeView>> {
    all_of(items.map_values(|v: Value| node_of(v)))
}

/// The story that a document stands for, where it has the fields of a story and each
/// of them holds a value of the right kind.
pub open spec fn story_of(value: Value) -> Option<StoryView> {
    let shape = json_shape(value);
    match (text_of(field(shape, "title"@)), items_of(field(shape, "entries"@))) {
        (Some(title), Some(items)) => match nodes_of(items) {
            Some(nodes) => Some(StoryView { title, nodes }),
            None => None,
        },
        _ => None,
    }
}

/// What loading makes of a document: the story it stands for, if that story has its
/// entry node.
pub open spec fn story_of_document(document: Option<Value>) -> Result<StoryView, LoadError> {
    match document {
        Some(value) => match story_of(value) {
            Some(story) => if story.has_entry() {
                Ok(story)
            } else {
                Err(LoadError::MissingEntry)
            },
            None => Err(LoadError::Malformed),
        },
        None => Err(LoadError::Malformed),
    }
}

/// What loading makes of the bytes of a document.
pub open spec fn loaded(bytes: Seq<u8>) -> Result<StoryView, LoadError> {
    story_of_document(json_document(bytes))
}

/// True when `result` is what loading had to give for `expected`.
pub open spec fn delivers(result: Result<Story, LoadError>, expected: Result<StoryView, LoadError>) -> bool {
    match expected {
        Ok(view) => result matches Ok(story) && story@ == view,
        Err(e) => result matches Err(r) && r == e,
    }
}

/// The value behind an optional reference.
pub open spec fn pointee(value: Option<&Value>) -> Option<Value> {
    match value {
        Some(v) => Some(*v),
        None => None,
    }
}

/// The member of `node` that is named `key`.
fn find_member<'a>(node: &JsonNode<'a>, key: &str) -> (found: Option<&'a Value>)
    ensures
        pointee(found) == field(node@, key@),
{
    match node {
        JsonNode::Object(members) => {
            let wanted = key.to_owned();
            let ghost views = member_views(members@);
            let mut i: usize = 0;
            while i < members.len()
                invariant
                    i <= members.len(),
                    wanted@ == key@,
                    views == member_views(members@),
                    node@ == JsonShape::Object(views),
                    forall|j: int| 0 <= j < i ==> !named(key@)(#[trigger] views[j]),
                decreases members.len() - i,
            {
                let member = members[i];
                assert(views[i as int] == (member.0@, *member.1));
                if *member.0 == wanted {
                    proof {
                        lemma_first_found(views, named(key@), i as int);
                    }
                    return Some(member.1);
                }
                i += 1;
            }
            proof {
                lemma_first_absent(views, named(key@));
            }
            None
        },
        _ => None,
    }
}

/// The text that `value` holds.
fn read_text(value: Option<&Value>) -> (text: Option<String>)
    ensures
        match text_of(pointee(value)) {
            Some(s) => text matches Some(t) && t@ == s,
            None => text is None,
        },
{
    match value {
        Some(v) => match inspect(v) {
            JsonNode::Text(s) => Some(s.to_owned()),
            _ => None,
        },
        None => None,
    }
}

/// The identifier or label that `value` holds.
fn read_number(value: Option<&Value>) -> (number: Option<u32>)
    ensures
        number == number_of(pointee(value)),
{
    match value {
        Some(v) => match inspect(v) {
            JsonNode::Number(Some(n)) => if n <= u32::MAX as u64 {
                Some(n as u32)
            } else {
                None
            },
            _ => None,
        },
        None => None,
    }
}

/// The outcome that a `win` flag stands for.
fn read_outcome(value: Option<&Value>) -> (outcome: Outcome)
    ensures
        outcome == outcome_of(pointee(value)),
{
    match value {
        Some(v) => match inspect(v) {
            JsonNode::Bool(true) => Outcome::Win,
            JsonNode::Bool(false) => Outcome::Lose,
            _ => Outcome::NotTerminal,
        },
        None => Outcome::NotTerminal,
    }
}

/// The choice that one member of an `options` object stands for.
fn read_choice(name: &String, value: &Value) -> (choice: Option<Choice>)
    ensures
        match choice_of((name@, *value)) {
            Some(view) => choice matches Some(c) && c@ == view,
            None => choice is None,
        },
{
    let node = inspect(value);
    let label = parse_key(name.as_str());
    let text = read_text(find_member(&node, "text"));
    let next_id = read_number(find_member(&node, "next_id"));
    match (label, text, next_id) {
        (Some(label), Some(text), Some(next_id)) => Some(Choice { label, text, next_id }),
        _ => None,
    }
}

/// The node that one entry stands for.
fn read_node(value: &Value) -> (node: Option<Node>)
    ensures
        match node_of(*value) {
            Some(view) => node matches Some(n) && n@ == view,
            None => node is None,
        },
{
    let entry = inspect(value);
    let id = read_number(find_member(&entry, "id"));
    let text = read_text(find_member(&entry, "text"));
    let options = find_member(&entry, "options");
    let outcome = read_outcome(find_member(&entry, "win"));
    let (id, text, options) = match (id, text, options) {
        (Some(id), Some(text), Some(options)) => (id, text, options),
        _ => {
            return None;
        },
    };
    let members = match inspect(options) {
        JsonNode::Object(members) => members,
        _ => {
            return None;
        },
    };
    let ghost views = member_views(members@);
    let ghost decoded = views.map_values(|m: (Seq<char>, Value)| choice_of(m));
    let ghost empty = NodeView { id, text: text@, choices: Seq::empty(), outcome };
    let mut node = Node::new(id, text, outcome);
    let mut i: usize = 0;
    assert(Seq::new(0, |j: int| decoded[j].unwrap()) =~= Seq::<ChoiceView>::empty());
    while i < members.len()
        invariant
            i <= members.len(),
            views == member_views(members@),
            decoded == views.map_values(|m: (Seq<char>, Value)| choice_of(m)),
            node_of(*value) == match choices_of(views) {
                Some(choices) => Some(NodeView { choices, ..empty }),
                None => None,
            },
            forall|j: int| 0 <= j < i ==> (#[trigger] decoded[j]) is Some,
            node@ == (NodeView { choices: Seq::new(i as nat, |j: int| decoded[j].unwrap()), ..empty }),
        decreases members.len() - i,
    {
        let member = members[i];
        assert(views[i as int] == (member.0@, *member.1));
        let ghost before = node@.choices;
        match read_choice(member.0, member.1) {
            Some(choice) => {
                if !node.add_choice(choice) {
                    proof {
                        if all_of(decoded) is Some {
                            let all = all_of(decoded).unwrap();
                            let j = choose|j: int| 0 <= j < before.len() && (#[trigger] before[j]).label == choice.label;
                            assert(all[j] == before[j]);
                            assert(all[i as int] == choice@);
                            assert(!labels_distinct(all));
                        }
                    }
                    return None;
                }
                assert(node@.choices =~= Seq::new((i + 1) as nat, |j: int| decoded[j].unwrap()));
            },
            None => {
                assert(decoded[i as int] is None);
                return None;
            },
        }
        i += 1;
    }
    proof {
        let all = Seq::new(decoded.len(), |j: int| decoded[j].unwrap());
        assert(node@.choices =~= all);
    }
    let _ = node.choices();
    Some(node)
}

/// The nodes that a list of entries stands for.
fn read_nodes(items: &Vec<Value>) -> (nodes: Option<Vec<Node>>)
    ensures
        match nodes_of(items@) {
            Some(views) => nodes matches Some(n) && node_views(n@) == views,
            None => nodes is None,
        },
{
    let ghost decoded = items@.map_values(|v: Value| node_of(v));
    let mut nodes: Vec<Node> = Vec::new();
    let mut i: usize = 0;
    while i < items.len()
        invariant
            i <= items.len(),
            decoded == items@.map_values(|v: Value| node_of(v)),
            nodes@.len() == i,
            forall|j: int| 0 <= j < i ==> (#[trigger] decoded[j]) is Some && nodes@[j]@ == decoded[j].unwrap(),
        decreases items.len() - i,
    {
        match read_node(&items[i]) {
            Some(node) => {
                nodes.push(node);
            },
            None => {
                assert(decoded[i as int] is None);
                return None;
            },
        }
        i += 1;
    }
    assert(node_views(nodes@) =~= Seq::new(decoded.len(), |j: int| decoded[j].unwrap()));
    Some(nodes)
}

/// Makes a story of a JSON document that has been read already.
///
/// The document is malformed where `title`, `entries`, or an entry's `id`, `text` or
/// `options` is missing or of the wrong kind, where the name of an option is no label,
/// or where an option lacks its `text` or `next_id`. A `win` flag that is missing or is
/// no boolean leaves the node without an outcome and is no error here. Neither is a
/// choice that leads to no node, or an identifier that two nodes carry.
pub fn story_from_value(value: &Value) -> (result: Result<Story, LoadError>)
    ensures
        delivers(result, story_of_document(Some(*value))),
{
    let document = inspect(value);
    let title = read_text(find_member(&document, "title"));
    let entries = find_member(&document, "entries");
    let (title, entries) = match (title, entries) {
        (Some(title), Some(entries)) => (title, entries),
        _ => {
            return Err(LoadError::Malformed);
        },
    };
    let items = match inspect(entries) {
        JsonNode::List(items) => items,
        _ => {
            return Err(LoadError::Malformed);
        },
    };
    match read_nodes(items) {
        Some(nodes) => {
            let story = Story::new(title, nodes);
            if story.has_entry() {
                Ok(story)
            } else {
                Err(LoadError::MissingEntry)
            }
        },
        None => Err(LoadError::Malformed),
    }
}

/// Reads `bytes` as a JSON document and makes a story of it.
///
/// Fails with [`LoadError::Malformed`] where `bytes` are no JSON document or the document
/// is no story, and with [`LoadError::MissingEntry`] where the story has no entry node.
pub fn parse(bytes: &[u8]) -> (result: Result<Story, LoadError>)
    ensures
        delivers(result, loaded(bytes@)),
{
    match read_json(bytes) {
        Some(value) => story_from_value(&value),
        None => Err(LoadError::Malformed),
    }
}

} // verus!
