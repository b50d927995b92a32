//! The graph index: finds the node that an identifier stands for, and the node to step
//! back to from a given node.

use crate::first::{is_first, lemma_first_absent, lemma_first_found};
use crate::story::{leading_to, node_views, with_id, Node, NodeView, Story, StoryView};
use std::collections::HashMap;
use vstd::prelude::*;

verus! {

broadcast use vstd::std_specs::hash::group_hash_axioms;

/// True when `positions` maps each identifier that occurs in `nodes` to the first
/// position at which it occurs, and holds no other identifier.
spec fn indexes(positions: Map<u32, usize>, nodes: Seq<NodeView>) -> bool {
    forall|id: u32|
        if #[trigger] positions.contains_key(id) {
            is_first(nodes, with_id(id), positions[id] as int)
        } else {
            forall|i: int| 0 <= i < nodes.len() ==> (#[trigger] nodes[i]).id != id
        }
}

/// A story together with a table from identifiers to nodes, built once.
pub struct GraphIndex {
    story: Story,
    positions: HashMap<u32, usize>,
}

impl View for GraphIndex {
    type V = StoryView;

    closed spec fn view(&self) -> StoryView {
        self.story@
    }
}

impl GraphIndex {
    #[verifier::type_invariant]
    spec fn inv(self) -> bool {
        indexes(self.positions@, self.story@.nodes)
    }

    /// Indexes `story`. Where several nodes carry one identifier, the first declared
    /// one is the node that the identifier stands for.
    pub fn build(story: Story) -> (index: GraphIndex)
        ensures
            index@ == story@,
    {
        let mut positions: HashMap<u32, usize> = HashMap::new();
        let nodes = story.nodes();
        let ghost views = story@.nodes;
        let mut i: usize = 0;
        while i < nodes.len()
            invariant
                i <= nodes.len(),
                views == node_views(nodes@),
                indexes(positions@, views.take(i as int)),
            decreases nodes.len() - i,
        {
            let id = nodes[i].id();
            let ghost before = positions@;
            let ghost seen = views.take(i as int);
            let ghost grown = views.take(i + 1);
            assert(views[i as int] == nodes@[i as int]@);
            assert(grown[i as int].id == id);
            assert forall|j: int| 0 <= j < i implies #[trigger] grown[j] == seen[j] by {}
            if !positions.contains_key(&id) {
                positions.insert(id, i);
            }
            assert forall|other: u32| #[trigger] positions@.contains_key(other) implies is_first(
                grown,
                with_id(other),
                positions@[other] as int,
            ) by {
                if before.contains_key(other) {
                    let p = before[other] as int;
                    assert(is_first(seen, with_id(other), p));
                    assert(grown[p] == seen[p]);
                    assert forall|j: int| 0 <= j < p implies !with_id(other)(#[trigger] grown[j]) by {
                        assert(grown[j] == seen[j]);
                    }
                } else {
                    assert(other == id);
                    assert forall|j: int| 0 <= j < i implies !with_id(other)(#[trigger] grown[j]) by {
                        assert(seen[j].id != id);
                    }
                }
            }
            assert forall|other: u32| !(#[trigger] positions@.contains_key(other)) implies (forall|
                j: int,
            |
                0 <= j < grown.len() ==> (#[trigger] grown[j]).id != other) by {
                assert(!before.contains_key(other));
                assert forall|j: int| 0 <= j < grown.len() implies (#[trigger] grown[j]).id
                    != other by {
                    if j < i {
                        assert(seen[j].id != other);
                    }
                }
            }
            i += 1;
        }
        assert(views.take(i as int) =~= views);
        GraphIndex { story, positions }
    }

    /// The indexed story.
    pub fn story(&self) -> (story: &Story)
        ensures
            story@ == self@,
    {
        &self.story
    }

    /// The node that `id` stands for: the first declared node that carries it.
    pub fn lookup(&self, id: u32) -> (found: Option<&Node>)
        ensures
            match found {
                Some(node) => self@.lookup(id) == Some(node@),
                None => self@.lookup(id) is None,
            },
    {
        proof {
            use_type_invariant(self);
        }
        let nodes = self.story.nodes();
        let ghost views = self@.nodes;
        match self.positions.get(&id) {
            Some(p) => {
                proof {
                    assert(self.positions@.contains_key(id));
                    lemma_first_found(views, with_id(id), *p as int);
                    assert(views[*p as int] == nodes@[*p as int]@);
                }
                Some(&nodes[*p])
            },
            None => {
                proof {
                    assert(!self.positions@.contains_key(id));
                    lemma_first_absent(views, with_id(id));
                }
                None
            },
        }
    }

    /// The node to step back to from `target`: the first declared node with a choice
    /// that leads to `target`. Later nodes that lead there too are never returned.
    pub fn find_predecessor(&self, target: u32) -> (found: Option<&Node>)
        ensures
            match found {
                Some(node) => self@.predecessor(target) == Some(node@),
                None => self@.predecessor(target) is None,
            },
    {
        let nodes = self.story.nodes();
        let ghost views = self@.nodes;
        let mut i: usize = 0;
        while i < nodes.len()
            invariant
                i <= nodes.len(),
                views == self@.nodes,
                views == node_views(nodes@),
                forall|j: int| 0 <= j < i ==> !leading_to(target)(#[trigger] views[j]),
            decreases nodes.len() - i,
        {
            assert(views[i as int] == nodes@[i as int]@);
            if nodes[i].leads_to(target) {
                proof {
                    lemma_first_found(views, leading_to(target), i as int);
                }
                return Some(&nodes[i]);
            }
            i += 1;
        }
        proof {
            lemma_first_absent(views, leading_to(target));
        }
        None
    }
}

} // verus!
