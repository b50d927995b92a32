//! What is put before the player for a node: its text, broken into lines, and its
//! choices.

use crate::story::{choice_views, ChoiceView, Node, NodeView};
use vstd::prelude::*;

verus! {

/// The text that `textwrap::fill` makes of `text` for lines of `width` columns.
pub uninterp spec fn filled(text: Seq<char>, width: usize) -> Seq<char>;

/// Calls `textwrap::fill` with a plain width, which breaks `text` into lines of at most
/// `width` columns where the words allow it, and joins the lines with line feeds.
///
/// Believed: the outcome depends on `text` and `width` alone, so that it can be named
/// `filled(text, width)`.
#[verifier::external_body]
fn fill_lines(text: &str, width: usize) -> (lines: String)
    ensures
        lines@ == filled(text@, width),
{
    textwrap::fill(text, width)
}

/// One choice as it is shown: its label and its text.
#[derive(Debug, PartialEq, Eq)]
pub struct Offer {
    pub label: u32,
    pub text: String,
}

/// The mathematical value of an [`Offer`].
pub struct OfferView {
    pub label: u32,
    pub text: Seq<char>,
}

impl View for Offer {
    type V = OfferView;

    open spec fn view(&self) -> OfferView {
        OfferView { label: self.label, text: self.text@ }
    }
}

/// What is shown for a node.
#[derive(Debug, PartialEq, Eq)]
pub struct Screen {
    /// The text of the node, broken into lines.
    pub text: String,
    /// The choices of the node, in the order in which the node holds them.
    pub offers: Vec<Offer>,
}

/// The mathematical value of a [`Screen`].
pub struct ScreenView {
    pub text: Seq<char>,
    pub offers: Seq<OfferView>,
}

impl View for Screen {
    type V = ScreenView;

    open spec fn view(&self) -> ScreenView {
        ScreenView { text: self.text@, offers: self.offers@.map_values(|o: Offer| o@) }
    }
}

/// The offer that stands for a choice.
pub open spec fn offer_of(choice: ChoiceView) -> OfferView {
    OfferView { label: choice.label, text: choice.text }
}

/// What is shown for `node` on lines of `width` columns.
pub open spec fn screen_of(node: NodeView, width: usize) -> ScreenView {
    ScreenView {
        text: filled(node.text, width),
        offers: node.choices.map_values(|c: ChoiceView| offer_of(c)),
    }
}

/// Lays out `node` for lines of `width` columns: the text is broken into lines, and each
/// choice is offered under its label, in the order in which the node holds them. A
/// terminal node has a text and no offers.
pub fn lay_out(node: &Node, width: usize) -> (screen: Screen)
    ensures
        screen@ == screen_of(node@, width),
{
    let text = fill_lines(node.text(), width);
    let choices = node.choices();
    let mut offers: Vec<Offer> = Vec::new();
    let mut j: usize = 0;
    while j < choices.len()
        invariant
            j <= choices.len(),
            offers@.len() == j,
            forall|k: int| 0 <= k < j ==> (#[trigger] offers@[k])@ == offer_of(choices@[k]@),
        decreases choices.len() - j,
    {
        let choice = &choices[j];
        offers.push(Offer { label: choice.label, text: choice.text.clone() });
        j += 1;
    }
    let screen = Screen { text, offers };
    proof {
        let views = choice_views(choices@);
        assert forall|k: int| 0 <= k < views.len() implies (#[trigger] screen@.offers[k]) == offer_of(
            views[k],
        ) by {
            assert(screen@.offers[k] == offers@[k]@);
            assert(views[k] == choices@[k]@);
        }
        assert(screen@.offers =~= node@.choices.map_values(|c: ChoiceView| offer_of(c)));
    }
    screen
}

} // verus!
