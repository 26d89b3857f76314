//! What an expansion yields: items of token text, each behind a feature gate.

use crate::text::{lemma_spaced_push, spaced};
use vstd::prelude::*;
use vstd::string::*;

verus! {

/// The build feature that decides whether an item is compiled.
#[derive(Clone, Copy, Debug, PartialEq, Eq, Structural)]
pub enum Gate {
    /// Compiled where the primary backend is enabled.
    Cpu,
    /// Compiled where the secondary backend is enabled.
    Stack,
    /// Compiled where the accelerator backend is enabled.
    Nnapi,
    /// Compiled where automatic differentiation is enabled.
    Autograd,
    /// Compiled where automatic differentiation is not enabled.
    NotAutograd,
}

impl Gate {
    /// The attribute that makes an item depend on the feature.
    pub open spec fn spec_attribute(self) -> Seq<char> {
        match self {
            Gate::Cpu => "# [cfg (feature = \"cpu\")]"@,
            Gate::Stack => "# [cfg (feature = \"stack\")]"@,
            Gate::Nnapi => "# [cfg (feature = \"nnapi\")]"@,
            Gate::Autograd => "# [cfg (feature = \"autograd\")]"@,
            Gate::NotAutograd => "# [cfg (not (feature = \"autograd\"))]"@,
        }
    }

    /// The attribute that makes an item depend on the feature.
    pub fn attribute(self) -> (a: &'static str)
        ensures
            a@ == self.spec_attribute(),
    {
        match self {
            Gate::Cpu => "# [cfg (feature = \"cpu\")]",
            Gate::Stack => "# [cfg (feature = \"stack\")]",
            Gate::Nnapi => "# [cfg (feature = \"nnapi\")]",
            Gate::Autograd => "# [cfg (feature = \"autograd\")]",
            Gate::NotAutograd => "# [cfg (not (feature = \"autograd\"))]",
        }
    }
}

/// One item of an expansion.
pub struct GatedItem {
    pub gate: Gate,
    /// The tokens of the item, without its attribute.
    pub tokens: String,
}

/// What an item of an expansion holds.
pub struct GatedItemView {
    pub gate: Gate,
    pub tokens: Seq<char>,
}

impl View for GatedItem {
    type V = GatedItemView;

    open spec fn view(&self) -> GatedItemView {
        GatedItemView { gate: self.gate, tokens: self.tokens@ }
    }
}

/// The outcome of an expansion: its items in the order in which they are
/// written out.
pub struct Expansion {
    pub items: Vec<GatedItem>,
}

impl View for Expansion {
    type V = Seq<GatedItemView>;

    open spec fn view(&self) -> Seq<GatedItemView> {
        self.items@.map_values(|item: GatedItem| item@)
    }
}

/// The token text of `items`: each item's gate, then its tokens.
pub open spec fn rendered(items: Seq<GatedItemView>) -> Seq<char>
    decreases items.len(),
{
    if items.len() == 0 {
        Seq::empty()
    } else {
        rendered(items.drop_last()) + spaced(
            seq![items.last().gate.spec_attribute(), items.last().tokens],
        )
    }
}

impl Expansion {
    /// The token text of the whole expansion.
    pub fn render(&self) -> (text: String)
        ensures
            text@ == rendered(self@),
    {
        let mut text = String::new();
        let mut i: usize = 0;
        while i < self.items.len()
            invariant
                i <= self.items.len(),
                text@ == rendered(self@.take(i as int)),
            decreases self.items.len() - i,
        {
            let item = &self.items[i];
            proof {
                reveal_strlit(" ");
                assert(" "@ =~= seq![' ']);
                let parts = seq![item.gate.spec_attribute(), item.tokens@];
                lemma_spaced_push(seq![item.gate.spec_attribute()], item.tokens@);
                lemma_spaced_push(Seq::empty(), item.gate.spec_attribute());
                assert(parts =~= seq![item.gate.spec_attribute()].push(item.tokens@));
                assert(seq![item.gate.spec_attribute()] =~= Seq::<Seq<char>>::empty().push(
                    item.gate.spec_attribute(),
                ));
                assert(self@.take(i + 1).drop_last() =~= self@.take(i as int));
                assert(self@.take(i + 1).last() == item@);
            }
            text.append(item.gate.attribute());
            text.append(" ");
            text.append(item.tokens.as_str());
            text.append(" ");
            i += 1;
        }
        proof {
            assert(self@.take(i as int) =~= self@);
        }
        text
    }
}

} // verus!
