//! Collects explanation nodes, each at the nesting depth it was found at.

use vstd::prelude::*;

use super::tree::{deeper, element_string, explain_nodes, items_nodes, RegexAst};
use super::ExplainNode;
use crate::text::owned;

verus! {

/// Explanation lines by their depth and text.
pub open spec fn nodes_view(ns: Seq<ExplainNode>) -> Seq<(usize, Seq<char>)> {
    ns.map_values(|n: ExplainNode| (n.depth, n.description@))
}

/// An explanation being built.
pub struct ExplainVisitor {
    pub nodes: Vec<ExplainNode>,
    pub depth: usize,
}

impl ExplainVisitor {
    /// An empty explanation at depth 0.
    pub fn new() -> (r: ExplainVisitor)
        ensures
            r.nodes@.len() == 0,
            r.depth == 0,
    {
        ExplainVisitor { nodes: Vec::new(), depth: 0 }
    }

    /// The nodes collected so far.
    pub fn into_nodes(self) -> (r: Vec<ExplainNode>)
        ensures
            r@ == self.nodes@,
    {
        self.nodes
    }

    /// Adds a node at the current depth.
    pub fn push(&mut self, description: String)
        ensures
            final(self).depth == old(self).depth,
            final(self).nodes@ == old(self).nodes@.push(ExplainNode { depth: old(self).depth, description }),
    {
        let depth = self.depth;
        self.nodes.push(ExplainNode { depth, description });
    }

    /// Appends the explanation of a tree at the current depth.
    pub fn visit(&mut self, t: &RegexAst)
        ensures
            final(self).depth == old(self).depth,
            nodes_view(final(self).nodes@) == nodes_view(old(self).nodes@) + explain_nodes(*t, old(self).depth),
        decreases t,
    {
        let ghost start = nodes_view(self.nodes@);
        let depth = self.depth;
        let inner_depth = if depth < usize::MAX {
            depth + 1
        } else {
            depth
        };
        match t {
            RegexAst::Empty => {
                assert(nodes_view(self.nodes@) =~= start + explain_nodes(*t, depth));
            },
            RegexAst::Repetition(_, _, inner) => {
                self.push(element_string(t));
                let ghost mid = nodes_view(self.nodes@);
                assert(mid =~= start + seq![(depth, super::tree::element_text(*t))]);
                self.depth = inner_depth;
                self.visit(inner);
                self.depth = depth;
                assert(nodes_view(self.nodes@) =~= start + explain_nodes(*t, depth));
            },
            RegexAst::Group(_, inner) => {
                self.push(element_string(t));
                let ghost mid = nodes_view(self.nodes@);
                assert(mid =~= start + seq![(depth, super::tree::element_text(*t))]);
                self.depth = inner_depth;
                self.visit(inner);
                self.depth = depth;
                assert(nodes_view(self.nodes@) =~= start + explain_nodes(*t, depth));
            },
            RegexAst::Alternation(items) => {
                self.push(element_string(t));
                let ghost mid = nodes_view(self.nodes@);
                assert(mid =~= start + seq![(depth, super::tree::element_text(*t))]);
                self.depth = inner_depth;
                let mut i: usize = 0;
                while i < items.len()
                    invariant
                        i <= items@.len(),
                        self.depth == inner_depth,
                        inner_depth == deeper(depth),
                        *t is Alternation && (*t)->Alternation_0 == *items,
                        nodes_view(self.nodes@) == mid + items_nodes(items@, inner_depth, true, i as int),
                    decreases items.len() - i,
                {
                    let ghost before = nodes_view(self.nodes@);
                    if i > 0 {
                        self.push(owned("Or:"));
                    }
                    let ghost between = nodes_view(self.nodes@);
                    assert(between =~= before + (if i + 1 > 1 {
                        seq![(inner_depth, "Or:"@)]
                    } else {
                        Seq::empty()
                    }));
                    proof {
                        assert(decreases_to!(*t => (*t)->Alternation_0));
                        assert(decreases_to!((*t)->Alternation_0 => ((*t)->Alternation_0)@));
                        assert(decreases_to!(items@ => items@[i as int]));
                    }
                    self.visit(&items[i]);
                    i = i + 1;
                    assert(nodes_view(self.nodes@) =~= mid + items_nodes(items@, inner_depth, true, i as int));
                }
                self.depth = depth;
                assert(nodes_view(self.nodes@) =~= start + explain_nodes(*t, depth));
            },
            RegexAst::Concat(items) => {
                let mut i: usize = 0;
                while i < items.len()
                    invariant
                        i <= items@.len(),
                        self.depth == depth,
                        *t is Concat && (*t)->Concat_0 == *items,
                        nodes_view(self.nodes@) == start + items_nodes(items@, depth, false, i as int),
                    decreases items.len() - i,
                {
                    proof {
                        assert(decreases_to!(*t => (*t)->Concat_0));
                        assert(decreases_to!((*t)->Concat_0 => ((*t)->Concat_0)@));
                        assert(decreases_to!(items@ => items@[i as int]));
                    }
                    self.visit(&items[i]);
                    i = i + 1;
                    assert(nodes_view(self.nodes@) =~= start + items_nodes(items@, depth, false, i as int));
                }
                assert(nodes_view(self.nodes@) =~= start + explain_nodes(*t, depth));
            },
            _ => {
                self.push(element_string(t));
                assert(nodes_view(self.nodes@) =~= start + explain_nodes(*t, depth));
            },
        }
    }
}

} // verus!
