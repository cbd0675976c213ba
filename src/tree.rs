use vstd::prelude::*;
use crate::geometry::Vec2;

verus! {

broadcast use {
    vstd::std_specs::vec::axiom_vec_index_decreases,
    vstd::std_specs::vec::axiom_vec_decreases_to_view,
    vstd::seq::axiom_seq_index_decreases,
};

/// Stable identifier of a retained node.
#[derive(Clone, Copy, Debug, PartialEq, Eq, Structural)]
pub struct NodeId(pub u64);

/// Per-node mutable record: geometry and dirty flags.
#[derive(Clone, Copy, Debug, PartialEq, Eq, Structural)]
pub struct NodeState {
    pub id: NodeId,
    /// Position of the node relative to its parent, as laid out.
    pub origin: Vec2,
    /// Extra displacement applied on top of `origin` (scrolling, animation).
    pub translation: Vec2,
    /// Absolute position in the window, refreshed by the compose pass.
    pub window_origin: Vec2,
    /// This node or a descendant has compose work pending.
    pub needs_compose: bool,
    /// This node's own compose hook is due.
    pub request_compose: bool,
    /// This node's `translation` changed since the last pass.
    pub translation_changed: bool,
}

/// A retained node: its own state and the children it owns, in declaration order.
pub struct Node {
    pub state: NodeState,
    pub children: Vec<Node>,
}

/// Mathematical model of a retained subtree.
pub struct NodeV {
    pub state: NodeState,
    pub children: Seq<NodeV>,
}

impl View for Node {
    type V = NodeV;

    open spec fn view(&self) -> NodeV
        decreases self,
    {
        NodeV {
            state: self.state,
            children: Seq::new(
                self.children@.len(),
                |i: int|
                    if 0 <= i < self.children@.len() {
                        self.children@[i].view()
                    } else {
                        arbitrary()
                    },
            ),
        }
    }
}


/// The parent's state once a child's state is merged into it: the propagating flags are or-ed.
pub open spec fn merge_state(parent: NodeState, child: NodeState) -> NodeState {
    NodeState {
        needs_compose: parent.needs_compose || child.needs_compose,
        request_compose: parent.request_compose || child.request_compose,
        ..parent
    }
}

impl NodeState {
    /// A state with the given geometry, its window origin at zero and every flag clear.
    pub fn new(id: NodeId, origin: Vec2, translation: Vec2) -> (r: NodeState)
        ensures
            r.id == id,
            r.origin == origin,
            r.translation == translation,
            r.window_origin@ == (0int, 0int),
            !r.needs_compose && !r.request_compose && !r.translation_changed,
    {
        NodeState {
            id,
            origin,
            translation,
            window_origin: Vec2::zero(),
            needs_compose: false,
            request_compose: false,
            translation_changed: false,
        }
    }

    /// Merges a child's post-pass state into this one.
    pub fn merge_up(&mut self, child: &NodeState)
        ensures
            *final(self) == merge_state(*old(self), *child),
    {
        self.needs_compose = self.needs_compose || child.needs_compose;
        self.request_compose = self.request_compose || child.request_compose;
    }
}


/// The models of a sequence of nodes.
pub open spec fn views(s: Seq<Node>) -> Seq<NodeV> {
    Seq::new(s.len(), |i: int| s[i]@)
}


/// A node's model, one level deep.
pub broadcast proof fn lemma_node_view(n: Node)
    ensures
        #[trigger] n@ == (NodeV { state: n.state, children: views(n.children@) }),
{
    reveal_with_fuel(<Node as View>::view, 2);
    assert(n@.children =~= views(n.children@));
}

} // verus!
