use vstd::prelude::*;
use crate::geometry::{Vec2, sat_add};
use crate::tree::{Node, NodeId, NodeState, NodeV, merge_state, views};

verus! {

broadcast use {
    vstd::std_specs::vec::axiom_vec_index_decreases,
    vstd::seq::axiom_seq_index_decreases,
    crate::tree::lemma_node_view,
};

/// The compose hook of the node kinds, run on each visited node that requested it,
/// before the node's flags are cleared and before its children are handled. It may
/// change the node's own state and the states of its direct children, and nothing
/// else; what it does is a function of those states.
pub trait ComposeHook {
    /// The node's state and its children's states after the hook.
    closed spec fn compose_spec(&self, state: NodeState, child_states: Seq<NodeState>) -> (
        NodeState,
        Seq<NodeState>,
    ) {
        arbitrary()
    }

    fn compose(&self, state: &mut NodeState, child_states: &mut Vec<NodeState>)
        ensures
            (*final(state), final(child_states)@) == self.compose_spec(
                *old(state),
                old(child_states)@,
            ),
            final(child_states)@.len() == old(child_states)@.len(),
    ;
}

/// Whether a child is entered by a parent whose motion is `moved`.
pub open spec fn must_visit(moved: bool, c: NodeState) -> bool {
    moved || c.translation_changed || c.needs_compose
}

/// Whether a node counts as moved for its descendants.
pub open spec fn moved_of(s: NodeState, parent_moved: bool) -> bool {
    parent_moved || s.translation_changed
}

/// Absolute translation of a node, given that of its parent, held to the `i64` range.
pub open spec fn translation_of(s: NodeState, parent_translation: (int, int)) -> (int, int) {
    sat_add(sat_add(parent_translation, s.translation@), s.origin@)
}

/// The states of a sequence of subtrees' top nodes.
pub open spec fn child_states(cs: Seq<NodeV>) -> Seq<NodeState> {
    Seq::new(cs.len(), |i: int| cs[i].state)
}

/// The state of child `i` as the parent's hook left it.
pub open spec fn state_at(cs: Seq<NodeV>, states: Seq<NodeState>, i: int) -> NodeState {
    if 0 <= i < states.len() {
        states[i]
    } else {
        cs[i].state
    }
}

/// A node's state with its window origin refreshed.
pub open spec fn placed(s: NodeState, parent_translation: (int, int)) -> NodeState {
    let t = translation_of(s, parent_translation);
    NodeState { window_origin: Vec2 { x: t.0 as i64, y: t.1 as i64 }, ..s }
}

/// The node's state and its children's states after the hook, if it was requested.
pub open spec fn hooked<H: ComposeHook>(
    hook: H,
    s: NodeState,
    cs: Seq<NodeV>,
    parent_translation: (int, int),
) -> (NodeState, Seq<NodeState>) {
    if s.request_compose {
        hook.compose_spec(placed(s, parent_translation), child_states(cs))
    } else {
        (placed(s, parent_translation), child_states(cs))
    }
}

/// A state with the three compose flags consumed.
pub open spec fn cleared(s: NodeState) -> NodeState {
    NodeState { needs_compose: false, request_compose: false, translation_changed: false, ..s }
}

/// The subtree below `n`, whose top node has the state `s`, as the compose pass leaves it.
pub open spec fn composed<H: ComposeHook>(
    hook: H,
    n: NodeV,
    s: NodeState,
    parent_moved: bool,
    parent_translation: (int, int),
) -> NodeV
    decreases n, 0int,
{
    let moved = moved_of(s, parent_moved);
    let t = translation_of(s, parent_translation);
    let h = hooked(hook, s, n.children, parent_translation);
    NodeV {
        state: merged_from(hook, cleared(h.0), n.children, h.1, moved, t, n.children.len() as int),
        children: children_after(hook, n.children, h.1, moved, t),
    }
}

/// All children once their parent's pass is done.
pub open spec fn children_after<H: ComposeHook>(
    hook: H,
    cs: Seq<NodeV>,
    states: Seq<NodeState>,
    moved: bool,
    translation: (int, int),
) -> Seq<NodeV>
    decreases cs, 1int,
{
    Seq::new(
        cs.len(),
        |i: int|
            if 0 <= i < cs.len() {
                child_after(hook, cs, states, moved, translation, i)
            } else {
                arbitrary()
            },
    )
}

/// Child `i` once its parent's pass is done: composed if entered, else only with the
/// state that the parent's hook left.
pub open spec fn child_after<H: ComposeHook>(
    hook: H,
    cs: Seq<NodeV>,
    states: Seq<NodeState>,
    moved: bool,
    translation: (int, int),
    i: int,
) -> NodeV
    decreases cs, 0int,
{
    if 0 <= i < cs.len() {
        let si = state_at(cs, states, i);
        if must_visit(moved, si) {
            composed(hook, cs[i], si, moved, translation)
        } else {
            NodeV { state: si, children: cs[i].children }
        }
    } else {
        arbitrary()
    }
}

/// A parent's state `s` after the first `k` children were handled and merged up.
pub open spec fn merged_from<H: ComposeHook>(
    hook: H,
    s: NodeState,
    cs: Seq<NodeV>,
    states: Seq<NodeState>,
    moved: bool,
    translation: (int, int),
    k: int,
) -> NodeState
    decreases cs, k,
{
    if k <= 0 || k > cs.len() {
        s
    } else {
        let prev = merged_from(hook, s, cs, states, moved, translation, k - 1);
        if must_visit(moved, state_at(cs, states, k - 1)) {
            merge_state(prev, child_after(hook, cs, states, moved, translation, k - 1).state)
        } else {
            prev
        }
    }
}

/// Whether a node belongs in a log: every visited node, or only those whose hook runs.
pub open spec fn logged(s: NodeState, hooks_only: bool) -> bool {
    !hooks_only || s.request_compose
}

/// The ids that the pass over `n`, whose top node has the state `s`, logs in order.
pub open spec fn pass_log<H: ComposeHook>(
    hook: H,
    n: NodeV,
    s: NodeState,
    parent_moved: bool,
    parent_translation: (int, int),
    hooks_only: bool,
) -> Seq<NodeId>
    decreases n, 0int,
{
    let own = if logged(s, hooks_only) {
        seq![s.id]
    } else {
        Seq::empty()
    };
    own + children_log(
        hook,
        n.children,
        hooked(hook, s, n.children, parent_translation).1,
        moved_of(s, parent_moved),
        translation_of(s, parent_translation),
        hooks_only,
        n.children.len() as int,
    )
}

/// What the pass over the first `k` children logs.
pub open spec fn children_log<H: ComposeHook>(
    hook: H,
    cs: Seq<NodeV>,
    states: Seq<NodeState>,
    moved: bool,
    translation: (int, int),
    hooks_only: bool,
    k: int,
) -> Seq<NodeId>
    decreases cs, k,
{
    if k <= 0 || k > cs.len() {
        Seq::empty()
    } else {
        let prev = children_log(hook, cs, states, moved, translation, hooks_only, k - 1);
        let si = state_at(cs, states, k - 1);
        if must_visit(moved, si) {
            prev + pass_log(hook, cs[k - 1], si, moved, translation, hooks_only)
        } else {
            prev
        }
    }
}

/// What a compose pass did: every node visited, and every node whose hook ran, in order.
pub struct ComposeLog {
    pub visited: Vec<NodeId>,
    pub composed: Vec<NodeId>,
}

/// The branching of a subtree, without its states.
pub struct Shape {
    pub children: Seq<Shape>,
}

/// The branching of the subtree `n`.
pub open spec fn shape(n: NodeV) -> Shape
    decreases n,
{
    Shape {
        children: Seq::new(
            n.children.len(),
            |i: int|
                if 0 <= i < n.children.len() {
                    shape(n.children[i])
                } else {
                    arbitrary()
                },
        ),
    }
}

/// The branchings of a sequence of subtrees.
pub open spec fn shapes(cs: Seq<NodeV>) -> Seq<Shape> {
    Seq::new(cs.len(), |i: int| shape(cs[i]))
}

proof fn lemma_shape(n: NodeV)
    ensures
        shape(n).children == shapes(n.children),
{
    assert(shape(n).children =~= shapes(n.children));
}

/// The states of the children, in order.
fn collect_states(children: &Vec<Node>) -> (r: Vec<NodeState>)
    ensures
        r@ == child_states(views(children@)),
{
    let mut r: Vec<NodeState> = Vec::new();
    let mut i: usize = 0;
    while i < children.len()
        invariant
            0 <= i <= children@.len(),
            r@ == child_states(views(children@)).take(i as int),
        decreases children@.len() - i,
    {
        r.push(children[i].state);
        proof {
            assert(r@ =~= child_states(views(children@)).take(i + 1));
        }
        i = i + 1;
    }
    proof {
        assert(r@ =~= child_states(views(children@)));
    }
    r
}

fn set_state(node: &mut Node, state: NodeState)
    ensures
        final(node)@ == (NodeV { state, children: old(node)@.children }),
{
    node.state = state;
}

/// Gives each child the state at its position in `states`, its subtree untouched.
fn apply_states(children: &mut Vec<Node>, states: &Vec<NodeState>)
    requires
        states@.len() == old(children)@.len(),
    ensures
        final(children)@.len() == old(children)@.len(),
        forall|i: int|
            0 <= i < old(children)@.len() ==> #[trigger] final(children)@[i]@ == (NodeV {
                state: states@[i],
                children: old(children)@[i]@.children,
            }),
{
    let n = children.len();
    let mut i: usize = 0;
    while i < n
        invariant
            0 <= i <= n,
            n == children@.len(),
            n == old(children)@.len(),
            states@.len() == n,
            forall|j: int| i <= j < n ==> #[trigger] children@[j] == old(children)@[j],
            forall|j: int|
                0 <= j < i ==> #[trigger] children@[j]@ == (NodeV {
                    state: states@[j],
                    children: old(children)@[j]@.children,
                }),
        decreases n - i,
    {
        set_state(&mut children[i], states[i]);
        i = i + 1;
    }
}

/// Runs the pass over each child of a node, in declaration order, and merges each
/// entered child's resulting state into the parent's state.
pub fn recurse_on_children<H: ComposeHook>(
    parent: &mut NodeState,
    children: &mut Vec<Node>,
    moved: bool,
    translation: Vec2,
    hook: &H,
    log: &mut ComposeLog,
)
    ensures
        views(final(children)@) == children_after(
            *hook,
            views(old(children)@),
            child_states(views(old(children)@)),
            moved,
            translation@,
        ),
        *final(parent) == merged_from(
            *hook,
            *old(parent),
            views(old(children)@),
            child_states(views(old(children)@)),
            moved,
            translation@,
            old(children)@.len() as int,
        ),
        final(log).visited@ == old(log).visited@ + children_log(
            *hook,
            views(old(children)@),
            child_states(views(old(children)@)),
            moved,
            translation@,
            false,
            old(children)@.len() as int,
        ),
        final(log).composed@ == old(log).composed@ + children_log(
            *hook,
            views(old(children)@),
            child_states(views(old(children)@)),
            moved,
            translation@,
            true,
            old(children)@.len() as int,
        ),
    decreases shapes(views(old(children)@)),
{
    let ghost cs = views(children@);
    let ghost sts = child_states(cs);
    let ghost s0 = *parent;
    let ghost v0 = log.visited@;
    let ghost c0 = log.composed@;
    let n = children.len();
    let mut i: usize = 0;
    while i < n
        invariant
            0 <= i <= n,
            n == children@.len(),
            cs == views(old(children)@),
            sts == child_states(cs),
            cs.len() == n,
            forall|j: int| i <= j < n ==> #[trigger] children@[j] == old(children)@[j],
            forall|j: int|
                0 <= j < i ==> #[trigger] children@[j]@ == child_after(
                    *hook,
                    cs,
                    sts,
                    moved,
                    translation@,
                    j,
                ),
            *parent == merged_from(*hook, s0, cs, sts, moved, translation@, i as int),
            log.visited@ == v0 + children_log(*hook, cs, sts, moved, translation@, false, i as int),
            log.composed@ == c0 + children_log(*hook, cs, sts, moved, translation@, true, i as int),
        decreases n - i,
    {
        let visit = moved || children[i].state.translation_changed
            || children[i].state.needs_compose;
        assert(cs[i as int] == children@[i as int]@);
        assert(cs[i as int].state == children@[i as int].state);
        assert(state_at(cs, sts, i as int) == cs[i as int].state);
        if visit {
            assert(shapes(cs)[i as int] == shape(children@[i as int]@));
            compose_widget(&mut children[i], moved, translation, hook, log);
            assert(children@[i as int]@.state == children@[i as int].state);
            parent.merge_up(&children[i].state);
        }
        proof {
            assert(visit == must_visit(moved, state_at(cs, sts, i as int)));
            assert(merged_from(*hook, s0, cs, sts, moved, translation@, i + 1) == (if visit {
                merge_state(
                    merged_from(*hook, s0, cs, sts, moved, translation@, i as int),
                    child_after(*hook, cs, sts, moved, translation@, i as int).state,
                )
            } else {
                merged_from(*hook, s0, cs, sts, moved, translation@, i as int)
            }));
            assert(children_log(*hook, cs, sts, moved, translation@, false, i + 1) =~= children_log(
                *hook,
                cs,
                sts,
                moved,
                translation@,
                false,
                i as int,
            ) + (if visit {
                pass_log(*hook, cs[i as int], cs[i as int].state, moved, translation@, false)
            } else {
                Seq::empty()
            }));
            if !visit {
                assert(children@[i as int]@ == (NodeV {
                    state: cs[i as int].state,
                    children: cs[i as int].children,
                }));
            }
        }
        i = i + 1;
    }
    proof {
        assert(views(children@) =~= children_after(*hook, cs, sts, moved, translation@));
    }
}

/// Two child sequences with the same subtrees below their top nodes and the same top
/// states are handled alike.
proof fn lemma_same_shape<H: ComposeHook>(
    hook: H,
    a: Seq<NodeV>,
    sa: Seq<NodeState>,
    b: Seq<NodeV>,
    sb: Seq<NodeState>,
    moved: bool,
    translation: (int, int),
    s: NodeState,
    k: int,
)
    requires
        a.len() == b.len(),
        forall|i: int| 0 <= i < a.len() ==> (#[trigger] a[i]).children == b[i].children,
        forall|i: int| 0 <= i < a.len() ==> #[trigger] state_at(a, sa, i) == state_at(b, sb, i),
    ensures
        merged_from(hook, s, a, sa, moved, translation, k) == merged_from(hook, s, b, sb, moved, translation, k),
        children_log(hook, a, sa, moved, translation, false, k) == children_log(hook, b, sb, moved, translation, false, k),
        children_log(hook, a, sa, moved, translation, true, k) == children_log(hook, b, sb, moved, translation, true, k),
        0 <= k < a.len() ==> child_after(hook, a, sa, moved, translation, k) == child_after(hook, b, sb, moved, translation, k),
    decreases k,
{
    if 0 <= k < a.len() {
        assert(a[k].children == b[k].children);
        assert(state_at(a, sa, k) == state_at(b, sb, k));
    }
    if k > 0 && k <= a.len() {
        lemma_same_shape(hook, a, sa, b, sb, moved, translation, s, k - 1);
        assert(a[k - 1].children == b[k - 1].children);
        let si = state_at(a, sa, k - 1);
        assert(si == state_at(b, sb, k - 1));
        assert(pass_log(hook, a[k - 1], si, moved, translation, false) == pass_log(hook, b[k - 1], si, moved, translation, false));
        assert(pass_log(hook, a[k - 1], si, moved, translation, true) == pass_log(hook, b[k - 1], si, moved, translation, true));
    }
}

/// Composes one node: refreshes its absolute position, runs its hook if it asked for
/// one, clears its flags and then handles its children.
pub fn compose_widget<H: ComposeHook>(
    node: &mut Node,
    parent_moved: bool,
    parent_translation: Vec2,
    hook: &H,
    log: &mut ComposeLog,
)
    ensures
        final(node)@ == composed(*hook, old(node)@, old(node)@.state, parent_moved, parent_translation@),
        final(log).visited@ == old(log).visited@ + pass_log(
            *hook,
            old(node)@,
            old(node)@.state,
            parent_moved,
            parent_translation@,
            false,
        ),
        final(log).composed@ == old(log).composed@ + pass_log(
            *hook,
            old(node)@,
            old(node)@.state,
            parent_moved,
            parent_translation@,
            true,
        ),
    decreases shape(old(node)@),
{
    let ghost n0 = (*node)@;
    let ghost h = hooked(*hook, n0.state, n0.children, parent_translation@);
    let moved = parent_moved || node.state.translation_changed;
    let translation = parent_translation.saturating_add(node.state.translation).saturating_add(
        node.state.origin,
    );
    node.state.window_origin = translation;
    assert(node.state == placed(n0.state, parent_translation@));
    log.visited.push(node.state.id);
    if node.state.request_compose {
        log.composed.push(node.state.id);
        let mut states = collect_states(&node.children);
        assert(views(node.children@) =~= n0.children);
        hook.compose(&mut node.state, &mut states);
        apply_states(&mut node.children, &states);
    }
    proof {
        assert(node.state == h.0);
        assert(node.children@.len() == n0.children.len());
        assert forall|i: int| 0 <= i < n0.children.len() implies #[trigger] views(node.children@)[i]
            == (NodeV { state: state_at(n0.children, h.1, i), children: n0.children[i].children }) by {
            assert(views(node.children@)[i] == node.children@[i]@);
        }
    }
    node.state.needs_compose = false;
    node.state.request_compose = false;
    node.state.translation_changed = false;
    let ghost w = views(node.children@);
    let ghost s1 = node.state;
    let ghost l0 = log.visited@;
    let ghost k0 = log.composed@;
    proof {
        lemma_shape(n0);
        assert forall|i: int| 0 <= i < w.len() implies #[trigger] shapes(w)[i] == shapes(n0.children)[i] by {
            assert(w[i].children == n0.children[i].children);
            assert(shape(w[i]) =~= shape(n0.children[i]));
        }
        assert(shapes(w) =~= shapes(n0.children));
    }
    recurse_on_children(&mut node.state, &mut node.children, moved, translation, hook, log);
    proof {
        let len = n0.children.len() as int;
        assert forall|i: int| 0 <= i < w.len() implies #[trigger] state_at(w, child_states(w), i)
            == state_at(n0.children, h.1, i) by {}
        assert forall|i: int| 0 <= i < w.len() implies (#[trigger] w[i]).children == n0.children[i].children by {}
        lemma_same_shape(*hook, w, child_states(w), n0.children, h.1, moved, translation@, s1, len);
        assert forall|i: int| 0 <= i < len implies #[trigger] children_after(*hook, w, child_states(w), moved, translation@)[i]
            == children_after(*hook, n0.children, h.1, moved, translation@)[i] by {
            lemma_same_shape(*hook, w, child_states(w), n0.children, h.1, moved, translation@, s1, i);
        }
        assert(children_after(*hook, w, child_states(w), moved, translation@) =~= children_after(*hook, n0.children, h.1, moved, translation@));
        assert(node@ =~= composed(*hook, n0, n0.state, parent_moved, parent_translation@));
    }
}

/// One compose pass over the whole tree, started at `root` with no motion and no offset;
/// the root's resulting state is then merged into `global_root_state`, which the host
/// uses to decide which further passes are due.
pub fn root_compose<H: ComposeHook>(
    root: &mut Node,
    global_root_state: &mut NodeState,
    hook: &H,
) -> (log: ComposeLog)
    ensures
        final(root)@ == composed(*hook, old(root)@, old(root)@.state, false, (0int, 0int)),
        *final(global_root_state) == merge_state(*old(global_root_state), final(root).state),
        log.visited@ == pass_log(*hook, old(root)@, old(root)@.state, false, (0int, 0int), false),
        log.composed@ == pass_log(*hook, old(root)@, old(root)@.state, false, (0int, 0int), true),
{
    let mut log = ComposeLog { visited: Vec::new(), composed: Vec::new() };
    compose_widget(root, false, Vec2::zero(), hook, &mut log);
    global_root_state.merge_up(&root.state);
    proof {
        assert(log.visited@ =~= pass_log(*hook, old(root)@, old(root)@.state, false, (0int, 0int), false));
        assert(log.composed@ =~= pass_log(*hook, old(root)@, old(root)@.state, false, (0int, 0int), true));
    }
    log
}

} // verus!
