use vstd::prelude::*;
use crate::compose::{
    child_after, child_states, children_after, children_log, cleared, composed, hooked,
    merged_from, moved_of, must_visit, pass_log, placed, state_at, translation_of, ComposeHook,
};
use crate::tree::{NodeId, NodeState, NodeV};

verus! {

broadcast use vstd::seq::axiom_seq_index_decreases;

/// Whether none of the three compose flags is set.
pub open spec fn flags_clear(s: NodeState) -> bool {
    !s.needs_compose && !s.request_compose && !s.translation_changed
}

/// The fields of a state other than its two propagating flags.
pub open spec fn same_but_flags(a: NodeState, b: NodeState) -> bool {
    (NodeState { needs_compose: false, request_compose: false, ..a }) == (NodeState {
        needs_compose: false,
        request_compose: false,
        ..b
    })
}

/// Whether the hook leaves the identity and geometry of its own node as it found them
/// (it may still change its flags and its children's states).
pub open spec fn keeps_own_geometry<H: ComposeHook>(hook: H) -> bool {
    forall|s: NodeState, cs: Seq<NodeState>|
        {
            let r = #[trigger] hook.compose_spec(s, cs).0;
            r.id == s.id && r.origin == s.origin && r.translation == s.translation
                && r.window_origin == s.window_origin
        }
}

/// Merging children up changes only the two propagating flags.
pub proof fn lemma_merged_keeps_fields<H: ComposeHook>(
    hook: H,
    s: NodeState,
    cs: Seq<NodeV>,
    states: Seq<NodeState>,
    moved: bool,
    translation: (int, int),
    k: int,
)
    ensures
        same_but_flags(s, merged_from(hook, s, cs, states, moved, translation, k)),
    decreases k,
{
    if k > 0 && k <= cs.len() {
        lemma_merged_keeps_fields(hook, s, cs, states, moved, translation, k - 1);
    }
}

/// Merge correctness: once the first `k` children are handled, the parent's
/// `request_compose` (and likewise `needs_compose`) is set exactly when it was set
/// before, or when some entered child's resulting state has it set.
pub proof fn lemma_merge_correct<H: ComposeHook>(
    hook: H,
    s: NodeState,
    cs: Seq<NodeV>,
    states: Seq<NodeState>,
    moved: bool,
    translation: (int, int),
    k: int,
)
    requires
        0 <= k <= cs.len(),
    ensures
        merged_from(hook, s, cs, states, moved, translation, k).request_compose <==> (
        s.request_compose || exists|j: int|
            0 <= j < k && must_visit(moved, state_at(cs, states, j)) && (#[trigger] child_after(
                hook,
                cs,
                states,
                moved,
                translation,
                j,
            )).state.request_compose),
        merged_from(hook, s, cs, states, moved, translation, k).needs_compose <==> (
        s.needs_compose || exists|j: int|
            0 <= j < k && must_visit(moved, state_at(cs, states, j)) && (#[trigger] child_after(
                hook,
                cs,
                states,
                moved,
                translation,
                j,
            )).state.needs_compose),
    decreases k,
{
    if k > 0 {
        lemma_merge_correct(hook, s, cs, states, moved, translation, k - 1);
        let m = merged_from(hook, s, cs, states, moved, translation, k);
        let c = child_after(hook, cs, states, moved, translation, k - 1);
        if must_visit(moved, state_at(cs, states, k - 1)) && c.state.request_compose {
            assert(m.request_compose);
        }
        if must_visit(moved, state_at(cs, states, k - 1)) && c.state.needs_compose {
            assert(m.needs_compose);
        }
        assert(forall|j: int|
            0 <= j < k - 1 && must_visit(moved, state_at(cs, states, j)) && (#[trigger] child_after(
                hook,
                cs,
                states,
                moved,
                translation,
                j,
            )).state.request_compose ==> m.request_compose);
        assert(forall|j: int|
            0 <= j < k - 1 && must_visit(moved, state_at(cs, states, j)) && (#[trigger] child_after(
                hook,
                cs,
                states,
                moved,
                translation,
                j,
            )).state.needs_compose ==> m.needs_compose);
    }
}

/// A composed subtree has all three compose flags clear at its top.
pub proof fn lemma_composed_clear<H: ComposeHook>(
    hook: H,
    n: NodeV,
    s: NodeState,
    parent_moved: bool,
    parent_translation: (int, int),
)
    ensures
        flags_clear(composed(hook, n, s, parent_moved, parent_translation).state),
    decreases n, 1int,
{
    let h = hooked(hook, s, n.children, parent_translation);
    lemma_merged_clear(
        hook,
        cleared(h.0),
        n.children,
        h.1,
        moved_of(s, parent_moved),
        translation_of(s, parent_translation),
        n.children.len() as int,
    );
}

proof fn lemma_merged_clear<H: ComposeHook>(
    hook: H,
    s: NodeState,
    cs: Seq<NodeV>,
    states: Seq<NodeState>,
    moved: bool,
    translation: (int, int),
    k: int,
)
    requires
        flags_clear(s),
    ensures
        flags_clear(merged_from(hook, s, cs, states, moved, translation, k)),
    decreases cs, k,
{
    if k > 0 && k <= cs.len() {
        lemma_merged_clear(hook, s, cs, states, moved, translation, k - 1);
        let si = state_at(cs, states, k - 1);
        if must_visit(moved, si) {
            lemma_composed_clear(hook, cs[k - 1], si, moved, translation);
            assert(child_after(hook, cs, states, moved, translation, k - 1) == composed(
                hook,
                cs[k - 1],
                si,
                moved,
                translation,
            ));
        }
    }
}

/// Where no child is entered, the parent's state is unchanged and nothing is logged.
proof fn lemma_none_entered<H: ComposeHook>(
    hook: H,
    s: NodeState,
    cs: Seq<NodeV>,
    states: Seq<NodeState>,
    moved: bool,
    translation: (int, int),
    hooks_only: bool,
    k: int,
)
    requires
        forall|j: int| 0 <= j < cs.len() ==> !must_visit(moved, #[trigger] state_at(cs, states, j)),
    ensures
        merged_from(hook, s, cs, states, moved, translation, k) == s,
        children_log(hook, cs, states, moved, translation, hooks_only, k) == Seq::<NodeId>::empty(),
    decreases k,
{
    if k > 0 && k <= cs.len() {
        lemma_none_entered(hook, s, cs, states, moved, translation, hooks_only, k - 1);
        assert(!must_visit(moved, state_at(cs, states, k - 1)));
    }
}

/// Idempotence: with a hook that leaves its own node's identity and geometry alone, a
/// second pass right after a first one runs no compose hook, visits only the root, and
/// leaves the tree exactly as the first pass left it.
pub proof fn lemma_compose_idempotent<H: ComposeHook>(hook: H, t: NodeV, origin: (int, int))
    requires
        keeps_own_geometry(hook),
    ensures
        composed(hook, composed(hook, t, t.state, false, origin), composed(hook, t, t.state, false, origin).state, false, origin)
            == composed(hook, t, t.state, false, origin),
        pass_log(hook, composed(hook, t, t.state, false, origin), composed(hook, t, t.state, false, origin).state, false, origin, true)
            == Seq::<NodeId>::empty(),
        pass_log(hook, composed(hook, t, t.state, false, origin), composed(hook, t, t.state, false, origin).state, false, origin, false)
            == seq![t.state.id],
{
    let c = composed(hook, t, t.state, false, origin);
    let h = hooked(hook, t.state, t.children, origin);
    let moved1 = moved_of(t.state, false);
    let t1 = translation_of(t.state, origin);
    lemma_composed_clear(hook, t, t.state, false, origin);
    lemma_merged_keeps_fields(hook, cleared(h.0), t.children, h.1, moved1, t1, t.children.len() as int);
    if t.state.request_compose {
        let _ = hook.compose_spec(placed(t.state, origin), child_states(t.children)).0;
    }
    assert(c.state.translation == t.state.translation && c.state.origin == t.state.origin);
    assert(c.state.window_origin == placed(t.state, origin).window_origin);
    let cst = child_states(c.children);
    assert forall|j: int| 0 <= j < c.children.len() implies !must_visit(
        false,
        #[trigger] state_at(c.children, cst, j),
    ) by {
        let sj = state_at(t.children, h.1, j);
        if must_visit(moved1, sj) {
            lemma_composed_clear(hook, t.children[j], sj, moved1, t1);
        }
        assert(state_at(c.children, cst, j) == c.children[j].state);
    }
    let t2 = translation_of(c.state, origin);
    assert(t2 == t1);
    let h2 = hooked(hook, c.state, c.children, origin);
    assert(h2.0 == c.state);
    lemma_none_entered(hook, cleared(h2.0), c.children, h2.1, false, t2, true, c.children.len() as int);
    lemma_none_entered(hook, cleared(h2.0), c.children, h2.1, false, t2, false, c.children.len() as int);
    let cc = composed(hook, c, c.state, false, origin);
    assert(cc.state == c.state);
    assert forall|j: int| 0 <= j < c.children.len() implies #[trigger] cc.children[j] == c.children[j] by {
        assert(state_at(c.children, h2.1, j) == c.children[j].state);
    }
    assert(cc.children =~= c.children);
    assert(pass_log(hook, c, c.state, false, origin, false) =~= seq![t.state.id]);
    assert(pass_log(hook, c, c.state, false, origin, true) =~= Seq::<NodeId>::empty());
}

/// Whether the child indices `p` lead from `n` down to a childless node whose
/// translation changed, where every node strictly between carries `needs_compose`
/// (its descendant is dirty), no node on the path above the end moved, no node on the
/// path requested its compose hook, and every sibling along the way carries neither
/// `translation_changed` nor `needs_compose`.
pub open spec fn dirty_path(n: NodeV, p: Seq<int>) -> bool
    decreases p.len(),
{
    if p.len() == 0 {
        n.state.translation_changed && !n.state.request_compose && n.children.len() == 0
    } else {
        let i = p[0];
        &&& !n.state.translation_changed
        &&& !n.state.request_compose
        &&& 0 <= i < n.children.len()
        &&& forall|j: int|
            0 <= j < n.children.len() && j != i ==> !(#[trigger] n.children[j]).state.translation_changed
                && !n.children[j].state.needs_compose
        &&& (p.len() > 1 ==> n.children[i].state.needs_compose)
        &&& dirty_path(n.children[i], p.drop_first())
    }
}

/// The ids of the nodes along the child indices `p`, starting with `n` itself.
pub open spec fn path_ids(n: NodeV, p: Seq<int>) -> Seq<NodeId>
    decreases p.len(),
{
    if p.len() > 0 && 0 <= p[0] < n.children.len() {
        seq![n.state.id] + path_ids(n.children[p[0]], p.drop_first())
    } else {
        seq![n.state.id]
    }
}

proof fn lemma_one_entered<H: ComposeHook>(
    hook: H,
    cs: Seq<NodeV>,
    translation: (int, int),
    hooks_only: bool,
    i: int,
    k: int,
)
    requires
        0 <= i < cs.len(),
        0 <= k <= cs.len(),
        forall|j: int| 0 <= j < cs.len() && j != i ==> !must_visit(false, #[trigger] cs[j].state),
        must_visit(false, cs[i].state),
    ensures
        children_log(hook, cs, child_states(cs), false, translation, hooks_only, k) == (if k > i {
            pass_log(hook, cs[i], cs[i].state, false, translation, hooks_only)
        } else {
            Seq::<NodeId>::empty()
        }),
    decreases k,
{
    if k > 0 {
        lemma_one_entered(hook, cs, translation, hooks_only, i, k - 1);
        assert(state_at(cs, child_states(cs), k - 1) == cs[k - 1].state);
        if k - 1 == i {
            assert(Seq::<NodeId>::empty() + pass_log(hook, cs[i], cs[i].state, false, translation, hooks_only)
                =~= pass_log(hook, cs[i], cs[i].state, false, translation, hooks_only));
        }
    }
}

/// Flag propagation: when the only moved node is a childless node reached along a
/// dirty path, the pass visits exactly the nodes on that path, top down, skips every
/// sibling subtree, and runs no compose hook.
pub proof fn lemma_dirty_path_visits<H: ComposeHook>(
    hook: H,
    n: NodeV,
    p: Seq<int>,
    parent_translation: (int, int),
)
    requires
        dirty_path(n, p),
    ensures
        pass_log(hook, n, n.state, false, parent_translation, false) == path_ids(n, p),
        pass_log(hook, n, n.state, false, parent_translation, true) == Seq::<NodeId>::empty(),
    decreases p.len(),
{
    let t = translation_of(n.state, parent_translation);
    if p.len() == 0 {
        assert(pass_log(hook, n, n.state, false, parent_translation, false) =~= seq![n.state.id]);
        assert(pass_log(hook, n, n.state, false, parent_translation, true) =~= Seq::<NodeId>::empty());
    } else {
        let i = p[0];
        if p.len() == 1 {
            assert(p.drop_first().len() == 0);
            reveal_with_fuel(dirty_path, 2);
            assert(n.children[i].state.translation_changed);
        }
        lemma_one_entered(hook, n.children, t, false, i, n.children.len() as int);
        lemma_one_entered(hook, n.children, t, true, i, n.children.len() as int);
        lemma_dirty_path_visits(hook, n.children[i], p.drop_first(), t);
        assert(pass_log(hook, n, n.state, false, parent_translation, true) =~= Seq::<NodeId>::empty());
    }
}

} // verus!
