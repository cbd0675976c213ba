use std::cell::RefCell;

use ui_pipeline::compose::{root_compose, ComposeHook, ComposeLog};
use ui_pipeline::geometry::Vec2;
use ui_pipeline::tree::{Node, NodeId, NodeState};

struct Recorder {
    seen: RefCell<Vec<(u64, i64, i64)>>,
}

impl ComposeHook for Recorder {
    fn compose(&self, state: &mut NodeState, _: &mut Vec<NodeState>) {
        self.seen.borrow_mut().push((state.id.0, state.window_origin.x, state.window_origin.y));
    }
}

/// Scrolls every child of a node that asks for it by (0, -10).
struct Scroller;

impl ComposeHook for Scroller {
    fn compose(&self, _: &mut NodeState, children: &mut Vec<NodeState>) {
        for c in children.iter_mut() {
            c.translation = Vec2::new(c.translation.x, c.translation.y - 10);
            c.translation_changed = true;
        }
    }
}

fn leaf(id: u64, origin: (i64, i64), translation: (i64, i64)) -> Node {
    Node {
        state: NodeState::new(
            NodeId(id),
            Vec2::new(origin.0, origin.1),
            Vec2::new(translation.0, translation.1),
        ),
        children: Vec::new(),
    }
}

fn with_children(mut n: Node, children: Vec<Node>) -> Node {
    n.children = children;
    n
}

fn ids(v: &[NodeId]) -> Vec<u64> {
    v.iter().map(|i| i.0).collect()
}

fn run(root: &mut Node) -> (ComposeLog, Vec<(u64, i64, i64)>, NodeState) {
    let rec = Recorder { seen: RefCell::new(Vec::new()) };
    let mut global = NodeState::new(NodeId(0), Vec2::zero(), Vec2::zero());
    let log = root_compose(root, &mut global, &rec);
    (log, rec.seen.into_inner(), global)
}

fn flags_clear(s: &NodeState) -> bool {
    !s.needs_compose && !s.request_compose && !s.translation_changed
}

// R -> A -> B, B moved by (3, 4), every other flag clear: nothing below R is entered,
// since A carries neither `translation_changed` nor `needs_compose`.
#[test]
fn nested_translation_change_without_marked_ancestor() {
    let mut b = leaf(3, (0, 0), (3, 4));
    b.state.translation_changed = true;
    let a = with_children(leaf(2, (0, 0), (0, 0)), vec![b]);
    let mut r = with_children(leaf(1, (0, 0), (0, 0)), vec![a]);
    let (log, rec, _) = run(&mut r);
    assert_eq!(ids(&log.visited), vec![1]);
    assert!(rec.is_empty());
    assert!(r.children[0].children[0].state.translation_changed);
    assert_eq!(r.children[0].children[0].state.window_origin, Vec2::new(0, 0));
}

// R -> A -> B, B moved by (3, 4), A marked as having a dirty descendant, and a sibling
// of A and one of B with no flags.
#[test]
fn nested_translation_change_along_marked_path() {
    let mut b = leaf(3, (0, 0), (3, 4));
    b.state.translation_changed = true;
    let b_sibling = leaf(5, (1, 1), (0, 0));
    let mut a = with_children(leaf(2, (0, 0), (0, 0)), vec![b, b_sibling]);
    a.state.needs_compose = true;
    let a_sibling = leaf(4, (7, 7), (0, 0));
    let mut r = with_children(leaf(1, (0, 0), (0, 0)), vec![a, a_sibling]);
    let (log, _, global) = run(&mut r);
    assert_eq!(ids(&log.visited), vec![1, 2, 3]);
    let b_after = &r.children[0].children[0].state;
    assert_eq!(b_after.window_origin, Vec2::new(3, 4));
    assert!(flags_clear(b_after));
    assert!(flags_clear(&r.children[0].state));
    assert!(flags_clear(&r.state));
    assert!(!global.needs_compose && !global.request_compose);
    assert_eq!(r.children[1].state.window_origin, Vec2::new(0, 0));
}

#[test]
fn window_origin_sums_ancestors() {
    let c = leaf(3, (5, 6), (1, -2));
    let b = with_children(leaf(2, (10, 20), (-3, 4)), vec![c]);
    let mut r = with_children(leaf(1, (100, 200), (7, 8)), vec![b]);
    r.state.translation_changed = true;
    let (log, _, _) = run(&mut r);
    assert_eq!(ids(&log.visited), vec![1, 2, 3]);
    assert_eq!(r.state.window_origin, Vec2::new(107, 208));
    assert_eq!(r.children[0].state.window_origin, Vec2::new(114, 232));
    assert_eq!(r.children[0].children[0].state.window_origin, Vec2::new(120, 236));
}

#[test]
fn hooks_run_only_where_requested() {
    let mut b = leaf(3, (2, 2), (0, 0));
    b.state.request_compose = true;
    b.state.needs_compose = true;
    let c = leaf(4, (0, 0), (0, 0));
    let mut a = with_children(leaf(2, (1, 1), (0, 0)), vec![b, c]);
    a.state.translation_changed = true;
    let mut r = with_children(leaf(1, (0, 0), (0, 0)), vec![a]);
    r.state.request_compose = true;
    let (log, rec, _) = run(&mut r);
    assert_eq!(ids(&log.visited), vec![1, 2, 3, 4]);
    assert_eq!(ids(&log.composed), vec![1, 3]);
    assert_eq!(rec, vec![(1, 0, 0), (3, 3, 3)]);
    assert!(!r.children[0].children[0].state.request_compose);
}

#[test]
fn second_pass_is_idle() {
    let mut b = leaf(3, (0, 0), (3, 4));
    b.state.translation_changed = true;
    b.state.request_compose = true;
    let mut untouched = leaf(6, (9, 9), (0, 0));
    untouched.state.request_compose = true;
    let mut a = with_children(leaf(2, (1, 0), (0, 0)), vec![b]);
    a.state.needs_compose = true;
    a.state.request_compose = true;
    let mut r = with_children(leaf(1, (0, 0), (0, 0)), vec![a, untouched]);
    let (first, first_rec, _) = run(&mut r);
    assert_eq!(ids(&first.composed), vec![2, 3]);
    assert_eq!(first_rec.len(), 2);
    let snapshot: Vec<(u64, Vec2, bool, bool, bool)> = collect(&r);
    let (second, rec, _) = run(&mut r);
    assert!(second.composed.is_empty());
    assert!(rec.is_empty());
    assert_eq!(ids(&second.visited), vec![1]);
    assert_eq!(collect(&r), snapshot);
}

fn collect(n: &Node) -> Vec<(u64, Vec2, bool, bool, bool)> {
    let mut out = vec![(
        n.state.id.0,
        n.state.window_origin,
        n.state.needs_compose,
        n.state.request_compose,
        n.state.translation_changed,
    )];
    for c in &n.children {
        out.extend(collect(c));
    }
    out
}

#[test]
fn merge_up_ors_propagating_flags() {
    let mut parent = NodeState::new(NodeId(1), Vec2::zero(), Vec2::zero());
    let mut child = NodeState::new(NodeId(2), Vec2::zero(), Vec2::zero());
    child.request_compose = true;
    parent.merge_up(&child);
    assert!(parent.request_compose);
    assert!(!parent.needs_compose);
    child.request_compose = false;
    child.needs_compose = true;
    parent.merge_up(&child);
    assert!(parent.request_compose && parent.needs_compose);
    assert!(!parent.translation_changed);
    let mut clean = NodeState::new(NodeId(3), Vec2::zero(), Vec2::zero());
    clean.merge_up(&NodeState::new(NodeId(4), Vec2::zero(), Vec2::zero()));
    assert!(!clean.needs_compose && !clean.request_compose);
}

#[test]
fn accumulator_keeps_its_own_flags() {
    let mut r = leaf(1, (0, 0), (0, 0));
    let rec = Recorder { seen: RefCell::new(Vec::new()) };
    let mut global = NodeState::new(NodeId(0), Vec2::zero(), Vec2::zero());
    global.needs_compose = true;
    let _ = root_compose(&mut r, &mut global, &rec);
    assert!(global.needs_compose);
    assert!(!global.request_compose);
}

#[test]
fn moved_parent_enters_every_descendant() {
    let d = leaf(4, (1, 1), (0, 0));
    let c = with_children(leaf(3, (1, 1), (0, 0)), vec![d]);
    let e = leaf(5, (2, 2), (0, 0));
    let mut a = with_children(leaf(2, (0, 0), (1, 1)), vec![c, e]);
    a.state.translation_changed = true;
    let f = leaf(6, (0, 0), (0, 0));
    let mut r = with_children(leaf(1, (0, 0), (0, 0)), vec![a, f]);
    let (log, _, _) = run(&mut r);
    assert_eq!(ids(&log.visited), vec![1, 2, 3, 4, 5]);
    assert_eq!(r.children[0].children[0].children[0].state.window_origin, Vec2::new(3, 3));
}

#[test]
fn single_root_is_visited() {
    let mut r = leaf(9, (4, 5), (1, 1));
    let (log, _, _) = run(&mut r);
    assert_eq!(ids(&log.visited), vec![9]);
    assert_eq!(r.state.window_origin, Vec2::new(5, 6));
}

#[test]
fn vec2_constructors() {
    assert_eq!(Vec2::zero(), Vec2::new(0, 0));
}

#[test]
fn hook_scrolls_its_children() {
    let c = leaf(3, (0, 5), (0, 0));
    let b = with_children(leaf(2, (0, 20), (0, 0)), vec![c]);
    let quiet = leaf(4, (0, 40), (0, 0));
    let mut r = with_children(leaf(1, (1, 1), (0, 0)), vec![b, quiet]);
    r.state.request_compose = true;
    let mut global = NodeState::new(NodeId(0), Vec2::zero(), Vec2::zero());
    let log = root_compose(&mut r, &mut global, &Scroller);
    assert_eq!(ids(&log.composed), vec![1]);
    assert_eq!(ids(&log.visited), vec![1, 2, 3, 4]);
    assert_eq!(r.children[0].state.translation, Vec2::new(0, -10));
    assert_eq!(r.children[0].state.window_origin, Vec2::new(1, 11));
    assert_eq!(r.children[0].children[0].state.window_origin, Vec2::new(1, 16));
    assert_eq!(r.children[1].state.window_origin, Vec2::new(1, 31));
    assert!(flags_clear(&r.children[0].state) && flags_clear(&r.children[1].state));
}

#[test]
fn positions_saturate_at_the_edge() {
    let c = leaf(3, (i64::MAX, 0), (0, 0));
    let mut r = with_children(leaf(1, (5, 0), (0, 0)), vec![c]);
    r.state.translation_changed = true;
    let _ = run(&mut r);
    assert_eq!(r.children[0].state.window_origin, Vec2::new(i64::MAX, 0));
}

#[test]
fn saturating_vector_sum() {
    assert_eq!(Vec2::new(2, 3).saturating_add(Vec2::new(-5, 7)), Vec2::new(-3, 10));
    assert_eq!(Vec2::new(i64::MAX, 0).saturating_add(Vec2::new(1, 0)), Vec2::new(i64::MAX, 0));
    assert_eq!(Vec2::new(0, i64::MIN).saturating_add(Vec2::new(0, -1)), Vec2::new(0, i64::MIN));
}
