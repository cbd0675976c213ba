use std::cell::Cell;

use ui_pipeline::map_task::{hand_off, map_action, Dispatch, MapFn, MapState};
use ui_pipeline::tasks::{TaskId, TaskRegistry};
use ui_pipeline::view::{route, IdScope, MessageResult, Route, ViewCtx, ViewId, ViewNode};

/// A leaf with an id that counts how often its handler and its mutation hook ran.
struct Button<'a> {
    id: ViewId,
    label: &'a str,
    handled: &'a Cell<u32>,
    mutations: &'a Cell<u32>,
    torn_down: &'a Cell<u32>,
}

impl<'a> ViewNode<i32, u32, u32> for Button<'a> {
    type Element = String;
    type ViewState = Vec<ViewId>;

    fn build(&self, ctx: &mut ViewCtx) -> (String, Vec<ViewId>) {
        ctx.push_id(self.id);
        let path = ctx.view_path().to_vec();
        ctx.pop_id();
        (self.label.to_string(), path)
    }

    fn rebuild(&self, prev: &Self, _: &mut Vec<ViewId>, _: &mut ViewCtx, element: &mut String) {
        if prev.label != self.label {
            self.mutations.set(self.mutations.get() + 1);
            *element = self.label.to_string();
        }
    }

    fn teardown(&self, _: &mut Vec<ViewId>, _: &mut ViewCtx, _: &mut String) {
        self.torn_down.set(self.torn_down.get() + 1);
    }

    fn message(&self, _: &mut Vec<ViewId>, id_path: &[ViewId], message: u32, state: &mut i32) -> MessageResult<u32> {
        if !id_path.is_empty() {
            return MessageResult::Stale;
        }
        self.handled.set(self.handled.get() + 1);
        *state += 1;
        if message == 0 {
            MessageResult::Nop
        } else {
            MessageResult::Action(message)
        }
    }
}

struct Double;

impl MapFn<i32, u32, Dispatch<u64, u32>> for Double {
    fn call(&self, state: &mut i32, input: u32) -> Dispatch<u64, u32> {
        *state *= 10;
        if input % 2 == 0 {
            Dispatch::Ready(u64::from(input) * 2)
        } else {
            Dispatch::Deferred(input + 100)
        }
    }
}

struct Finish;

impl MapFn<i32, u32, u64> for Finish {
    fn call(&self, state: &mut i32, input: u32) -> u64 {
        *state += 1;
        u64::from(input) + 1000
    }
}

fn counters() -> (Cell<u32>, Cell<u32>, Cell<u32>) {
    (Cell::new(0), Cell::new(0), Cell::new(0))
}

#[test]
fn route_decisions() {
    let a = ViewId(1);
    assert_eq!(route(a, &[]), Route::Stale);
    assert_eq!(route(a, &[ViewId(2)]), Route::Stale);
    assert_eq!(route(a, &[a]), Route::Here);
    assert_eq!(route(a, &[a, ViewId(2)]), Route::Below);
}

#[test]
fn message_reaches_only_innermost() {
    let (h, m, t) = counters();
    let leaf = Button { id: ViewId(4), label: "c", handled: &h, mutations: &m, torn_down: &t };
    let c = IdScope { id: ViewId(3), child: leaf };
    let b = IdScope { id: ViewId(2), child: c };
    let a = IdScope { id: ViewId(1), child: b };
    let mut ctx = ViewCtx::new();
    let (_, mut vs) = a.build(&mut ctx);
    assert_eq!(vs, vec![ViewId(1), ViewId(2), ViewId(3), ViewId(4)]);
    assert!(ctx.view_path().is_empty());
    let mut state = 0;
    let r = a.message(&mut vs, &[ViewId(1), ViewId(2), ViewId(3)], 7, &mut state);
    assert!(matches!(r, MessageResult::Action(7)));
    assert_eq!(h.get(), 1);
    assert_eq!(state, 1);
    let short = a.message(&mut vs, &[ViewId(1), ViewId(2)], 7, &mut state);
    assert!(matches!(short, MessageResult::Stale));
    assert_eq!(h.get(), 1);
    let stale = a.message(&mut vs, &[ViewId(1), ViewId(9), ViewId(3)], 7, &mut state);
    assert!(matches!(stale, MessageResult::Stale));
    assert_eq!(h.get(), 1);
    assert_eq!(state, 1);
}

#[test]
fn rebuild_with_same_view_is_idle() {
    let (h, m, t) = counters();
    let v = Button { id: ViewId(1), label: "ok", handled: &h, mutations: &m, torn_down: &t };
    let mapped = map_action(v, Double, Finish);
    let mut ctx = ViewCtx::new();
    let (fresh, _) = mapped.build(&mut ctx);
    let (mut el, mut vs) = mapped.build(&mut ctx);
    mapped.rebuild(&mapped, &mut vs, &mut ctx, &mut el);
    assert_eq!(el, fresh);
    assert_eq!(m.get(), 0);
    let v2 = Button { id: ViewId(1), label: "changed", handled: &h, mutations: &m, torn_down: &t };
    let mapped2 = map_action(v2, Double, Finish);
    mapped2.rebuild(&mapped, &mut vs, &mut ctx, &mut el);
    assert_eq!(el, "changed");
    assert_eq!(m.get(), 1);
    mapped2.teardown(&mut vs, &mut ctx, &mut el);
    assert_eq!(t.get(), 1);
}

#[test]
fn map_action_ready_and_deferred() {
    let (h, m, t) = counters();
    let v = Button { id: ViewId(1), label: "b", handled: &h, mutations: &m, torn_down: &t };
    let mapped = map_action(v, Double, Finish);
    let mut ctx = ViewCtx::new();
    let (_, mut vs) = mapped.build(&mut ctx);
    let mut state = 1;
    let ready = mapped.message(&mut vs, &[], 4, &mut state);
    assert!(matches!(ready, MessageResult::Action(Dispatch::Ready(8))));
    assert_eq!(state, 20);
    let deferred = mapped.message(&mut vs, &[], 5, &mut state);
    let unit = match deferred {
        MessageResult::Action(Dispatch::Deferred(d)) => d,
        _ => panic!("expected deferred work"),
    };
    assert_eq!(unit, 105);
    assert_eq!(state, 210);
    assert_eq!(mapped.complete(&mut state, unit), 1105);
    assert_eq!(state, 211);
}

#[test]
fn map_action_passes_nop_and_stale() {
    let (h, m, t) = counters();
    let v = Button { id: ViewId(1), label: "b", handled: &h, mutations: &m, torn_down: &t };
    let mapped = map_action(v, Double, Finish);
    let mut state = 3;
    let mut vs = MapState { child: Vec::new(), live: true };
    let nop = mapped.message(&mut vs, &[], 0, &mut state);
    assert!(matches!(nop, MessageResult::Nop));
    assert_eq!(state, 4);
    let stale = mapped.message(&mut vs, &[ViewId(2)], 4, &mut state);
    assert!(matches!(stale, MessageResult::Stale));
    assert_eq!(state, 4);
    let direct = mapped.map_child_result(MessageResult::Stale, &mut state);
    assert!(matches!(direct, MessageResult::Stale));
    assert_eq!(state, 4);
    assert_eq!(mapped.child().label, "b");
}

#[test]
fn message_result_map() {
    let r: MessageResult<u32> = MessageResult::Action(3);
    assert!(matches!(r.map(|x| x + 1), MessageResult::Action(4)));
    let n: MessageResult<u32> = MessageResult::Nop;
    assert!(matches!(n.map(|x| x + 1), MessageResult::Nop));
    let s: MessageResult<u32> = MessageResult::Stale;
    assert!(matches!(s.map(|x| x + 1), MessageResult::Stale));
}

#[test]
fn completion_delivers_once() {
    let mut reg = TaskRegistry::new();
    let t = reg.spawn(ViewId(1)).unwrap();
    let other = reg.spawn(ViewId(2)).unwrap();
    assert_eq!(t, TaskId(0));
    assert_eq!(other, TaskId(1));
    assert!(reg.is_pending(t));
    assert!(reg.complete(t));
    assert!(!reg.complete(t));
    assert!(!reg.is_pending(t));
    assert!(reg.is_pending(other));
}

#[test]
fn teardown_cancels_pending_work() {
    let mut reg = TaskRegistry::new();
    let t = reg.spawn(ViewId(7)).unwrap();
    let t2 = reg.spawn(ViewId(7)).unwrap();
    let kept = reg.spawn(ViewId(8)).unwrap();
    reg.cancel_owner(ViewId(7));
    assert!(!reg.complete(t));
    assert!(!reg.complete(t2));
    assert!(reg.complete(kept));
}

#[test]
fn view_ctx_tracks_path() {
    let mut ctx = ViewCtx::new();
    assert!(ctx.view_path().is_empty());
    ctx.push_id(ViewId(4));
    ctx.push_id(ViewId(5));
    assert_eq!(ctx.view_path(), &[ViewId(4), ViewId(5)]);
    ctx.pop_id();
    assert_eq!(ctx.view_path(), &[ViewId(4)]);
}

#[test]
fn completion_goes_through_callback_once() {
    let (h, m, t) = counters();
    let v = Button { id: ViewId(1), label: "b", handled: &h, mutations: &m, torn_down: &t };
    let mapped = map_action(v, Double, Finish);
    let mut reg = TaskRegistry::new();
    let task = reg.spawn(ViewId(1)).unwrap();
    let mut state = 5;
    let first = mapped.deliver_completion(&mut reg, task, &mut state, 7);
    assert!(matches!(first, MessageResult::Action(1007)));
    assert_eq!(state, 6);
    let second = mapped.deliver_completion(&mut reg, task, &mut state, 7);
    assert!(matches!(second, MessageResult::Stale));
    assert_eq!(state, 6);
}

#[test]
fn completion_after_teardown_is_dropped() {
    let (h, m, t) = counters();
    let v = Button { id: ViewId(1), label: "b", handled: &h, mutations: &m, torn_down: &t };
    let mapped = map_action(v, Double, Finish);
    let mut ctx = ViewCtx::new();
    let (mut el, mut vs) = mapped.build(&mut ctx);
    let mut reg = TaskRegistry::new();
    let task = reg.spawn(ViewId(1)).unwrap();
    mapped.teardown(&mut vs, &mut ctx, &mut el);
    reg.cancel_owner(ViewId(1));
    let mut state = 5;
    let late = mapped.deliver_completion(&mut reg, task, &mut state, 7);
    assert!(matches!(late, MessageResult::Stale));
    assert_eq!(state, 5);
    assert_eq!(t.get(), 1);
}

#[test]
fn scope_rejects_foreign_address() {
    let (h, m, t) = counters();
    let leaf = Button { id: ViewId(2), label: "x", handled: &h, mutations: &m, torn_down: &t };
    let scope = IdScope { id: ViewId(1), child: leaf };
    let mut vs = Vec::new();
    let mut state = 0;
    assert!(matches!(scope.message(&mut vs, &[], 3, &mut state), MessageResult::Stale));
    assert!(matches!(scope.message(&mut vs, &[ViewId(9)], 3, &mut state), MessageResult::Stale));
    assert!(matches!(scope.message(&mut vs, &[ViewId(1)], 3, &mut state), MessageResult::Action(3)));
    assert_eq!(h.get(), 1);
}

#[test]
fn message_after_teardown_is_stale() {
    let (h, m, t) = counters();
    let v = Button { id: ViewId(1), label: "b", handled: &h, mutations: &m, torn_down: &t };
    let mapped = map_action(v, Double, Finish);
    let mut ctx = ViewCtx::new();
    let (mut el, mut vs) = mapped.build(&mut ctx);
    assert!(vs.live);
    mapped.teardown(&mut vs, &mut ctx, &mut el);
    assert!(!vs.live);
    let mut state = 7;
    let r = mapped.message(&mut vs, &[], 4, &mut state);
    assert!(matches!(r, MessageResult::Stale));
    assert_eq!(state, 7);
    assert_eq!(h.get(), 0);
}

#[test]
fn context_hands_out_fresh_ids() {
    let mut ctx = ViewCtx::new();
    let a = ctx.new_id().unwrap();
    let b = ctx.new_id().unwrap();
    let c = ctx.new_id().unwrap();
    assert_ne!(a, b);
    assert_ne!(b, c);
    assert_ne!(a, c);
    assert!(ctx.view_path().is_empty());
}

#[test]
fn hand_off_registers_deferred_work() {
    let mut reg = TaskRegistry::new();
    let ready: MessageResult<Dispatch<u64, u32>> = MessageResult::Action(Dispatch::Ready(9));
    let (r, spawned) = hand_off(ready, ViewId(3), &mut reg);
    assert!(matches!(r, MessageResult::Action(9)));
    assert!(spawned.is_none());
    let deferred: MessageResult<Dispatch<u64, u32>> = MessageResult::Action(Dispatch::Deferred(42));
    let (r, spawned) = hand_off(deferred, ViewId(3), &mut reg);
    assert!(matches!(r, MessageResult::Nop));
    let (task, unit) = spawned.unwrap();
    assert_eq!(task, TaskId(0));
    assert_eq!(unit, 42);
    assert!(reg.is_pending(task));
    reg.cancel_owner(ViewId(3));
    assert!(!reg.is_pending(task));
    let stale: MessageResult<Dispatch<u64, u32>> = MessageResult::Stale;
    let (r, spawned) = hand_off(stale, ViewId(3), &mut reg);
    assert!(matches!(r, MessageResult::Stale));
    assert!(spawned.is_none());
}
