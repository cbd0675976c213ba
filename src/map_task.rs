use vstd::prelude::*;
use core::marker::PhantomData;
use crate::tasks::{has_task, without_task, Pending, TaskId, TaskRegistry};
use crate::view::{MessageResult, ViewCtx, ViewId, ViewNode};

verus! {

/// What the first mapping stage makes of a child's action: a parent action right away,
/// or a unit of deferred work whose output the callback later turns into one.
#[derive(Debug)]
pub enum Dispatch<A, D> {
    Ready(A),
    Deferred(D),
}

/// A mapping stage supplied by the application: it may update the application state.
pub trait MapFn<State, In, Out> {
    /// The application state afterwards and the output, for a state and an input.
    closed spec fn call_spec(&self, state: State, input: In) -> (State, Out) {
        arbitrary()
    }

    fn call(&self, state: &mut State, input: In) -> (r: Out)
        ensures
            (*final(state), r) == self.call_spec(*old(state), input),
    ;
}

/// A view that maps a child view's actions into the parent's, with mutable access to
/// the application state while doing so. The first stage (`map_fn`) may defer work;
/// the second (`callback_fn`) turns the deferred work's output into a parent action.
pub struct MapAction<State, ParentAction, ChildAction, V, FutureOutput, Fut, F, Callback> {
    map_fn: F,
    callback_fn: Callback,
    child: V,
    phantom: PhantomData<(State, ParentAction, ChildAction, FutureOutput, Fut)>,
}

/// Wraps `view` so that its actions go through `map_fn`, and the output of deferred
/// work through `callback_fn`.
pub fn map_action<State, ParentAction, ChildAction, V, FutureOutput, Fut, F, Callback>(
    view: V,
    map_fn: F,
    callback_fn: Callback,
) -> (r: MapAction<State, ParentAction, ChildAction, V, FutureOutput, Fut, F, Callback>)
    ensures
        r.child_view() == view,
        r.map_fn_view() == map_fn,
        r.callback_fn_view() == callback_fn,
{
    MapAction { map_fn, callback_fn, child: view, phantom: PhantomData }
}

impl<State, ParentAction, ChildAction, V, FutureOutput, Fut, F, Callback> MapAction<
    State,
    ParentAction,
    ChildAction,
    V,
    FutureOutput,
    Fut,
    F,
    Callback,
> {
    pub closed spec fn child_view(&self) -> V {
        self.child
    }

    pub closed spec fn map_fn_view(&self) -> F {
        self.map_fn
    }

    pub closed spec fn callback_fn_view(&self) -> Callback {
        self.callback_fn
    }

    /// The wrapped child view.
    pub fn child(&self) -> (r: &V)
        ensures
            *r == self.child_view(),
    {
        &self.child
    }
}

impl<
    State,
    ParentAction,
    ChildAction,
    V,
    FutureOutput,
    Fut,
    F: MapFn<State, ChildAction, Dispatch<ParentAction, Fut>>,
    Callback: MapFn<State, FutureOutput, ParentAction>,
> MapAction<State, ParentAction, ChildAction, V, FutureOutput, Fut, F, Callback> {
    /// What the first stage makes of a child's result, with the application state
    /// afterwards: an action goes through `map_fn`; "no action" and "no target" pass
    /// through with the state untouched.
    pub open spec fn map_result_spec(&self, result: MessageResult<ChildAction>, app_state: State) -> (
        MessageResult<Dispatch<ParentAction, Fut>>,
        State,
    ) {
        match result {
            MessageResult::Action(a) => {
                let (s, d) = self.map_fn_view().call_spec(app_state, a);
                (MessageResult::Action(d), s)
            },
            MessageResult::Nop => (MessageResult::Nop, app_state),
            MessageResult::Stale => (MessageResult::Stale, app_state),
        }
    }

    /// Applies the first stage to what the child's handler produced.
    pub fn map_child_result(
        &self,
        result: MessageResult<ChildAction>,
        app_state: &mut State,
    ) -> (r: MessageResult<Dispatch<ParentAction, Fut>>)
        ensures
            (r, *final(app_state)) == self.map_result_spec(result, *old(app_state)),
    {
        match result {
            MessageResult::Action(action) => MessageResult::Action(
                self.map_fn.call(app_state, action),
            ),
            MessageResult::Nop => MessageResult::Nop,
            MessageResult::Stale => MessageResult::Stale,
        }
    }

    /// Turns the output of completed deferred work into a parent action.
    pub fn complete(&self, app_state: &mut State, output: FutureOutput) -> (r: ParentAction)
        ensures
            (*final(app_state), r) == self.callback_fn_view().call_spec(*old(app_state), output),
    {
        self.callback_fn.call(app_state, output)
    }

    /// Delivers the completion of the deferred unit `task` with its `output`: while the
    /// unit is pending in `registry`, it stops being pending and the callback's parent
    /// action comes back; once it has completed, or been cancelled by its owner's
    /// teardown, nothing is delivered and the application state stays as it was.
    pub fn deliver_completion(
        &self,
        registry: &mut TaskRegistry,
        task: TaskId,
        app_state: &mut State,
        output: FutureOutput,
    ) -> (r: MessageResult<ParentAction>)
        requires
            old(registry).wf(),
        ensures
            final(registry).wf(),
            final(registry).pending_view() == without_task(old(registry).pending_view(), task),
            final(registry).next_id() == old(registry).next_id(),
            has_task(old(registry).pending_view(), task) ==> (*final(app_state), r) == (
                self.callback_fn_view().call_spec(*old(app_state), output).0,
                MessageResult::Action(
                    self.callback_fn_view().call_spec(*old(app_state), output).1,
                ),
            ),
            !has_task(old(registry).pending_view(), task) ==> (r matches MessageResult::Stale)
                && *final(app_state) == *old(app_state),
    {
        if registry.complete(task) {
            MessageResult::Action(self.complete(app_state, output))
        } else {
            MessageResult::Stale
        }
    }
}

/// The view state of a [`MapAction`]: the child's, and whether the node is still live
/// (built and not torn down).
pub struct MapState<S> {
    pub child: S,
    pub live: bool,
}

impl<
    State,
    ParentAction,
    ChildAction,
    Message,
    V: ViewNode<State, ChildAction, Message>,
    FutureOutput,
    Fut,
    F: MapFn<State, ChildAction, Dispatch<ParentAction, Fut>>,
    Callback: MapFn<State, FutureOutput, ParentAction>,
> ViewNode<State, Dispatch<ParentAction, Fut>, Message> for MapAction<
    State,
    ParentAction,
    ChildAction,
    V,
    FutureOutput,
    Fut,
    F,
    Callback,
> {
    type Element = V::Element;

    type ViewState = MapState<V::ViewState>;

    /// The child's build, the node then live.
    open spec fn build_spec(&self, path: Seq<ViewId>, issued: nat) -> (
        Self::Element,
        Self::ViewState,
        nat,
    ) {
        let (e, vs, n) = self.child_view().build_spec(path, issued);
        (e, MapState { child: vs, live: true }, n)
    }

    fn build(&self, ctx: &mut ViewCtx) -> (r: (Self::Element, Self::ViewState)) {
        let (e, vs) = self.child.build(ctx);
        (e, MapState { child: vs, live: true })
    }

    /// The child's rebuild from the previous child.
    open spec fn rebuild_spec(
        &self,
        prev: &Self,
        path: Seq<ViewId>,
        issued: nat,
        view_state: Self::ViewState,
        element: Self::Element,
    ) -> (Self::ViewState, Self::Element, nat) {
        let (vs, e, n) = self.child_view().rebuild_spec(
            &prev.child_view(),
            path,
            issued,
            view_state.child,
            element,
        );
        (MapState { child: vs, live: view_state.live }, e, n)
    }

    fn rebuild(
        &self,
        prev: &Self,
        view_state: &mut Self::ViewState,
        ctx: &mut ViewCtx,
        element: &mut Self::Element,
    ) {
        self.child.rebuild(&prev.child, &mut view_state.child, ctx, element)
    }

    /// The child's teardown, the node then no longer live.
    open spec fn teardown_spec(
        &self,
        path: Seq<ViewId>,
        view_state: Self::ViewState,
        element: Self::Element,
    ) -> (Self::ViewState, Self::Element) {
        let (vs, e) = self.child_view().teardown_spec(path, view_state.child, element);
        (MapState { child: vs, live: false }, e)
    }

    fn teardown(&self, view_state: &mut Self::ViewState, ctx: &mut ViewCtx, element: &mut Self::Element) {
        self.child.teardown(&mut view_state.child, ctx, element);
        view_state.live = false;
    }

    /// After teardown: no matching target, with nothing changed. Before: the child's
    /// handling of the message on the same path, its result then mapped by the first
    /// stage.
    open spec fn message_spec(
        &self,
        view_state: Self::ViewState,
        path: Seq<ViewId>,
        message: Message,
        app_state: State,
    ) -> (MessageResult<Dispatch<ParentAction, Fut>>, Self::ViewState, State) {
        if !view_state.live {
            (MessageResult::Stale, view_state, app_state)
        } else {
            let (r, vs, s) = self.child_view().message_spec(
                view_state.child,
                path,
                message,
                app_state,
            );
            let (mr, s2) = self.map_result_spec(r, s);
            (mr, MapState { child: vs, live: true }, s2)
        }
    }

    fn message(
        &self,
        view_state: &mut Self::ViewState,
        id_path: &[ViewId],
        message: Message,
        app_state: &mut State,
    ) -> (r: MessageResult<Dispatch<ParentAction, Fut>>) {
        if !view_state.live {
            return MessageResult::Stale;
        }
        let result = self.child.message(&mut view_state.child, id_path, message, app_state);
        self.map_child_result(result, app_state)
    }
}

/// Hands a mapped result on toward a parent that expects `ParentAction`: a ready
/// action is delivered as it is; a deferred unit is registered as pending under
/// `owner` and given back with its new task id for the scheduler to run, the message
/// then consumed with no action yet (once task ids run out, the unit is dropped);
/// "no action" and "no target" pass through. The registry changes only for a
/// registered unit.
pub fn hand_off<ParentAction, Fut>(
    result: MessageResult<Dispatch<ParentAction, Fut>>,
    owner: ViewId,
    registry: &mut TaskRegistry,
) -> (r: (MessageResult<ParentAction>, Option<(TaskId, Fut)>))
    requires
        old(registry).wf(),
    ensures
        final(registry).wf(),
        match result {
            MessageResult::Action(Dispatch::Ready(a)) => r.0 == MessageResult::Action(a)
                && r.1 == None::<(TaskId, Fut)> && *final(registry) == *old(registry),
            MessageResult::Action(Dispatch::Deferred(f)) => (r.0 matches MessageResult::Nop) && (
            if old(registry).next_id() < u64::MAX {
                r.1 == Some((TaskId(old(registry).next_id() as u64), f))
                    && final(registry).pending_view() == old(registry).pending_view().push(
                    Pending { task: TaskId(old(registry).next_id() as u64), owner },
                ) && final(registry).next_id() == old(registry).next_id() + 1
            } else {
                r.1 == None::<(TaskId, Fut)> && *final(registry) == *old(registry)
            }),
            MessageResult::Nop => (r.0 matches MessageResult::Nop) && r.1 == None::<(TaskId, Fut)>
                && *final(registry) == *old(registry),
            MessageResult::Stale => (r.0 matches MessageResult::Stale) && r.1 == None::<
                (TaskId, Fut),
            > && *final(registry) == *old(registry),
        },
{
    match result {
        MessageResult::Action(Dispatch::Ready(a)) => (MessageResult::Action(a), None),
        MessageResult::Action(Dispatch::Deferred(f)) => match registry.spawn(owner) {
            Some(task) => (MessageResult::Nop, Some((task, f))),
            None => (MessageResult::Nop, None),
        },
        MessageResult::Nop => (MessageResult::Nop, None),
        MessageResult::Stale => (MessageResult::Stale, None),
    }
}

} // verus!
