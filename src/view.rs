use vstd::prelude::*;

verus! {

/// Identifier of a view node, assigned while it is built.
#[derive(Clone, Copy, Debug, PartialEq, Eq, Structural)]
pub struct ViewId(pub u64);

/// What handling a message produced.
#[derive(Debug)]
pub enum MessageResult<A> {
    /// An action for the ancestors to consume.
    Action(A),
    /// The message was handled and produced no action.
    Nop,
    /// The address names no live view node.
    Stale,
}

impl<A> MessageResult<A> {
    /// Maps the action, if any, keeping the other outcomes as they are.
    pub fn map<B, F: Fn(A) -> B>(self, f: F) -> (r: MessageResult<B>)
        requires
            self matches MessageResult::Action(a) ==> f.requires((a,)),
        ensures
            match self {
                MessageResult::Action(a) => r matches MessageResult::Action(b) && f.ensures(
                    (a,),
                    b,
                ),
                MessageResult::Nop => r matches MessageResult::Nop,
                MessageResult::Stale => r matches MessageResult::Stale,
            },
    {
        match self {
            MessageResult::Action(a) => MessageResult::Action(f(a)),
            MessageResult::Nop => MessageResult::Nop,
            MessageResult::Stale => MessageResult::Stale,
        }
    }
}

/// Where a message goes next, as seen from one view node.
#[derive(Debug, PartialEq, Eq, Structural)]
pub enum Route {
    /// The address ends at this node: its own handler takes the message.
    Here,
    /// The address continues below this node, with the rest of the path.
    Below,
    /// The address does not pass through this node.
    Stale,
}

/// How a node with identifier `own` treats the address `path`.
pub open spec fn route_of(own: ViewId, path: Seq<ViewId>) -> Route {
    if path.len() == 0 || path[0] != own {
        Route::Stale
    } else if path.len() == 1 {
        Route::Here
    } else {
        Route::Below
    }
}

/// Decides where a message addressed by `id_path` goes, for the node `own`: the path
/// starts with the node's own id and goes on with the suffix meant for a descendant.
pub fn route(own: ViewId, id_path: &[ViewId]) -> (r: Route)
    ensures
        r == route_of(own, id_path@),
{
    if id_path.len() == 0 || id_path[0] != own {
        Route::Stale
    } else if id_path.len() == 1 {
        Route::Here
    } else {
        Route::Below
    }
}

/// Tracks the identifiers of the view nodes on the way from the root to the node
/// being built, so that each node learns its address.
pub struct ViewCtx {
    path: Vec<ViewId>,
    next: u64,
}

impl ViewCtx {
    pub closed spec fn path_view(&self) -> Seq<ViewId> {
        self.path@
    }

    /// How many identifiers this context has handed out.
    pub closed spec fn issued_count(&self) -> nat {
        self.next as nat
    }

    /// Whether `id` was handed out by this context: those are exactly the ids below
    /// the count handed out.
    pub open spec fn issued(&self, id: ViewId) -> bool {
        id.0 < self.issued_count()
    }

    pub fn new() -> (r: ViewCtx)
        ensures
            r.path_view() == Seq::<ViewId>::empty(),
            r.issued_count() == 0,
    {
        ViewCtx { path: Vec::new(), next: 0 }
    }

    /// Hands out an identifier that differs from every one handed out before; `None`
    /// once identifiers run out.
    pub fn new_id(&mut self) -> (r: Option<ViewId>)
        ensures
            final(self).path_view() == old(self).path_view(),
            old(self).issued_count() < u64::MAX ==> r == Some(
                ViewId(old(self).issued_count() as u64),
            ) && final(self).issued_count() == old(self).issued_count() + 1,
            old(self).issued_count() >= u64::MAX ==> r == None::<ViewId>
                && final(self).issued_count() == old(self).issued_count(),
            r matches Some(id) ==> !old(self).issued(id) && final(self).issued(id),
    {
        if self.next == u64::MAX {
            return None;
        }
        let id = ViewId(self.next);
        self.next = self.next + 1;
        Some(id)
    }

    /// Enters the child with identifier `id`.
    pub fn push_id(&mut self, id: ViewId)
        ensures
            final(self).path_view() == old(self).path_view().push(id),
            final(self).issued_count() == old(self).issued_count(),
    {
        self.path.push(id);
    }

    /// Leaves the innermost node entered.
    pub fn pop_id(&mut self)
        requires
            old(self).path_view().len() > 0,
        ensures
            final(self).path_view() == old(self).path_view().drop_last(),
            final(self).issued_count() == old(self).issued_count(),
    {
        self.path.pop();
    }

    /// The address of the node being built.
    pub fn view_path(&self) -> (r: &[ViewId])
        ensures
            r@ == self.path_view(),
    {
        self.path.as_slice()
    }
}

/// A declarative view: built into a retained element, kept in sync by `rebuild`,
/// released by `teardown`, and handed the messages addressed to it. Each step is a
/// function of its inputs, named by a spec function of the kind, and leaves the
/// builder's path as it found it.
pub trait ViewNode<State, Action, Message>: Sized {
    type Element;

    type ViewState;

    /// What `build` makes at the address `path`, with `issued` identifiers handed out
    /// so far: the element, its view state, and the count handed out afterwards.
    closed spec fn build_spec(&self, path: Seq<ViewId>, issued: nat) -> (
        Self::Element,
        Self::ViewState,
        nat,
    ) {
        arbitrary()
    }

    fn build(&self, ctx: &mut ViewCtx) -> (r: (Self::Element, Self::ViewState))
        ensures
            (r.0, r.1, final(ctx).issued_count()) == self.build_spec(
                old(ctx).path_view(),
                old(ctx).issued_count(),
            ),
            final(ctx).path_view() == old(ctx).path_view(),
    ;

    /// The view state and element after rebuilding from `prev`, and the count of
    /// identifiers handed out afterwards.
    closed spec fn rebuild_spec(
        &self,
        prev: &Self,
        path: Seq<ViewId>,
        issued: nat,
        view_state: Self::ViewState,
        element: Self::Element,
    ) -> (Self::ViewState, Self::Element, nat) {
        arbitrary()
    }

    fn rebuild(
        &self,
        prev: &Self,
        view_state: &mut Self::ViewState,
        ctx: &mut ViewCtx,
        element: &mut Self::Element,
    )
        ensures
            (*final(view_state), *final(element), final(ctx).issued_count()) == self.rebuild_spec(
                prev,
                old(ctx).path_view(),
                old(ctx).issued_count(),
                *old(view_state),
                *old(element),
            ),
            final(ctx).path_view() == old(ctx).path_view(),
    ;

    /// The view state and element once torn down.
    closed spec fn teardown_spec(
        &self,
        path: Seq<ViewId>,
        view_state: Self::ViewState,
        element: Self::Element,
    ) -> (Self::ViewState, Self::Element) {
        arbitrary()
    }

    fn teardown(&self, view_state: &mut Self::ViewState, ctx: &mut ViewCtx, element: &mut Self::Element)
        ensures
            (*final(view_state), *final(element)) == self.teardown_spec(
                old(ctx).path_view(),
                *old(view_state),
                *old(element),
            ),
            final(ctx).path_view() == old(ctx).path_view(),
            final(ctx).issued_count() == old(ctx).issued_count(),
    ;

    /// The outcome of handling `message` addressed by `path`, with the view state and
    /// the application state afterwards.
    closed spec fn message_spec(
        &self,
        view_state: Self::ViewState,
        path: Seq<ViewId>,
        message: Message,
        app_state: State,
    ) -> (MessageResult<Action>, Self::ViewState, State) {
        arbitrary()
    }

    fn message(
        &self,
        view_state: &mut Self::ViewState,
        id_path: &[ViewId],
        message: Message,
        app_state: &mut State,
    ) -> (r: MessageResult<Action>)
        ensures
            (r, *final(view_state), *final(app_state)) == self.message_spec(
                *old(view_state),
                id_path@,
                message,
                *old(app_state),
            ),
    ;
}

/// A view node with its own identifier around a child view. The child is built
/// under the address extended by that identifier, and a message reaches the child,
/// with the identifier taken off the front of its address, only when the address
/// passes through this node; any other address is stale here.
pub struct IdScope<V> {
    pub id: ViewId,
    pub child: V,
}

impl<State, Action, Message, V: ViewNode<State, Action, Message>> ViewNode<
    State,
    Action,
    Message,
> for IdScope<V> {
    type Element = V::Element;

    type ViewState = V::ViewState;

    open spec fn build_spec(&self, path: Seq<ViewId>, issued: nat) -> (
        Self::Element,
        Self::ViewState,
        nat,
    ) {
        self.child.build_spec(path.push(self.id), issued)
    }

    fn build(&self, ctx: &mut ViewCtx) -> (r: (Self::Element, Self::ViewState)) {
        ctx.push_id(self.id);
        let r = self.child.build(ctx);
        ctx.pop_id();
        proof {
            assert(old(ctx).path_view().push(self.id).drop_last() =~= old(ctx).path_view());
        }
        r
    }

    open spec fn rebuild_spec(
        &self,
        prev: &Self,
        path: Seq<ViewId>,
        issued: nat,
        view_state: Self::ViewState,
        element: Self::Element,
    ) -> (Self::ViewState, Self::Element, nat) {
        self.child.rebuild_spec(&prev.child, path.push(self.id), issued, view_state, element)
    }

    fn rebuild(
        &self,
        prev: &Self,
        view_state: &mut Self::ViewState,
        ctx: &mut ViewCtx,
        element: &mut Self::Element,
    ) {
        ctx.push_id(self.id);
        self.child.rebuild(&prev.child, view_state, ctx, element);
        ctx.pop_id();
        proof {
            assert(old(ctx).path_view().push(self.id).drop_last() =~= old(ctx).path_view());
        }
    }

    open spec fn teardown_spec(
        &self,
        path: Seq<ViewId>,
        view_state: Self::ViewState,
        element: Self::Element,
    ) -> (Self::ViewState, Self::Element) {
        self.child.teardown_spec(path.push(self.id), view_state, element)
    }

    fn teardown(&self, view_state: &mut Self::ViewState, ctx: &mut ViewCtx, element: &mut Self::Element) {
        ctx.push_id(self.id);
        self.child.teardown(view_state, ctx, element);
        ctx.pop_id();
        proof {
            assert(old(ctx).path_view().push(self.id).drop_last() =~= old(ctx).path_view());
        }
    }

    open spec fn message_spec(
        &self,
        view_state: Self::ViewState,
        path: Seq<ViewId>,
        message: Message,
        app_state: State,
    ) -> (MessageResult<Action>, Self::ViewState, State) {
        if route_of(self.id, path) == Route::Stale {
            (MessageResult::Stale, view_state, app_state)
        } else {
            self.child.message_spec(view_state, path.drop_first(), message, app_state)
        }
    }

    fn message(
        &self,
        view_state: &mut Self::ViewState,
        id_path: &[ViewId],
        message: Message,
        app_state: &mut State,
    ) -> (r: MessageResult<Action>) {
        if route(self.id, id_path) == Route::Stale {
            MessageResult::Stale
        } else {
            let (_, rest) = id_path.split_at(1);
            proof {
                assert(rest@ =~= id_path@.drop_first());
            }
            self.child.message(view_state, rest, message, app_state)
        }
    }
}

/// Message routing through three nested scopes `a`, `b`, `c`: the address `[a, b, c]`
/// reaches only the innermost child's handler, with the empty remaining address and
/// the same message and states, while the scopes only pass it on; an address whose
/// middle identifier is not `b`'s is stale, and nothing changes.
pub proof fn lemma_route_nested<State, Action, Message, V: ViewNode<State, Action, Message>>(
    v: IdScope<IdScope<IdScope<V>>>,
    view_state: V::ViewState,
    other: ViewId,
    message: Message,
    app_state: State,
)
    requires
        other != v.child.id,
    ensures
        v.message_spec(view_state, seq![v.id, v.child.id, v.child.child.id], message, app_state)
            == v.child.child.child.message_spec(view_state, Seq::empty(), message, app_state),
        v.message_spec(view_state, seq![v.id, other, v.child.child.id], message, app_state) == (
            MessageResult::<Action>::Stale,
            view_state,
            app_state,
        ),
{
    let p = seq![v.id, v.child.id, v.child.child.id];
    assert(p.drop_first() =~= seq![v.child.id, v.child.child.id]);
    assert(p.drop_first().drop_first() =~= seq![v.child.child.id]);
    assert(p.drop_first().drop_first().drop_first() =~= Seq::<ViewId>::empty());
    let q = seq![v.id, other, v.child.child.id];
    assert(q.drop_first() =~= seq![other, v.child.child.id]);
}

} // verus!
