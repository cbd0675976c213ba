use vstd::prelude::*;
use crate::view::ViewId;

verus! {

/// Identifier of a unit of deferred work.
#[derive(Clone, Copy, Debug, PartialEq, Eq, Structural)]
pub struct TaskId(pub u64);

/// A deferred unit still running, and the view node that owns it.
#[derive(Clone, Copy, Debug, PartialEq, Eq, Structural)]
pub struct Pending {
    pub task: TaskId,
    pub owner: ViewId,
}

/// Whether `task` is among the pending units.
pub open spec fn has_task(s: Seq<Pending>, task: TaskId) -> bool {
    exists|i: int| 0 <= i < s.len() && (#[trigger] s[i]).task == task
}

/// The pending units without those of `owner`, in their order.
pub open spec fn without_owner(s: Seq<Pending>, owner: ViewId) -> Seq<Pending>
    decreases s.len(),
{
    if s.len() == 0 {
        s
    } else {
        let rest = without_owner(s.drop_last(), owner);
        if s.last().owner == owner {
            rest
        } else {
            rest.push(s.last())
        }
    }
}

/// The pending units without `task`, in their order.
pub open spec fn without_task(s: Seq<Pending>, task: TaskId) -> Seq<Pending>
    decreases s.len(),
{
    if s.len() == 0 {
        s
    } else {
        let rest = without_task(s.drop_last(), task);
        if s.last().task == task {
            rest
        } else {
            rest.push(s.last())
        }
    }
}

/// Task identifiers in `s` are pairwise distinct.
pub open spec fn unique_tasks(s: Seq<Pending>) -> bool {
    forall|i: int, j: int| 0 <= i < j < s.len() ==> (#[trigger] s[i]).task != (#[trigger] s[j]).task
}

/// Dropping a task's units keeps only units of `s`, still with distinct identifiers.
proof fn lemma_without_task_keeps(s: Seq<Pending>, task: TaskId)
    ensures
        forall|a: int| 0 <= a < without_task(s, task).len() ==> exists|b: int|
            0 <= b < s.len() && #[trigger] without_task(s, task)[a] == s[b],
        unique_tasks(s) ==> unique_tasks(without_task(s, task)),
    decreases s.len(),
{
    if s.len() > 0 {
        let d = s.drop_last();
        lemma_without_task_keeps(d, task);
        let r = without_task(d, task);
        assert forall|a: int| 0 <= a < without_task(s, task).len() implies exists|b: int|
            0 <= b < s.len() && #[trigger] without_task(s, task)[a] == s[b] by {
            if a < r.len() {
                let b = choose|b: int| 0 <= b < d.len() && r[a] == d[b];
                assert(s[b] == d[b]);
            } else {
                assert(without_task(s, task)[a] == s[s.len() - 1]);
            }
        }
        if unique_tasks(s) && s.last().task != task {
            assert forall|a: int| 0 <= a < r.len() implies (#[trigger] r[a]).task != s.last().task by {
                let b = choose|b: int| 0 <= b < d.len() && r[a] == d[b];
                assert(s[b] == d[b]);
            }
            assert(unique_tasks(d));
        }
        if unique_tasks(s) {
            assert(unique_tasks(d));
        }
    }
}

/// Dropping an owner's units keeps only units of `s`, still with distinct identifiers.
proof fn lemma_without_owner_keeps(s: Seq<Pending>, owner: ViewId)
    ensures
        forall|a: int| 0 <= a < without_owner(s, owner).len() ==> exists|b: int|
            0 <= b < s.len() && #[trigger] without_owner(s, owner)[a] == s[b],
        unique_tasks(s) ==> unique_tasks(without_owner(s, owner)),
    decreases s.len(),
{
    if s.len() > 0 {
        let d = s.drop_last();
        lemma_without_owner_keeps(d, owner);
        let r = without_owner(d, owner);
        assert forall|a: int| 0 <= a < without_owner(s, owner).len() implies exists|b: int|
            0 <= b < s.len() && #[trigger] without_owner(s, owner)[a] == s[b] by {
            if a < r.len() {
                let b = choose|b: int| 0 <= b < d.len() && r[a] == d[b];
                assert(s[b] == d[b]);
            } else {
                assert(without_owner(s, owner)[a] == s[s.len() - 1]);
            }
        }
        if unique_tasks(s) && s.last().owner != owner {
            assert forall|a: int| 0 <= a < r.len() implies (#[trigger] r[a]).task != s.last().task by {
                let b = choose|b: int| 0 <= b < d.len() && r[a] == d[b];
                assert(s[b] == d[b]);
            }
            assert(unique_tasks(d));
        }
        if unique_tasks(s) {
            assert(unique_tasks(d));
        }
    }
}

/// The deferred units handed to the scheduler and not yet completed or cancelled,
/// each with the view node that owns it. A unit's completion is delivered only while
/// it is pending; tearing its owner down cancels it.
pub struct TaskRegistry {
    pending: Vec<Pending>,
    next: u64,
}

impl TaskRegistry {
    pub closed spec fn pending_view(&self) -> Seq<Pending> {
        self.pending@
    }

    /// The identifier that the next spawned unit gets.
    pub closed spec fn next_id(&self) -> nat {
        self.next as nat
    }

    /// Task identifiers are unique and below the next one to hand out.
    pub open spec fn wf(&self) -> bool {
        &&& forall|i: int|
            0 <= i < self.pending_view().len() ==> (#[trigger] self.pending_view()[i]).task.0
                < self.next_id()
        &&& unique_tasks(self.pending_view())
    }

    pub fn new() -> (r: TaskRegistry)
        ensures
            r.wf(),
            r.pending_view() == Seq::<Pending>::empty(),
            r.next_id() == 0,
    {
        TaskRegistry { pending: Vec::new(), next: 0 }
    }

    /// Records a new deferred unit owned by `owner`; `None` once identifiers run out.
    pub fn spawn(&mut self, owner: ViewId) -> (r: Option<TaskId>)
        requires
            old(self).wf(),
        ensures
            final(self).wf(),
            old(self).next_id() < u64::MAX ==> r == Some(TaskId(old(self).next_id() as u64))
                && final(self).pending_view() == old(self).pending_view().push(
                Pending { task: TaskId(old(self).next_id() as u64), owner },
            ) && final(self).next_id() == old(self).next_id() + 1,
            old(self).next_id() >= u64::MAX ==> r == None::<TaskId> && *final(self) == *old(self),
    {
        if self.next == u64::MAX {
            return None;
        }
        let task = TaskId(self.next);
        self.pending.push(Pending { task, owner });
        self.next = self.next + 1;
        Some(task)
    }

    /// Whether `task` is still pending.
    pub fn is_pending(&self, task: TaskId) -> (r: bool)
        ensures
            r == has_task(self.pending_view(), task),
    {
        let mut i: usize = 0;
        while i < self.pending.len()
            invariant
                0 <= i <= self.pending@.len(),
                forall|j: int| 0 <= j < i ==> (#[trigger] self.pending@[j]).task != task,
            decreases self.pending@.len() - i,
        {
            if self.pending[i].task == task {
                return true;
            }
            i = i + 1;
        }
        false
    }

    /// Cancels every unit owned by `owner`, as its teardown requires.
    pub fn cancel_owner(&mut self, owner: ViewId)
        requires
            old(self).wf(),
        ensures
            final(self).wf(),
            final(self).pending_view() == without_owner(old(self).pending_view(), owner),
            final(self).next_id() == old(self).next_id(),
    {
        let ghost s = self.pending@;
        let mut kept: Vec<Pending> = Vec::new();
        let mut i: usize = 0;
        while i < self.pending.len()
            invariant
                0 <= i <= s.len(),
                self.pending@ == s,
                kept@ == without_owner(s.take(i as int), owner),
            decreases s.len() - i,
        {
            assert(s.take(i + 1).drop_last() =~= s.take(i as int));
            let p = self.pending[i];
            if p.owner != owner {
                kept.push(p);
            }
            i = i + 1;
        }
        assert(s.take(s.len() as int) =~= s);
        self.pending = kept;
        proof {
            lemma_without_owner_keeps(s, owner);
        }
    }

    /// Completes `task`: true, and the unit is no longer pending, when it was pending;
    /// false, with nothing changed, when it had completed or been cancelled already.
    pub fn complete(&mut self, task: TaskId) -> (r: bool)
        requires
            old(self).wf(),
        ensures
            final(self).wf(),
            r == has_task(old(self).pending_view(), task),
            final(self).pending_view() == without_task(old(self).pending_view(), task),
            final(self).next_id() == old(self).next_id(),
    {
        let ghost s = self.pending@;
        let mut kept: Vec<Pending> = Vec::new();
        let mut found = false;
        let mut i: usize = 0;
        while i < self.pending.len()
            invariant
                0 <= i <= s.len(),
                self.pending@ == s,
                kept@ == without_task(s.take(i as int), task),
                found == exists|b: int| 0 <= b < i && (#[trigger] s[b]).task == task,
            decreases s.len() - i,
        {
            assert(s.take(i + 1).drop_last() =~= s.take(i as int));
            let p = self.pending[i];
            if p.task != task {
                kept.push(p);
            } else {
                found = true;
            }
            i = i + 1;
        }
        assert(s.take(s.len() as int) =~= s);
        self.pending = kept;
        proof {
            lemma_without_task_keeps(s, task);
        }
        found
    }
}

proof fn lemma_without_task_gone(s: Seq<Pending>, task: TaskId)
    ensures
        !has_task(without_task(s, task), task),
    decreases s.len(),
{
    if s.len() > 0 {
        lemma_without_task_gone(s.drop_last(), task);
        let r = without_task(s.drop_last(), task);
        if s.last().task != task {
            assert forall|i: int| 0 <= i < r.push(s.last()).len() implies (#[trigger] r.push(
                s.last(),
            )[i]).task != task by {
                if i < r.len() {
                    assert(r.push(s.last())[i] == r[i]);
                }
            }
        }
    }
}

/// Completion delivers exactly once: a freshly spawned unit is pending, so completing
/// it delivers its action; after that it is no longer pending, so a second completion
/// delivers nothing.
pub proof fn lemma_completion_delivers_once(s: Seq<Pending>, task: TaskId, owner: ViewId)
    requires
        !has_task(s, task),
    ensures
        has_task(s.push(Pending { task, owner }), task),
        !has_task(without_task(s.push(Pending { task, owner }), task), task),
{
    let t = s.push(Pending { task, owner });
    assert(t[s.len() as int].task == task);
    lemma_without_task_gone(t, task);
}

/// Teardown cancels: once the owner of a freshly spawned unit is torn down, the unit
/// is no longer pending, so its completion delivers nothing.
pub proof fn lemma_teardown_cancels(s: Seq<Pending>, task: TaskId, owner: ViewId)
    requires
        !has_task(s, task),
    ensures
        !has_task(without_owner(s.push(Pending { task, owner }), owner), task),
{
    let t = s.push(Pending { task, owner });
    assert(t.drop_last() =~= s);
    lemma_without_owner_keeps(s, owner);
    let r = without_owner(s, owner);
    assert(without_owner(t, owner) == r);
    assert forall|i: int| 0 <= i < r.len() implies (#[trigger] r[i]).task != task by {
        let b = choose|b: int| 0 <= b < s.len() && r[i] == s[b];
    }
}

} // verus!
