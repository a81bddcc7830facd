//! The set of task identifiers that are currently executing.

use crate::api::types::ProviderTaskInfo;
use crate::ident::TaskId;
use vstd::prelude::*;

verus! {

/// Registry of the tasks that are executing right now.
///
/// The registry keeps identifiers in dispatch order and never holds one
/// identifier twice: an identifier enters when its task is dispatched and
/// leaves when the execution of the task ends, however it ends.
pub struct ActiveTasks {
    ids: Vec<TaskId>,
}

impl View for ActiveTasks {
    type V = Seq<TaskId>;

    /// The identifiers in dispatch order.
    closed spec fn view(&self) -> Seq<TaskId> {
        self.ids@
    }
}

/// A task to start: what its execution unit is given.
#[derive(Debug)]
pub struct Dispatch {
    pub task_id: TaskId,
    pub task_name: String,
}

/// The identifiers of `tasks`, in order.
pub open spec fn ids_of(tasks: Seq<ProviderTaskInfo>) -> Seq<TaskId> {
    tasks.map_values(|t: ProviderTaskInfo| t.id)
}

/// The dispatch of `task`.
pub open spec fn dispatch_of(task: ProviderTaskInfo) -> Dispatch {
    Dispatch { task_id: task.id, task_name: task.name }
}

/// The dispatches of `tasks`, in order.
pub open spec fn dispatches_of(tasks: Seq<ProviderTaskInfo>) -> Seq<Dispatch> {
    tasks.map_values(|t: ProviderTaskInfo| dispatch_of(t))
}

/// The tasks of a poll that are dispatched while `active` are executing:
/// each task whose identifier is neither in `active` nor earlier in the
/// poll, in the order of the poll.
pub open spec fn admitted(active: Seq<TaskId>, tasks: Seq<ProviderTaskInfo>) -> Seq<
    ProviderTaskInfo,
>
    decreases tasks.len(),
{
    if tasks.len() == 0 {
        Seq::empty()
    } else {
        let earlier = admitted(active, tasks.drop_last());
        let task = tasks.last();
        if active.contains(task.id) || ids_of(earlier).contains(task.id) {
            earlier
        } else {
            earlier.push(task)
        }
    }
}

/// The registry after the poll `tasks` was dispatched on `active`.
pub open spec fn after_dispatch(active: Seq<TaskId>, tasks: Seq<ProviderTaskInfo>) -> Seq<TaskId> {
    active + ids_of(admitted(active, tasks))
}

/// `ids` without every occurrence of `id`, the others in their order.
pub open spec fn without(ids: Seq<TaskId>, id: TaskId) -> Seq<TaskId>
    decreases ids.len(),
{
    if ids.len() == 0 {
        ids
    } else if ids.last() == id {
        without(ids.drop_last(), id)
    } else {
        without(ids.drop_last(), id).push(ids.last())
    }
}

/// `without(ids, id)` holds exactly the members of `ids` other than `id`,
/// and none of them twice where `ids` holds none twice.
pub proof fn lemma_without(ids: Seq<TaskId>, id: TaskId)
    ensures
        !without(ids, id).contains(id),
        forall|other: TaskId|
            other != id ==> (#[trigger] without(ids, id).contains(other) <==> ids.contains(other)),
        ids.no_duplicates() ==> without(ids, id).no_duplicates(),
        without(ids, id).len() <= ids.len(),
        ids.no_duplicates() && ids.contains(id) ==> without(ids, id).len() == ids.len() - 1,
        !ids.contains(id) ==> without(ids, id) == ids,
    decreases ids.len(),
{
    if ids.len() > 0 {
        let init = ids.drop_last();
        let last = ids.last();
        let rest = without(init, id);
        lemma_without(init, id);
        assert(ids =~= init.push(last));
        assert forall|other: TaskId| other != id implies (#[trigger] without(ids, id).contains(
            other,
        ) <==> ids.contains(other)) by {
            lemma_push_contains(init, last, other);
            lemma_push_contains(rest, last, other);
        }
        if ids.no_duplicates() {
            assert(init.no_duplicates()) by {
                assert forall|i: int, j: int|
                    0 <= i < init.len() && 0 <= j < init.len() && i != j implies init[i]
                    != init[j] by {
                    assert(init[i] == ids[i] && init[j] == ids[j]);
                }
            }
            assert(!init.contains(last)) by {
                if init.contains(last) {
                    let i = choose|i: int| 0 <= i < init.len() && init[i] == last;
                    assert(ids[i] == ids[ids.len() - 1]);
                }
            }
            lemma_push_contains(init, last, id);
            if last != id {
                assert(!rest.contains(last));
                let grown = rest.push(last);
                assert forall|i: int, j: int|
                    0 <= i < grown.len() && 0 <= j < grown.len() && i != j implies grown[i]
                    != grown[j] by {
                    if i < rest.len() && j < rest.len() {
                    } else if i < rest.len() {
                        assert(rest.contains(rest[i]));
                    } else if j < rest.len() {
                        assert(rest.contains(rest[j]));
                    }
                }
            }
        }
        if !ids.contains(id) {
            assert(without(ids, id) =~= ids);
        }
    }
}

/// A concatenation holds what its parts hold.
pub proof fn lemma_concat_contains(a: Seq<TaskId>, b: Seq<TaskId>, id: TaskId)
    ensures
        (a + b).contains(id) <==> (a.contains(id) || b.contains(id)),
{
    let joined = a + b;
    if joined.contains(id) {
        let i = choose|i: int| 0 <= i < joined.len() && joined[i] == id;
        if i < a.len() {
            assert(a[i] == id);
        } else {
            assert(b[i - a.len()] == id);
        }
    }
    if a.contains(id) {
        let i = choose|i: int| 0 <= i < a.len() && a[i] == id;
        assert(joined[i] == id);
    }
    if b.contains(id) {
        let i = choose|i: int| 0 <= i < b.len() && b[i] == id;
        assert(joined[a.len() + i] == id);
    }
}

/// What a poll dispatches is new: no dispatched identifier was executing,
/// none is dispatched twice, every dispatched task is a task of the poll,
/// and every task of the poll is executing afterwards.
pub proof fn lemma_admitted(active: Seq<TaskId>, tasks: Seq<ProviderTaskInfo>)
    ensures
        forall|id: TaskId| #[trigger]
            ids_of(admitted(active, tasks)).contains(id) ==> !active.contains(id) && ids_of(
                tasks,
            ).contains(id),
        forall|id: TaskId| #[trigger]
            ids_of(tasks).contains(id) ==> after_dispatch(active, tasks).contains(id),
        ids_of(admitted(active, tasks)).no_duplicates(),
        admitted(active, tasks).len() <= tasks.len(),
    decreases tasks.len(),
{
    let chosen = ids_of(admitted(active, tasks));
    if tasks.len() > 0 {
        let init = tasks.drop_last();
        let task = tasks.last();
        let earlier = admitted(active, init);
        lemma_admitted(active, init);
        assert(ids_of(earlier.push(task)) =~= ids_of(earlier).push(task.id));
        assert(ids_of(tasks) =~= ids_of(init).push(task.id));
        assert forall|id: TaskId| #[trigger] chosen.contains(id) implies !active.contains(id)
            && ids_of(tasks).contains(id) by {
            lemma_push_contains(ids_of(earlier), task.id, id);
            lemma_push_contains(ids_of(init), task.id, id);
        }
        assert forall|id: TaskId| #[trigger] ids_of(tasks).contains(id) implies after_dispatch(
            active,
            tasks,
        ).contains(id) by {
            lemma_push_contains(ids_of(init), task.id, id);
            lemma_push_contains(ids_of(earlier), task.id, id);
            lemma_concat_contains(active, ids_of(earlier), id);
            lemma_concat_contains(active, chosen, id);
        }
        if !(active.contains(task.id) || ids_of(earlier).contains(task.id)) {
            let old_ids = ids_of(earlier);
            assert forall|i: int, j: int|
                0 <= i < chosen.len() && 0 <= j < chosen.len() && i != j implies chosen[i]
                != chosen[j] by {
                if i < old_ids.len() {
                    assert(old_ids.contains(old_ids[i]));
                }
                if j < old_ids.len() {
                    assert(old_ids.contains(old_ids[j]));
                }
            }
        }
    }
}

/// A sequence with one more element holds that element and what it held.
pub proof fn lemma_push_contains(s: Seq<TaskId>, last: TaskId, id: TaskId)
    ensures
        s.push(last).contains(id) <==> (s.contains(id) || id == last),
{
    lemma_concat_contains(s, seq![last], id);
    assert(s.push(last) =~= s + seq![last]);
    if seq![last].contains(id) {
        let i = choose|i: int| 0 <= i < seq![last].len() && seq![last][i] == id;
    }
    if id == last {
        assert(seq![last][0] == id);
    }
}

/// Dispatching a poll keeps the registry free of duplicates.
pub proof fn lemma_dispatch_keeps_distinct(active: Seq<TaskId>, tasks: Seq<ProviderTaskInfo>)
    requires
        active.no_duplicates(),
    ensures
        after_dispatch(active, tasks).no_duplicates(),
{
    lemma_admitted(active, tasks);
    let chosen = ids_of(admitted(active, tasks));
    let joined = active + chosen;
    assert forall|i: int, j: int|
        0 <= i < joined.len() && 0 <= j < joined.len() && i != j implies joined[i]
        != joined[j] by {
        if i >= active.len() {
            assert(chosen.contains(chosen[i - active.len()]));
        }
        if j >= active.len() {
            assert(chosen.contains(chosen[j - active.len()]));
        }
        if i < active.len() {
            assert(active.contains(active[i]));
        }
        if j < active.len() {
            assert(active.contains(active[j]));
        }
    }
}

/// A poll that holds only tasks that are executing dispatches nothing.
pub proof fn lemma_known_tasks_dispatch_nothing(active: Seq<TaskId>, tasks: Seq<ProviderTaskInfo>)
    requires
        forall|id: TaskId| #[trigger] ids_of(tasks).contains(id) ==> active.contains(id),
    ensures
        admitted(active, tasks) == Seq::<ProviderTaskInfo>::empty(),
        after_dispatch(active, tasks) == active,
    decreases tasks.len(),
{
    if tasks.len() > 0 {
        let init = tasks.drop_last();
        assert(ids_of(tasks) =~= ids_of(init).push(tasks.last().id));
        assert forall|id: TaskId| #[trigger] ids_of(init).contains(id) implies active.contains(
            id,
        ) by {
            lemma_push_contains(ids_of(init), tasks.last().id, id);
        }
        lemma_known_tasks_dispatch_nothing(active, init);
        lemma_push_contains(ids_of(init), tasks.last().id, tasks.last().id);
    }
    assert(ids_of(Seq::<ProviderTaskInfo>::empty()) =~= Seq::<TaskId>::empty());
    assert(active + Seq::<TaskId>::empty() =~= active);
}

/// While the tasks of a poll are executing, the same poll again dispatches
/// nothing: the first dispatch wins.
pub proof fn lemma_repeated_poll_dispatches_nothing(
    active: Seq<TaskId>,
    tasks: Seq<ProviderTaskInfo>,
)
    ensures
        admitted(after_dispatch(active, tasks), tasks) == Seq::<ProviderTaskInfo>::empty(),
        after_dispatch(after_dispatch(active, tasks), tasks) == after_dispatch(active, tasks),
{
    lemma_admitted(active, tasks);
    lemma_known_tasks_dispatch_nothing(after_dispatch(active, tasks), tasks);
}

/// What changes the registry.
pub enum RegistryEvent {
    /// A poll was dispatched.
    Polled(Seq<ProviderTaskInfo>),
    /// The execution of the task with this identifier ended.
    Ended(TaskId),
}

/// The registry after `events`, in order, from `active`.
pub open spec fn registry_after(active: Seq<TaskId>, events: Seq<RegistryEvent>) -> Seq<TaskId>
    decreases events.len(),
{
    if events.len() == 0 {
        active
    } else {
        let before = registry_after(active, events.drop_last());
        match events.last() {
            RegistryEvent::Polled(tasks) => after_dispatch(before, tasks),
            RegistryEvent::Ended(id) => without(before, id),
        }
    }
}

/// Whatever polls arrive, however often they name the same task and
/// whenever tasks end, no identifier is in the registry twice: a task that
/// is executing is never dispatched a second time.
pub proof fn lemma_registry_stays_distinct(active: Seq<TaskId>, events: Seq<RegistryEvent>)
    requires
        active.no_duplicates(),
    ensures
        registry_after(active, events).no_duplicates(),
    decreases events.len(),
{
    if events.len() > 0 {
        let before = registry_after(active, events.drop_last());
        lemma_registry_stays_distinct(active, events.drop_last());
        match events.last() {
            RegistryEvent::Polled(tasks) => lemma_dispatch_keeps_distinct(before, tasks),
            RegistryEvent::Ended(id) => lemma_without(before, id),
        }
    }
}

/// A task whose execution has ended is absent from the registry until a
/// later poll names it again, and its removal touches no other task.
pub proof fn lemma_ended_task_is_absent(active: Seq<TaskId>, events: Seq<RegistryEvent>, id: TaskId)
    requires
        events.len() > 0,
        events.last() == RegistryEvent::Ended(id),
    ensures
        !registry_after(active, events).contains(id),
        forall|other: TaskId|
            other != id ==> (#[trigger] registry_after(active, events).contains(other)
                <==> registry_after(active, events.drop_last()).contains(other)),
{
    lemma_without(registry_after(active, events.drop_last()), id);
}

/// A task that was registered and then completed has left the registry as
/// it was before; completing it once more changes nothing.
pub proof fn lemma_register_then_complete(active: Seq<TaskId>, id: TaskId)
    requires
        active.no_duplicates(),
        !active.contains(id),
    ensures
        without(active.push(id), id) == active,
        without(without(active.push(id), id), id) == active,
{
    lemma_without(active, id);
    assert(active.push(id).drop_last() =~= active);
}

/// Completing a task a second time changes nothing.
pub proof fn lemma_complete_twice(active: Seq<TaskId>, id: TaskId)
    ensures
        without(without(active, id), id) == without(active, id),
{
    lemma_without(active, id);
    lemma_without(without(active, id), id);
}

impl ActiveTasks {
    #[verifier::type_invariant]
    spec fn distinct(&self) -> bool {
        self.ids@.no_duplicates()
    }

    /// An empty registry.
    pub fn new() -> (r: Self)
        ensures
            r@ == Seq::<TaskId>::empty(),
    {
        ActiveTasks { ids: Vec::new() }
    }

    /// Number of tasks in flight.
    pub fn len(&self) -> (n: usize)
        ensures
            n == self@.len(),
    {
        self.ids.len()
    }

    /// Whether no task is in flight.
    pub fn is_empty(&self) -> (r: bool)
        ensures
            r == (self@.len() == 0),
    {
        self.ids.len() == 0
    }

    /// Whether `id` is executing.
    pub fn contains(&self, id: TaskId) -> (found: bool)
        ensures
            found == self@.contains(id),
    {
        let mut i: usize = 0;
        while i < self.ids.len()
            invariant
                i <= self.ids.len(),
                forall|j: int| 0 <= j < i ==> self.ids@[j] != id,
            decreases self.ids.len() - i,
        {
            if self.ids[i] == id {
                return true;
            }
            i += 1;
        }
        false
    }

    /// Registers `id` unless it is executing already. Returns whether it
    /// was registered: the first dispatch of a task wins, a repeated one
    /// changes nothing.
    pub fn try_register(&mut self, id: TaskId) -> (registered: bool)
        ensures
            registered == !old(self)@.contains(id),
            registered ==> final(self)@ == old(self)@.push(id),
            !registered ==> final(self)@ == old(self)@,
            final(self)@.no_duplicates(),
    {
        proof {
            use_type_invariant(&*self);
        }
        if self.contains(id) {
            return false;
        }
        let ghost before = self.ids@;
        let mut ids = self.snapshot();
        ids.push(id);
        assert(ids@.no_duplicates()) by {
            assert forall|i: int, j: int|
                0 <= i < ids@.len() && 0 <= j < ids@.len() && i != j implies ids@[i] != ids@[j] by {
                if i < before.len() {
                    assert(before.contains(before[i]));
                }
                if j < before.len() {
                    assert(before.contains(before[j]));
                }
            }
        }
        self.ids = ids;
        true
    }

    /// Dispatches a poll: registers every task of `tasks` that is not
    /// executing and returns those tasks, in the order of the poll, for the
    /// caller to start. A task that is executing, or that came earlier in
    /// the same poll, is passed over.
    pub fn dispatch(&mut self, tasks: &Vec<ProviderTaskInfo>) -> (started: Vec<Dispatch>)
        ensures
            started@ == dispatches_of(admitted(old(self)@, tasks@)),
            final(self)@ == after_dispatch(old(self)@, tasks@),
            final(self)@.no_duplicates(),
    {
        proof {
            use_type_invariant(&*self);
        }
        let ghost before = self@;
        let mut started: Vec<Dispatch> = Vec::new();
        let mut i: usize = 0;
        assert(self@ =~= after_dispatch(before, tasks@.take(0)));
        assert(started@ =~= dispatches_of(admitted(before, tasks@.take(0))));
        while i < tasks.len()
            invariant
                i <= tasks.len(),
                self@ == after_dispatch(before, tasks@.take(i as int)),
                started@ == dispatches_of(admitted(before, tasks@.take(i as int))),
                self@.no_duplicates(),
            decreases tasks.len() - i,
        {
            let ghost seen = tasks@.take(i as int);
            let ghost earlier = admitted(before, seen);
            let ghost grown = tasks@.take(i + 1);
            let task = &tasks[i];
            proof {
                assert(grown.drop_last() =~= seen);
                assert(grown.last() == *task);
                lemma_concat_contains(before, ids_of(earlier), task.id);
            }
            if self.try_register(task.id) {
                started.push(Dispatch { task_id: task.id, task_name: task.name.clone() });
                proof {
                    assert(admitted(before, grown) == earlier.push(*task));
                    assert(ids_of(earlier.push(*task)) =~= ids_of(earlier).push(task.id));
                    assert(self@ =~= after_dispatch(before, grown));
                    assert(started@ =~= dispatches_of(earlier.push(*task)));
                }
            } else {
                assert(admitted(before, grown) == earlier);
            }
            i += 1;
        }
        assert(tasks@.take(i as int) =~= tasks@);
        started
    }

    /// Removes `id` when the execution of its task has ended. Returns
    /// whether it was registered; afterwards it is not, and every other
    /// identifier is where it was.
    pub fn complete(&mut self, id: TaskId) -> (removed: bool)
        ensures
            removed == old(self)@.contains(id),
            final(self)@ == without(old(self)@, id),
            !final(self)@.contains(id),
            final(self)@.no_duplicates(),
            removed ==> final(self)@.len() == old(self)@.len() - 1,
            !removed ==> final(self)@ == old(self)@,
    {
        proof {
            use_type_invariant(&*self);
            lemma_without(self.ids@, id);
        }
        let mut kept: Vec<TaskId> = Vec::new();
        let mut removed = false;
        let mut i: usize = 0;
        while i < self.ids.len()
            invariant
                i <= self.ids.len(),
                kept@ == without(self.ids@.take(i as int), id),
                removed == self.ids@.take(i as int).contains(id),
            decreases self.ids.len() - i,
        {
            let ghost seen = self.ids@.take(i as int);
            let ghost grown = self.ids@.take(i + 1);
            assert(grown.drop_last() =~= seen);
            assert(grown.last() == self.ids@[i as int]);
            proof {
                if seen.contains(id) {
                    let j = choose|j: int| 0 <= j < seen.len() && seen[j] == id;
                    assert(grown[j] == id);
                }
                if grown.contains(id) && self.ids@[i as int] != id {
                    let j = choose|j: int| 0 <= j < grown.len() && grown[j] == id;
                    assert(seen[j] == id);
                }
            }
            if self.ids[i] == id {
                removed = true;
                assert(grown[i as int] == id);
            } else {
                kept.push(self.ids[i]);
            }
            i += 1;
        }
        assert(self.ids@.take(i as int) =~= self.ids@);
        self.ids = kept;
        removed
    }

    /// A copy of the identifiers that are executing at this moment, in
    /// dispatch order. Later changes of the registry do not show in it.
    pub fn snapshot(&self) -> (ids: Vec<TaskId>)
        ensures
            ids@ == self@,
    {
        let mut ids: Vec<TaskId> = Vec::new();
        let mut i: usize = 0;
        while i < self.ids.len()
            invariant
                i <= self.ids.len(),
                ids@ == self.ids@.take(i as int),
            decreases self.ids.len() - i,
        {
            ids.push(self.ids[i]);
            assert(self.ids@.take(i + 1) =~= self.ids@.take(i as int).push(self.ids@[i as int]));
            i += 1;
        }
        assert(self.ids@.take(i as int) =~= self.ids@);
        ids
    }
}

} // verus!
