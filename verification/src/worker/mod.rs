//! The dispatch side of the agent: the registry of running tasks, the
//! decisions of the polling loop and the steps of a training run.
//!
//! The loop polls, dispatches and sleeps until shutdown is raised, then
//! drains. It performs nothing itself: each step names the next action, the
//! caller performs it and hands back what happened.

pub mod drain;
pub mod gpu_monitor;
pub mod registry;
pub mod training;
pub mod unit;

pub use gpu_monitor::GpuMonitor;
pub use registry::ActiveTasks;
pub use training::{TrainingConfig, TrainingExecutor, TrainingTask};

use crate::api::client::{BackendClient, ClientView};
use crate::api::types::{HeartbeatSnapshot, ProviderTaskInfo};
use crate::config::Config;
use crate::error::ClientError;
use crate::ident::{ProviderId, TaskId};
use crate::text::trim_end;
use crate::time::Span;
use crate::worker::drain::{drain_step, drain_step_of, DrainPolicy, DrainStep};
use crate::worker::registry::{admitted, after_dispatch, dispatches_of, Dispatch};
use vstd::prelude::*;

verus! {

/// The agent's worker: its settings and its client of the coordinating
/// service.
pub struct Worker {
    config: Config,
    client: BackendClient,
}

/// Where the dispatch loop stands: what it is waiting for.
#[derive(Clone, Copy, Debug, PartialEq, Eq, Structural)]
pub enum LoopState {
    /// At the start of a cycle, waiting for the shutdown flag.
    Idle,
    /// Waiting for the heartbeat to be sent.
    Heartbeat,
    /// Waiting for the list of assigned tasks.
    Polling,
    /// Waiting for the new tasks to be started.
    Dispatching,
    /// Waiting for the pause between two polls to pass.
    Sleeping,
    /// Shutdown was seen: waiting for the next look at the registry.
    Draining,
    /// The loop has ended.
    Terminated,
}

/// Why the loop ended.
#[derive(Clone, Copy, Debug, PartialEq, Eq, Structural)]
pub enum ExitReason {
    /// Shutdown, and every task had ended.
    Drained,
    /// Shutdown, and the drain timed out with `remaining` tasks in flight.
    DrainTimedOut { remaining: usize },
    /// The caller reported something the loop was not waiting for.
    Unexpected,
}

/// What the caller reports to the loop.
#[derive(Debug)]
pub enum LoopEvent {
    /// The shutdown flag as it stands.
    Shutdown(bool),
    /// The heartbeat was sent, or failed.
    HeartbeatSent(Result<(), ClientError>),
    /// The assigned tasks, or the failure of the poll.
    Tasks(Result<Vec<ProviderTaskInfo>, ClientError>),
    /// An execution unit is started for each task handed out.
    Spawned,
    /// The pause is over.
    Woke,
    /// The pause of the drain is over; the time since the drain began.
    DrainElapsed(Span),
}

/// What the caller is to do next for the loop.
#[derive(Debug)]
pub enum LoopAction {
    /// Read the shutdown flag.
    CheckShutdown,
    /// Send this heartbeat, with the utilisation figures of the moment.
    SendHeartbeat(HeartbeatSnapshot),
    /// Poll the assigned tasks.
    FetchTasks,
    /// Start an execution unit for each of these, without waiting for any.
    Spawn(Vec<Dispatch>),
    /// Pause for `secs` seconds.
    Sleep { secs: u64 },
    /// Pause for `secs` seconds, then report the time since the drain
    /// began; the drain begins with the first such action.
    DrainWait { secs: u64 },
    /// Leave the loop.
    Exit(ExitReason),
}

/// `LoopAction` over mathematical values.
pub enum ActionView {
    CheckShutdown,
    SendHeartbeat { provider_id: ProviderId, current_tasks: Seq<TaskId> },
    FetchTasks,
    Spawn(Seq<Dispatch>),
    Sleep { secs: u64 },
    DrainWait { secs: u64 },
    Exit(ExitReason),
}

impl View for LoopAction {
    type V = ActionView;

    open spec fn view(&self) -> ActionView {
        match self {
            LoopAction::CheckShutdown => ActionView::CheckShutdown,
            LoopAction::SendHeartbeat(snapshot) => ActionView::SendHeartbeat {
                provider_id: snapshot.provider_id,
                current_tasks: snapshot.current_tasks@,
            },
            LoopAction::FetchTasks => ActionView::FetchTasks,
            LoopAction::Spawn(started) => ActionView::Spawn(started@),
            LoopAction::Sleep { secs } => ActionView::Sleep { secs: *secs },
            LoopAction::DrainWait { secs } => ActionView::DrainWait { secs: *secs },
            LoopAction::Exit(reason) => ActionView::Exit(*reason),
        }
    }
}

/// The dispatch loop of a registered provider.
pub struct DispatchLoop {
    provider_id: ProviderId,
    poll_interval_secs: u64,
    drain: DrainPolicy,
    state: LoopState,
}

/// A dispatch loop as a plain value.
pub struct LoopView {
    pub provider_id: ProviderId,
    /// Pause between two polls, in seconds.
    pub poll_interval_secs: u64,
    pub drain: DrainPolicy,
    pub state: LoopState,
}

impl View for DispatchLoop {
    type V = LoopView;

    closed spec fn view(&self) -> LoopView {
        LoopView {
            provider_id: self.provider_id,
            poll_interval_secs: self.poll_interval_secs,
            drain: self.drain,
            state: self.state,
        }
    }
}

/// The loop `pre` in `state`.
pub open spec fn in_state(pre: LoopView, state: LoopState) -> LoopView {
    LoopView { state, ..pre }
}

/// The loop, the registry and the action that follow `event`, for the loop
/// `pre` and the registry `active`.
///
/// A cycle reads the shutdown flag, sends a heartbeat that shows the
/// registry of that moment, polls, dispatches the tasks that are not
/// executing and sleeps. A failed heartbeat or poll does not end the loop.
/// Once shutdown is seen nothing more is dispatched: the loop drains and
/// ends. Only a dispatch changes the registry.
pub open spec fn loop_next(pre: LoopView, active: Seq<TaskId>, event: LoopEvent) -> (
    LoopView,
    Seq<TaskId>,
    ActionView,
) {
    match (pre.state, event) {
        (LoopState::Idle, LoopEvent::Shutdown(false)) => (
            in_state(pre, LoopState::Heartbeat),
            active,
            ActionView::SendHeartbeat { provider_id: pre.provider_id, current_tasks: active },
        ),
        (LoopState::Idle, LoopEvent::Shutdown(true)) => (
            in_state(pre, LoopState::Draining),
            active,
            ActionView::DrainWait { secs: 0 },
        ),
        (LoopState::Heartbeat, LoopEvent::HeartbeatSent(_)) => (
            in_state(pre, LoopState::Polling),
            active,
            ActionView::FetchTasks,
        ),
        (LoopState::Polling, LoopEvent::Tasks(Ok(tasks))) => if admitted(active, tasks@).len()
            == 0 {
            (
                in_state(pre, LoopState::Sleeping),
                after_dispatch(active, tasks@),
                ActionView::Sleep { secs: pre.poll_interval_secs },
            )
        } else {
            (
                in_state(pre, LoopState::Dispatching),
                after_dispatch(active, tasks@),
                ActionView::Spawn(dispatches_of(admitted(active, tasks@))),
            )
        },
        (LoopState::Polling, LoopEvent::Tasks(Err(_)))
        | (LoopState::Dispatching, LoopEvent::Spawned) => (
            in_state(pre, LoopState::Sleeping),
            active,
            ActionView::Sleep { secs: pre.poll_interval_secs },
        ),
        (LoopState::Sleeping, LoopEvent::Woke) => (
            in_state(pre, LoopState::Idle),
            active,
            ActionView::CheckShutdown,
        ),
        (LoopState::Draining, LoopEvent::DrainElapsed(elapsed)) => match drain_step_of(
            pre.drain,
            active.len() as usize,
            elapsed,
        ) {
            DrainStep::Finished => (
                in_state(pre, LoopState::Terminated),
                active,
                ActionView::Exit(ExitReason::Drained),
            ),
            DrainStep::TimedOut { remaining } => (
                in_state(pre, LoopState::Terminated),
                active,
                ActionView::Exit(ExitReason::DrainTimedOut { remaining }),
            ),
            DrainStep::Wait { secs } => (
                in_state(pre, LoopState::Draining),
                active,
                ActionView::DrainWait { secs },
            ),
        },
        _ => (
            in_state(pre, LoopState::Terminated),
            active,
            ActionView::Exit(ExitReason::Unexpected),
        ),
    }
}

/// The loop and the registry after `events`, from the loop `pre` and the
/// registry `active`.
pub open spec fn loop_after(pre: LoopView, active: Seq<TaskId>, events: Seq<LoopEvent>) -> (
    LoopView,
    Seq<TaskId>,
)
    decreases events.len(),
{
    if events.len() == 0 {
        (pre, active)
    } else {
        let before = loop_after(pre, active, events.drop_last());
        let stepped = loop_next(before.0, before.1, events.last());
        (stepped.0, stepped.1)
    }
}

/// The action that the last of `events` leads to; `events` is not empty.
pub open spec fn action_after(
    pre: LoopView,
    active: Seq<TaskId>,
    events: Seq<LoopEvent>,
) -> ActionView {
    let before = loop_after(pre, active, events.drop_last());
    loop_next(before.0, before.1, events.last()).2
}

/// Whether shutdown has been seen by a loop in `state`.
pub open spec fn shutting_down(state: LoopState) -> bool {
    state == LoopState::Draining || state == LoopState::Terminated
}

/// A heartbeat shows the registry as it is when the heartbeat is made, and
/// making it changes nothing. The snapshot is a value of its own: what
/// happens to the registry afterwards does not reach it.
pub proof fn lemma_heartbeat_shows_registry(pre: LoopView, active: Seq<TaskId>)
    requires
        pre.state == LoopState::Idle,
    ensures
        loop_next(pre, active, LoopEvent::Shutdown(false)).2 == (ActionView::SendHeartbeat {
            provider_id: pre.provider_id,
            current_tasks: active,
        }),
        loop_next(pre, active, LoopEvent::Shutdown(false)).1 == active,
{
}

/// A step dispatches only what is not executing: the tasks it hands out
/// were not in the registry, none is handed out twice, and the registry
/// stays free of duplicates.
pub proof fn lemma_step_dispatches_new_tasks_only(
    pre: LoopView,
    active: Seq<TaskId>,
    event: LoopEvent,
)
    requires
        active.no_duplicates(),
    ensures
        loop_next(pre, active, event).1.no_duplicates(),
        loop_next(pre, active, event).2 matches ActionView::Spawn(started) ==> (event
            matches LoopEvent::Tasks(Ok(tasks)) && started == dispatches_of(
            admitted(active, tasks@),
        ) && crate::worker::registry::ids_of(admitted(active, tasks@)).no_duplicates() && forall|
            id: TaskId,
        | #[trigger]
            crate::worker::registry::ids_of(admitted(active, tasks@)).contains(id)
                ==> !active.contains(id)),
{
    match (pre.state, event) {
        (LoopState::Polling, LoopEvent::Tasks(Ok(tasks))) => {
            crate::worker::registry::lemma_admitted(active, tasks@);
            crate::worker::registry::lemma_dispatch_keeps_distinct(active, tasks@);
        },
        _ => {},
    }
}

/// Once shutdown is seen the loop dispatches nothing more: whatever the
/// caller reports, the registry is left as it is and no task is handed
/// out.
pub proof fn lemma_no_dispatch_after_shutdown(
    pre: LoopView,
    active: Seq<TaskId>,
    events: Seq<LoopEvent>,
)
    requires
        shutting_down(pre.state),
    ensures
        shutting_down(loop_after(pre, active, events).0.state),
        loop_after(pre, active, events).1 == active,
        events.len() > 0 ==> !(action_after(pre, active, events) is Spawn),
    decreases events.len(),
{
    if events.len() > 0 {
        lemma_no_dispatch_after_shutdown(pre, active, events.drop_last());
    }
}

/// A failed heartbeat and a failed poll do not end the loop: whatever the
/// heartbeat did, the loop polls, and after a failed poll it sleeps for the
/// poll interval and starts the next cycle with the registry as it was.
pub proof fn lemma_failures_do_not_end_the_loop(
    pre: LoopView,
    active: Seq<TaskId>,
    heartbeat: Result<(), ClientError>,
    failure: ClientError,
)
    requires
        pre.state == LoopState::Idle,
    ensures
        ({
            let beat = loop_next(pre, active, LoopEvent::Shutdown(false));
            let polled = loop_next(beat.0, beat.1, LoopEvent::HeartbeatSent(heartbeat));
            let slept = loop_next(polled.0, polled.1, LoopEvent::Tasks(Err(failure)));
            let woke = loop_next(slept.0, slept.1, LoopEvent::Woke);
            &&& polled.2 == ActionView::FetchTasks
            &&& slept.2 == ActionView::Sleep { secs: pre.poll_interval_secs }
            &&& woke.2 == ActionView::CheckShutdown
            &&& woke.0 == pre
            &&& woke.1 == active
        }),
{
}

/// A cycle that polls tasks leads back to the start of the next cycle: the
/// new tasks are handed out, if there are any, the loop sleeps for the poll
/// interval and asks for the shutdown flag again.
pub proof fn lemma_cycle_returns_to_idle(
    pre: LoopView,
    active: Seq<TaskId>,
    heartbeat: Result<(), ClientError>,
    tasks: Vec<ProviderTaskInfo>,
)
    requires
        pre.state == LoopState::Idle,
    ensures
        ({
            let beat = loop_next(pre, active, LoopEvent::Shutdown(false));
            let polled = loop_next(beat.0, beat.1, LoopEvent::HeartbeatSent(heartbeat));
            let handed = loop_next(polled.0, polled.1, LoopEvent::Tasks(Ok(tasks)));
            let slept = if handed.2 is Spawn {
                loop_next(handed.0, handed.1, LoopEvent::Spawned)
            } else {
                handed
            };
            let woke = loop_next(slept.0, slept.1, LoopEvent::Woke);
            &&& handed.2 is Spawn <==> admitted(active, tasks@).len() > 0
            &&& slept.2 == ActionView::Sleep { secs: pre.poll_interval_secs }
            &&& woke.2 == ActionView::CheckShutdown
            &&& woke.0 == pre
            &&& woke.1 == after_dispatch(active, tasks@)
        }),
{
}

/// A loop that sees shutdown at the start of a cycle with tasks in flight
/// waits for them: it looks at the registry at once and goes on looking
/// until the registry is empty or the timeout has passed.
pub proof fn lemma_shutdown_starts_drain(pre: LoopView, active: Seq<TaskId>, elapsed: Span)
    requires
        pre.state == LoopState::Idle,
    ensures
        ({
            let seen = loop_next(pre, active, LoopEvent::Shutdown(true));
            let looked = loop_next(seen.0, seen.1, LoopEvent::DrainElapsed(elapsed));
            &&& seen.0.state == LoopState::Draining
            &&& seen.2 == ActionView::DrainWait { secs: 0 }
            &&& looked.1 == active
            &&& looked.2 == match drain_step_of(pre.drain, active.len() as usize, elapsed) {
                DrainStep::Finished => ActionView::Exit(ExitReason::Drained),
                DrainStep::TimedOut { remaining } => ActionView::Exit(
                    ExitReason::DrainTimedOut { remaining },
                ),
                DrainStep::Wait { secs } => ActionView::DrainWait { secs },
            }
        }),
{
}

impl Worker {
    /// A worker with the settings `config`. Its client of the coordinating
    /// service carries the bearer token of the settings, if they hold one.
    pub fn new(config: Config) -> (r: Result<Self, ClientError>)
        ensures
            r matches Ok(worker) && worker.config() == config && worker.client()@ == (ClientView {
                base_url: trim_end(config.backend.url@, '/'),
                token: match config.provider.jwt_token {
                    Some(t) => Some(t@),
                    None => None,
                },
            }),
    {
        let mut client = BackendClient::new(config.backend.url.as_str());
        match &config.provider.jwt_token {
            Some(token) => {
                client.set_token(token.as_str());
            },
            None => {},
        }
        Ok(Worker { config, client })
    }

    /// The settings of this worker.
    pub closed spec fn config(&self) -> Config {
        self.config
    }

    /// The client of this worker.
    pub closed spec fn client(&self) -> BackendClient {
        self.client
    }

    /// The settings of this worker.
    pub fn settings(&self) -> (r: &Config)
        ensures
            *r == self.config(),
    {
        &self.config
    }

    /// The client of the coordinating service.
    pub fn backend(&self) -> (r: &BackendClient)
        ensures
            *r == self.client(),
    {
        &self.client
    }

    /// Begins the dispatch loop. A provider that has no identifier is not
    /// registered and cannot run; otherwise the loop starts a cycle by
    /// asking for the shutdown flag.
    pub fn start(&self) -> (r: Result<(DispatchLoop, LoopAction), ClientError>)
        ensures
            match self.config().provider.id {
                None => r matches Err(e) && e is NotRegistered,
                Some(id) => r matches Ok(begun) && begun.0@ == (LoopView {
                    provider_id: id,
                    poll_interval_secs: self.config().worker.task_poll_interval_secs,
                    drain: DrainPolicy { timeout_secs: 30, poll_secs: 2 },
                    state: LoopState::Idle,
                }) && begun.1@ == ActionView::CheckShutdown,
            },
    {
        match self.config.provider.id {
            None => Err(ClientError::NotRegistered),
            Some(id) => Ok(
                (
                    DispatchLoop {
                        provider_id: id,
                        poll_interval_secs: self.config.worker.task_poll_interval_secs,
                        drain: DrainPolicy::default(),
                        state: LoopState::Idle,
                    },
                    LoopAction::CheckShutdown,
                ),
            ),
        }
    }
}

impl DispatchLoop {
    /// Where the loop stands.
    pub fn state(&self) -> (s: LoopState)
        ensures
            s == self@.state,
    {
        self.state
    }

    /// The provider this loop works for.
    pub fn provider_id(&self) -> (id: ProviderId)
        ensures
            id == self@.provider_id,
    {
        self.provider_id
    }

    /// The heartbeat of this moment: a copy of what `registry` holds now.
    pub fn heartbeat(&self, registry: &ActiveTasks) -> (snapshot: HeartbeatSnapshot)
        ensures
            snapshot.provider_id == self@.provider_id,
            snapshot.current_tasks@ == registry@,
    {
        HeartbeatSnapshot { provider_id: self.provider_id, current_tasks: registry.snapshot() }
    }

    /// Takes one step of the loop: `event` is what the caller reports,
    /// `registry` the registry of running tasks, held by the caller for the
    /// length of this call. Returns the next action.
    pub fn step(&mut self, registry: &mut ActiveTasks, event: LoopEvent) -> (action: LoopAction)
        ensures
            (final(self)@, final(registry)@, action@) == loop_next(
                old(self)@,
                old(registry)@,
                event,
            ),
    {
        let (state, action) = match (self.state, event) {
            (LoopState::Idle, LoopEvent::Shutdown(false)) => (
                LoopState::Heartbeat,
                LoopAction::SendHeartbeat(self.heartbeat(registry)),
            ),
            (LoopState::Idle, LoopEvent::Shutdown(true)) => (
                LoopState::Draining,
                LoopAction::DrainWait { secs: 0 },
            ),
            (LoopState::Heartbeat, LoopEvent::HeartbeatSent(_)) => (
                LoopState::Polling,
                LoopAction::FetchTasks,
            ),
            (LoopState::Polling, LoopEvent::Tasks(Ok(tasks))) => {
                let started = registry.dispatch(&tasks);
                if started.len() == 0 {
                    (LoopState::Sleeping, LoopAction::Sleep { secs: self.poll_interval_secs })
                } else {
                    (LoopState::Dispatching, LoopAction::Spawn(started))
                }
            },
            (LoopState::Polling, LoopEvent::Tasks(Err(_)))
            | (LoopState::Dispatching, LoopEvent::Spawned) => (
                LoopState::Sleeping,
                LoopAction::Sleep { secs: self.poll_interval_secs },
            ),
            (LoopState::Sleeping, LoopEvent::Woke) => (LoopState::Idle, LoopAction::CheckShutdown),
            (LoopState::Draining, LoopEvent::DrainElapsed(elapsed)) => {
                match drain_step(self.drain, registry.len(), elapsed) {
                    DrainStep::Finished => (
                        LoopState::Terminated,
                        LoopAction::Exit(ExitReason::Drained),
                    ),
                    DrainStep::TimedOut { remaining } => (
                        LoopState::Terminated,
                        LoopAction::Exit(ExitReason::DrainTimedOut { remaining }),
                    ),
                    DrainStep::Wait { secs } => (
                        LoopState::Draining,
                        LoopAction::DrainWait { secs },
                    ),
                }
            },
            _ => (LoopState::Terminated, LoopAction::Exit(ExitReason::Unexpected)),
        };
        self.state = state;
        action
    }
}

} // verus!
