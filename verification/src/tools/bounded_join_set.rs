//! An upper bound for tasks that run at the same time.

use vstd::prelude::*;

verus! {

/// Counts the tasks that run, up to a bound, and keeps the results of those that have
/// ended until they are handed out.
pub struct BoundedJoinSet<T> {
    max_tasks: usize,
    running: usize,
    results: Vec<T>,
}

/// What to do next to start a task.
#[derive(Debug, PartialEq, Eq)]
pub enum SpawnAction<T> {
    /// Collect the result of a task that has ended, if there is one.
    TryJoin,
    /// Wait for a task to end and collect its result.
    Join,
    /// Start the new task and hand out the results that were collected.
    Spawn(Vec<T>),
    /// Give up: a task ended without a result.
    Abort,
}

/// What the environment reports of the last action to start a task.
#[derive(Debug, PartialEq, Eq)]
pub enum SpawnEvent<T> {
    /// The new task is asked for.
    Begin,
    /// The result of a task that had ended was collected.
    Collected(T),
    /// The result of a task that was waited for was collected.
    Joined(T),
    /// No task has ended.
    NoneEnded,
    /// A task has ended, but without a result.
    Failed,
}

/// What to do next to wait for all tasks.
#[derive(Debug, PartialEq, Eq)]
pub enum JoinAction<T> {
    /// Wait for a task to end and collect its result.
    Join,
    /// Hand out the results.
    Done(Vec<T>),
    /// Give up: a task ended without a result.
    Abort,
}

/// What the environment reports of the last action to wait for all tasks.
#[derive(Debug, PartialEq, Eq)]
pub enum JoinEvent<T> {
    /// All tasks are to be waited for.
    Begin,
    /// The result of a task was collected.
    Joined(T),
    /// A task has ended, but without a result.
    Failed,
}

/// The tasks as numbers, and the results that wait to be handed out.
#[verifier::ext_equal]
pub struct JoinView<T> {
    pub max: nat,
    pub running: nat,
    pub pending: Seq<T>,
}

/// An action, with the results as a sequence.
pub enum StepView<T> {
    TryJoin,
    Join,
    HandOut(Seq<T>),
    Abort,
}

impl<T> JoinView<T> {
    /// No more tasks run than allowed.
    pub open spec fn valid(self) -> bool {
        self.running <= self.max
    }

    /// After one task was counted in or out, and with other results.
    pub open spec fn with(self, running: int, pending: Seq<T>) -> JoinView<T> {
        JoinView { max: self.max, running: running as nat, pending }
    }
}

impl<T> SpawnEvent<T> {
    /// Whether a task has ended.
    pub open spec fn ends_task(self) -> bool {
        self is Collected || self is Joined || self is Failed
    }
}

impl<T> JoinEvent<T> {
    /// Whether a task has ended.
    pub open spec fn ends_task(self) -> bool {
        self is Joined || self is Failed
    }
}

impl<T> SpawnAction<T> {
    pub open spec fn view(self) -> StepView<T> {
        match self {
            SpawnAction::TryJoin => StepView::TryJoin,
            SpawnAction::Join => StepView::Join,
            SpawnAction::Spawn(results) => StepView::HandOut(results@),
            SpawnAction::Abort => StepView::Abort,
        }
    }
}

impl<T> JoinAction<T> {
    pub open spec fn view(self) -> StepView<T> {
        match self {
            JoinAction::Join => StepView::Join,
            JoinAction::Done(results) => StepView::HandOut(results@),
            JoinAction::Abort => StepView::Abort,
        }
    }
}

/// The tasks after an event on the way to start one, and what to do next. The new task
/// counts once it is started. One that was waited for makes room for it, and one
/// without a result is gone all the same, together with what was collected before.
pub open spec fn spawn_next<T>(v: JoinView<T>, event: SpawnEvent<T>) -> (JoinView<T>, StepView<T>) {
    match event {
        SpawnEvent::Begin => (v.with(v.running as int, seq![]), StepView::TryJoin),
        SpawnEvent::Collected(result) => (
            v.with(v.running - 1, v.pending.push(result)),
            StepView::TryJoin,
        ),
        SpawnEvent::Joined(result) => (
            v.with(v.running as int, seq![]),
            StepView::HandOut(v.pending.push(result)),
        ),
        SpawnEvent::NoneEnded => if v.running >= v.max {
            (v, StepView::Join)
        } else {
            (v.with(v.running as int + 1, seq![]), StepView::HandOut(v.pending))
        },
        SpawnEvent::Failed => (v.with(v.running - 1, seq![]), StepView::Abort),
    }
}

/// The tasks after an event on the way to wait for all of them, and what to do next.
pub open spec fn join_next_of<T>(v: JoinView<T>, event: JoinEvent<T>) -> (
    JoinView<T>,
    StepView<T>,
) {
    match event {
        JoinEvent::Begin => join_or_end(v.with(v.running as int, seq![])),
        JoinEvent::Joined(result) => join_or_end(v.with(v.running - 1, v.pending.push(result))),
        JoinEvent::Failed => (v.with(v.running - 1, seq![]), StepView::Abort),
    }
}

/// Waits for one more task, or hands the results out if there is none.
pub open spec fn join_or_end<T>(v: JoinView<T>) -> (JoinView<T>, StepView<T>) {
    if v.running > 0 {
        (v, StepView::Join)
    } else {
        (v.with(0, seq![]), StepView::HandOut(v.pending))
    }
}

impl<T> BoundedJoinSet<T> {
    /// The tasks as numbers, and the results that wait to be handed out.
    pub closed spec fn view(&self) -> JoinView<T> {
        JoinView { max: self.max_tasks as nat, running: self.running as nat, pending: self.results@ }
    }

    /// No task runs, and up to `max_tasks` may.
    pub fn new(max_tasks: usize) -> (r: BoundedJoinSet<T>)
        ensures
            r@ == (JoinView::<T> { max: max_tasks as nat, running: 0, pending: seq![] }),
    {
        BoundedJoinSet { max_tasks, running: 0, results: Vec::new() }
    }

    /// Number of tasks that run.
    pub fn len(&self) -> (r: usize)
        ensures
            r == self@.running,
    {
        self.running
    }

    fn take_results(&mut self) -> (r: Vec<T>)
        ensures
            r@ == old(self)@.pending,
            final(self)@ == old(self)@.with(old(self)@.running as int, seq![]),
    {
        let mut results: Vec<T> = Vec::new();
        std::mem::swap(&mut results, &mut self.results);
        results
    }

    /// Moves the start of a task on and says what to do next. Tasks that have ended
    /// are collected first; then the task waits until there is room, which is the
    /// case once one has been waited for. Starting the task counts it. Where no task
    /// may run there never is room.
    pub fn spawn_task(&mut self, event: SpawnEvent<T>) -> (r: SpawnAction<T>)
        requires
            old(self)@.valid(),
            old(self)@.max > 0,
            event.ends_task() ==> old(self)@.running > 0,
        ensures
            final(self)@.valid(),
            (final(self)@, r@) == spawn_next(old(self)@, event),
    {
        match event {
            SpawnEvent::Begin => {
                self.results = Vec::new();
                SpawnAction::TryJoin
            },
            SpawnEvent::Collected(result) => {
                self.running = self.running - 1;
                self.results.push(result);
                SpawnAction::TryJoin
            },
            // the new task takes the place of the one that ended
            SpawnEvent::Joined(result) => {
                self.results.push(result);
                SpawnAction::Spawn(self.take_results())
            },
            SpawnEvent::NoneEnded => {
                if self.running >= self.max_tasks {
                    SpawnAction::Join
                } else {
                    self.running = self.running + 1;
                    SpawnAction::Spawn(self.take_results())
                }
            },
            SpawnEvent::Failed => {
                // the task is gone all the same
                self.running = self.running - 1;
                self.results = Vec::new();
                SpawnAction::Abort
            },
        }
    }

    /// Whether there is a task to wait for. It no longer counts.
    pub fn join_next(&mut self) -> (r: bool)
        requires
            old(self)@.valid(),
        ensures
            final(self)@.valid(),
            r == (old(self)@.running > 0),
            final(self)@ == old(self)@.with(
                if r {
                    old(self)@.running - 1
                } else {
                    0
                },
                old(self)@.pending,
            ),
    {
        if self.running > 0 {
            self.running = self.running - 1;
            true
        } else {
            false
        }
    }

    /// Moves the wait for all tasks on and says what to do next.
    pub fn join_spawned_tasks(&mut self, event: JoinEvent<T>) -> (r: JoinAction<T>)
        requires
            old(self)@.valid(),
            event.ends_task() ==> old(self)@.running > 0,
        ensures
            final(self)@.valid(),
            (final(self)@, r@) == join_next_of(old(self)@, event),
    {
        match event {
            JoinEvent::Begin => {
                self.results = Vec::new();
            },
            JoinEvent::Joined(result) => {
                self.running = self.running - 1;
                self.results.push(result);
            },
            JoinEvent::Failed => {
                self.running = self.running - 1;
                self.results = Vec::new();
                return JoinAction::Abort;
            },
        }
        if self.running > 0 {
            JoinAction::Join
        } else {
            JoinAction::Done(self.take_results())
        }
    }
}

// ---- one call ----

/// The tasks after the results of `ended` were collected to start a task.
pub open spec fn after_collecting<T>(v: JoinView<T>, ended: Seq<T>) -> JoinView<T>
    decreases ended.len(),
{
    if ended.len() == 0 {
        spawn_next(v, SpawnEvent::Begin).0
    } else {
        spawn_next(
            after_collecting(v, ended.drop_last()),
            SpawnEvent::Collected(ended.last()),
        ).0
    }
}

proof fn collecting_keeps_count<T>(v: JoinView<T>, ended: Seq<T>)
    requires
        ended.len() <= v.running,
    ensures
        after_collecting(v, ended) == v.with(v.running - ended.len(), ended),
    decreases ended.len(),
{
    if ended.len() > 0 {
        collecting_keeps_count(v, ended.drop_last());
        assert(ended.drop_last().push(ended.last()) =~= ended);
    } else {
        assert(ended =~= seq![]);
    }
}

/// To start a task when others run hands out the results of those that have ended, in
/// the order in which they were collected, and that of the one that had to be waited
/// for last. Afterwards as many tasks run as before and the new one, less those whose
/// results were handed out, and never more than allowed.
pub proof fn a_started_task_hands_out_what_ended<T>(v: JoinView<T>, ended: Seq<T>, waited: T)
    requires
        v.valid(),
        v.max > 0,
        ended.len() <= v.running,
    ensures
        ({
            let (looked, action) = spawn_next(after_collecting(v, ended), SpawnEvent::NoneEnded);
            let full = v.running - ended.len() >= v.max;
            let (after, last) = if full {
                spawn_next(looked, SpawnEvent::Joined(waited))
            } else {
                (looked, action)
            };
            let results = if full {
                ended.push(waited)
            } else {
                ended
            };
            &&& full ==> action == StepView::<T>::Join && ended.len() == 0
            &&& last == StepView::HandOut(results)
            &&& after.running == v.running + 1 - results.len()
            &&& after.running <= v.max
            &&& after.pending == Seq::<T>::empty()
        }),
{
    collecting_keeps_count(v, ended);
}

/// The tasks after the results of `ended` were waited for, and what to do next.
pub open spec fn after_joining<T>(v: JoinView<T>, ended: Seq<T>) -> (JoinView<T>, StepView<T>)
    decreases ended.len(),
{
    if ended.len() == 0 {
        join_next_of(v, JoinEvent::Begin)
    } else {
        join_next_of(after_joining(v, ended.drop_last()).0, JoinEvent::Joined(ended.last()))
    }
}

proof fn joining_keeps_count<T>(v: JoinView<T>, ended: Seq<T>)
    requires
        ended.len() <= v.running,
    ensures
        after_joining(v, ended) == join_or_end(v.with(v.running - ended.len(), ended)),
    decreases ended.len(),
{
    if ended.len() > 0 {
        joining_keeps_count(v, ended.drop_last());
        assert(ended.drop_last().push(ended.last()) =~= ended);
    } else {
        assert(ended =~= seq![]);
    }
}

/// The wait for all tasks goes on as long as one runs, and hands out the results of all
/// that were left, in the order in which they ended.
pub proof fn all_that_are_left_are_handed_out<T>(v: JoinView<T>, ended: Seq<T>)
    requires
        ended.len() <= v.running,
    ensures
        ended.len() < v.running ==> after_joining(v, ended).1 == StepView::<T>::Join,
        ended.len() == v.running ==> after_joining(v, ended) == (
            v.with(0, seq![]),
            StepView::HandOut(ended),
        ),
{
    joining_keeps_count(v, ended);
}

// ---- any list of calls ----

/// A step of any of the calls.
pub enum TaskEvent<T> {
    /// On the way to start a task.
    Spawning(SpawnEvent<T>),
    /// On the way to wait for all tasks.
    Joining(JoinEvent<T>),
    /// A single task was waited for and its result handed out at once.
    Taken(T),
    /// A single task was waited for, but ended without a result.
    Lost,
}

impl<T> TaskEvent<T> {
    /// Whether a task has ended.
    pub open spec fn ends_task(self) -> bool {
        match self {
            TaskEvent::Spawning(event) => event.ends_task(),
            TaskEvent::Joining(event) => event.ends_task(),
            _ => true,
        }
    }

    /// Result of the task that has ended, if it has one.
    pub open spec fn result(self) -> Option<T> {
        match self {
            TaskEvent::Spawning(SpawnEvent::Collected(result)) => Some(result),
            TaskEvent::Spawning(SpawnEvent::Joined(result)) => Some(result),
            TaskEvent::Joining(JoinEvent::Joined(result)) => Some(result),
            TaskEvent::Taken(result) => Some(result),
            _ => None,
        }
    }

    /// Whether results that were collected are given up, unless there are none.
    pub open spec fn drops_results(self) -> bool {
        match self {
            TaskEvent::Spawning(event) => event is Begin || event is Failed,
            TaskEvent::Joining(event) => event is Begin || event is Failed,
            _ => false,
        }
    }
}

/// The tasks after a step, and what to do next.
pub open spec fn task_next<T>(v: JoinView<T>, event: TaskEvent<T>) -> (JoinView<T>, StepView<T>) {
    match event {
        TaskEvent::Spawning(event) => spawn_next(v, event),
        TaskEvent::Joining(event) => join_next_of(v, event),
        TaskEvent::Taken(result) => (
            v.with(v.running - 1, v.pending),
            StepView::HandOut(seq![result]),
        ),
        TaskEvent::Lost => (v.with(v.running - 1, v.pending), StepView::Abort),
    }
}

/// What a list of steps has led to.
pub struct TaskHistory<T> {
    pub tasks: JoinView<T>,
    /// Number of tasks that were started.
    pub started: nat,
    /// Number of tasks that have ended.
    pub ended: nat,
    /// Results of the tasks, in the order in which they ended.
    pub completed: Seq<T>,
    /// Results that were handed out, in this order.
    pub handed: Seq<T>,
    /// Where in the order of completion each result is that was handed out.
    pub handed_at: Seq<int>,
    /// Where in the order of completion each result is that waits to be handed out.
    pub pending_at: Seq<int>,
}

/// Nothing has been started.
pub open spec fn no_tasks<T>(max: nat) -> TaskHistory<T> {
    TaskHistory {
        tasks: JoinView { max, running: 0, pending: seq![] },
        started: 0,
        ended: 0,
        completed: seq![],
        handed: seq![],
        handed_at: seq![],
        pending_at: seq![],
    }
}

/// Where the results come from that wait to be handed out after a step, if this hands
/// out none.
pub open spec fn collected_at<T>(h: TaskHistory<T>, event: TaskEvent<T>) -> Seq<int> {
    if event.drops_results() {
        seq![]
    } else if event.result() is Some {
        h.pending_at.push(h.completed.len() as int)
    } else {
        h.pending_at
    }
}

/// What has come about after one more step.
pub open spec fn history_next<T>(h: TaskHistory<T>, event: TaskEvent<T>) -> TaskHistory<T> {
    let (tasks, action) = task_next(h.tasks, event);
    let at = collected_at(h, event);
    TaskHistory {
        tasks,
        started: if event is Spawning && action is HandOut {
            h.started + 1
        } else {
            h.started
        },
        ended: if event.ends_task() {
            h.ended + 1
        } else {
            h.ended
        },
        completed: match event.result() {
            Some(result) => h.completed.push(result),
            None => h.completed,
        },
        handed: match action {
            StepView::HandOut(results) => h.handed + results,
            _ => h.handed,
        },
        handed_at: if action is HandOut {
            h.handed_at + at
        } else {
            h.handed_at
        },
        pending_at: if action is HandOut {
            seq![]
        } else {
            at
        },
    }
}

/// Whether a step can follow: a task ends only while one runs, a task is started only
/// where one may run, and a single result is taken only between the other calls.
pub open spec fn can_follow<T>(h: TaskHistory<T>, event: TaskEvent<T>) -> bool {
    &&& event.ends_task() ==> h.tasks.running > 0
    &&& event is Spawning ==> h.tasks.max > 0
    &&& event is Taken ==> h.tasks.pending.len() == 0
}

/// What has come about after a list of steps.
pub open spec fn history<T>(max: nat, events: Seq<TaskEvent<T>>) -> TaskHistory<T>
    decreases events.len(),
{
    if events.len() == 0 {
        no_tasks(max)
    } else {
        history_next(history(max, events.drop_last()), events.last())
    }
}

/// Whether each of the steps can follow those before it.
pub open spec fn possible<T>(max: nat, events: Seq<TaskEvent<T>>) -> bool
    decreases events.len(),
{
    events.len() > 0 ==> possible(max, events.drop_last()) && can_follow(
        history(max, events.drop_last()),
        events.last(),
    )
}

/// Whether `results` are those that `completed` has at the places `at`.
pub open spec fn found_at<T>(results: Seq<T>, completed: Seq<T>, at: Seq<int>) -> bool {
    &&& results.len() == at.len()
    &&& forall|i: int|
        0 <= i < at.len() ==> 0 <= #[trigger] at[i] < completed.len() && results[i]
            == completed[at[i]]
}

/// Whether no place comes twice, and later ones are further on.
pub open spec fn in_order(at: Seq<int>) -> bool {
    forall|i: int, j: int| 0 <= i < j < at.len() ==> #[trigger] at[i] < #[trigger] at[j]
}

/// Whether a list of steps gives up results that were collected: a call was abandoned,
/// or a task ended without a result.
pub open spec fn gives_up_results<T>(max: nat, events: Seq<TaskEvent<T>>) -> bool
    decreases events.len(),
{
    events.len() > 0 && (gives_up_results(max, events.drop_last()) || (
    events.last().drops_results() && history(max, events.drop_last()).tasks.pending.len() > 0))
}

/// Whatever is called in whatever order: as many tasks run as were started and have not
/// ended, and never more than allowed; each result is handed out at most once, and all
/// of them in the order of completion; and unless some were given up, all of them have
/// been handed out but those that a call has yet to hand out.
#[verifier::rlimit(40)]
pub proof fn results_are_handed_out_once_in_order<T>(max: nat, events: Seq<TaskEvent<T>>)
    requires
        possible(max, events),
    ensures
        ({
            let h = history(max, events);
            &&& h.tasks.max == max
            &&& h.tasks.valid()
            &&& h.started == h.tasks.running + h.ended
            &&& found_at(h.handed, h.completed, h.handed_at)
            &&& found_at(h.tasks.pending, h.completed, h.pending_at)
            &&& in_order(h.handed_at + h.pending_at)
            &&& !gives_up_results(max, events) ==> h.handed + h.tasks.pending == h.completed
        }),
    decreases events.len(),
{
    if events.len() > 0 {
        let before = events.drop_last();
        let event = events.last();
        results_are_handed_out_once_in_order(max, before);
        let prior = history(max, before);
        let h = history(max, events);
        let at = collected_at(prior, event);
        let kept = prior.handed_at + prior.pending_at;
        let now = h.handed_at + h.pending_at;
        assert(now =~= prior.handed_at + at);
        assert forall|i: int, j: int| 0 <= i < j < now.len() implies #[trigger] now[i]
            < #[trigger] now[j] by {
            if j < kept.len() && !event.drops_results() {
                assert(now[i] == kept[i] && now[j] == kept[j]);
            } else if event.drops_results() {
                assert(now[i] == kept[i] && now[j] == kept[j]);
            } else {
                assert(now[i] == kept[i]);
                assert(now[j] == prior.completed.len());
                if i < prior.handed_at.len() {
                    assert(kept[i] == prior.handed_at[i]);
                } else {
                    assert(kept[i] == prior.pending_at[i - prior.handed_at.len()]);
                }
            }
        }
        if event.drops_results() && prior.tasks.pending.len() == 0 {
            assert(prior.tasks.pending =~= seq![]);
        }
        if !gives_up_results(max, events) {
            assert(h.handed + h.tasks.pending =~= h.completed);
        }
    }
}

/// Before a task is started, all that ended are looked for, one after the other. A task that
/// failed ends that, and what was collected is given up.
pub proof fn ended_tasks_are_looked_for_first<T>(v: JoinView<T>, result: T)
    requires
        v.running > 0,
    ensures
        spawn_next(v, SpawnEvent::Begin) == (
            JoinView { pending: Seq::<T>::empty(), ..v },
            StepView::<T>::TryJoin,
        ),
        spawn_next(v, SpawnEvent::Collected(result)).1 == StepView::<T>::TryJoin,
        spawn_next(v, SpawnEvent::Collected(result)).0.running == v.running - 1,
        spawn_next(v, SpawnEvent::Collected(result)).0.pending == v.pending.push(result),
        spawn_next(v, SpawnEvent::<T>::Failed).1 == StepView::<T>::Abort,
        join_next_of(v, JoinEvent::<T>::Failed).1 == StepView::<T>::Abort,
        spawn_next(v, SpawnEvent::<T>::Failed).0.running == v.running - 1,
        join_next_of(v, JoinEvent::<T>::Failed).0.running == v.running - 1,
        spawn_next(v, SpawnEvent::<T>::Failed).0.pending.len() == 0,
        join_next_of(v, JoinEvent::<T>::Failed).0.pending.len() == 0,
{
}

} // verus!
