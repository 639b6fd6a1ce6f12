use vstd::prelude::*;

use crate::error::FatalError;
use crate::event::{Event, EventQueue};
use crate::exec::{
    cells_view, EventFuture, ExecState, FrameFuture, FutureContext, Poll, ResourceCell,
    ResourceCellV, TextureLoadingFuture, TimerDelayFuture,
};
use crate::object::{Object, ObjectKind, ObjectV};
use crate::scene::{spec_can_get, GameObject, GameObjectRef, Scene};

verus! {

/// Handle to a scheduler slot, returned by `start_coroutine`. Slots are
/// never reused: a stopped or finished task leaves its slot permanently
/// empty.
#[derive(Clone, Copy, PartialEq, Eq, Structural, Debug)]
pub struct Coroutine {
    pub id: usize,
}

/// The join wait: resolves once the referenced task's scheduler slot is
/// empty, whether by natural completion or a forced stop. The running
/// task's own slot does not count as empty while it runs.
#[derive(Clone, Copy, PartialEq, Eq, Structural, Debug)]
pub struct WaitCoroutineFuture {
    pub coroutine: Coroutine,
}

/// One step of a task's resumable computation. A task is a list of steps
/// with a program counter; the non-wait steps are the "ordinary code"
/// between suspension points and run to completion within a tick, while
/// the wait steps poll a suspension-point primitive and yield when it is
/// pending.
///
/// The vocabulary deliberately has no step that spawns or stops another
/// task: tasks are spawned and stopped only by the host, between ticks,
/// so the rule that a task spawned during a tick is first polled on the
/// following tick holds by construction — the slot table never changes
/// while a tick runs.
#[derive(Clone, Copy, Debug)]
pub enum TaskStep {
    /// Cross the frame barrier: at most once per tick.
    NextFrame,
    /// Record every already-arrived event past the task's cursor, then
    /// complete at end-of-stream, or yield until more events arrive.
    DrainEvents,
    /// Wait for the host clock to pass a deadline.
    Delay(TimerDelayFuture),
    /// Wait on an asynchronous-load rendezvous cell and keep the bytes.
    LoadResource(TextureLoadingFuture),
    /// Wait until another task's scheduler slot is empty.
    Join(WaitCoroutineFuture),
    /// Acquire a bird object, set its velocity, release it.
    SetBirdVelocity { target: GameObject, vel_x: i64, vel_y: i64 },
    /// Acquire a marker-list object, append one marker, release it.
    PushMarker { target: GameObject, value: u64 },
    /// Shift every live obstacle left by `shift` and permanently delete
    /// those whose new position crossed below `threshold`.
    StepObstacles { shift: i64, threshold: i64 },
    /// Advance the task's private step counter by one.
    CountStep,
}

/// Mathematical model of a `Task`.
#[verifier::ext_equal]
pub struct TaskV {
    pub steps: Seq<TaskStep>,
    pub looped: bool,
    pub pc: nat,
    pub fc: FutureContext,
    pub counter: u64,
    pub observed: Seq<Event>,
    pub loaded: Seq<Seq<u8>>,
}

/// A suspended computation plus its execution context: the step list and
/// program counter, the task's event cursor and run flag, and the values
/// the computation has produced so far (its step counter, the events it
/// observed, the resources it loaded).
pub struct Task {
    steps: Vec<TaskStep>,
    looped: bool,
    pc: usize,
    fc: FutureContext,
    counter: u64,
    observed: Vec<Event>,
    loaded: Vec<Vec<u8>>,
}

impl View for Task {
    type V = TaskV;

    closed spec fn view(&self) -> TaskV {
        TaskV {
            steps: self.steps@,
            looped: self.looped,
            pc: self.pc as nat,
            fc: self.fc,
            counter: self.counter,
            observed: self.observed@,
            loaded: self.loaded@.map_values(|v: Vec<u8>| v@),
        }
    }
}

/// Model of a scheduler slot table.
pub open spec fn tasks_view(s: Seq<Option<Task>>) -> Seq<Option<TaskV>> {
    s.map_values(
        |t: Option<Task>|
            match t {
                Some(x) => Some(x@),
                None => None,
            },
    )
}

impl WaitCoroutineFuture {
    pub fn poll(&self, tasks: &Vec<Option<Task>>, current: usize) -> (r: Poll<()>)
        requires
            self.coroutine.id < tasks@.len(),
        ensures
            r is Ready <==> (self.coroutine.id != current
                && tasks_view(tasks@)[self.coroutine.id as int] is None),
    {
        if self.coroutine.id != current && tasks[self.coroutine.id].is_none() {
            Poll::Ready(())
        } else {
            Poll::Pending
        }
    }
}

/// `v` clamped to the representable range of an `i64`.
pub open spec fn clamp_i64(v: int) -> int {
    if v < i64::MIN as int {
        i64::MIN as int
    } else if v > i64::MAX as int {
        i64::MAX as int
    } else {
        v
    }
}

/// What `StepObstacles` does to a single slot: a live obstacle moves left
/// by `shift` (saturating at the coordinate range) and is permanently
/// deleted when its new position is below `threshold`; every other slot
/// is untouched.
pub open spec fn obstacle_slot_step(c: Option<ObjectV>, shift: i64, threshold: i64) -> Option<
    ObjectV,
> {
    match c {
        Some(ObjectV::Obstacle { x, y }) => {
            let nx = clamp_i64(x - shift);
            if nx < threshold {
                None
            } else {
                Some(ObjectV::Obstacle { x: nx as i64, y })
            }
        },
        _ => c,
    }
}

/// What `StepObstacles` does to the whole arena: `obstacle_slot_step` on
/// every slot, indices untouched.
pub open spec fn step_obstacles_spec(s: Seq<Option<ObjectV>>, shift: i64, threshold: i64) -> Seq<
    Option<ObjectV>,
> {
    Seq::new(s.len(), |i: int| obstacle_slot_step(s[i], shift, threshold))
}

/// The read-only surroundings of one task resumption: the event log, the
/// host clock, and the slot table with the running task's own slot
/// (`current`) taken out.
#[verifier::ext_equal]
pub struct RunEnv {
    pub events: Seq<Event>,
    pub closed: bool,
    pub time: u64,
    pub tasks: Seq<Option<TaskV>>,
    pub current: int,
}

/// The state one task resumption threads along: the arena, the rendezvous
/// cells, and the task itself.
#[verifier::ext_equal]
pub struct RunState {
    pub scene: Seq<Option<ObjectV>>,
    pub cells: Seq<ResourceCellV>,
    pub task: TaskV,
}

/// Outcome of executing the single step at the task's program counter.
pub enum StepResultV {
    /// The step completed; execution continues at the successor state.
    Stepped(RunState),
    /// The step's suspension point is pending; the task yields unchanged.
    Suspended,
    /// The step hit a fatal error; the state is unchanged.
    Failed(FatalError),
}

/// One step of the task machine: execute the step at `st.task.pc`
/// (which must be in range) against the environment `env`.
pub open spec fn step_spec(env: RunEnv, st: RunState) -> StepResultV
    recommends
        st.task.pc < st.task.steps.len(),
{
    let t = st.task;
    match t.steps[t.pc as int] {
        TaskStep::NextFrame => {
            if t.fc.state == ExecState::RunOnce {
                StepResultV::Stepped(
                    RunState {
                        task: TaskV {
                            pc: t.pc + 1,
                            fc: FutureContext { state: ExecState::Waiting, ..t.fc },
                            ..t
                        },
                        ..st
                    },
                )
            } else {
                StepResultV::Suspended
            }
        },
        TaskStep::DrainEvents => {
            let cur = t.fc.processed_events;
            if (cur as int) < env.events.len() {
                StepResultV::Stepped(
                    RunState {
                        task: TaskV {
                            observed: t.observed.push(env.events[cur as int]),
                            fc: FutureContext { processed_events: (cur + 1) as u32, ..t.fc },
                            ..t
                        },
                        ..st
                    },
                )
            } else if env.closed {
                StepResultV::Stepped(RunState { task: TaskV { pc: t.pc + 1, ..t }, ..st })
            } else {
                StepResultV::Suspended
            }
        },
        TaskStep::Delay(tf) => {
            if env.time >= tf.start_time + tf.time {
                StepResultV::Stepped(RunState { task: TaskV { pc: t.pc + 1, ..t }, ..st })
            } else {
                StepResultV::Suspended
            }
        },
        TaskStep::LoadResource(lf) => {
            if lf.cell as int >= st.cells.len() {
                StepResultV::Failed(FatalError::InvariantViolation)
            } else {
                match st.cells[lf.cell as int] {
                    ResourceCellV::Loaded(b) => StepResultV::Stepped(
                        RunState {
                            cells: st.cells.update(lf.cell as int, ResourceCellV::Empty),
                            task: TaskV { loaded: t.loaded.push(b), pc: t.pc + 1, ..t },
                            ..st
                        },
                    ),
                    ResourceCellV::Failed => StepResultV::Failed(FatalError::ResourceUnavailable),
                    ResourceCellV::Empty => StepResultV::Suspended,
                }
            }
        },
        TaskStep::Join(jf) => {
            let id = jf.coroutine.id as int;
            if id >= env.tasks.len() {
                StepResultV::Failed(FatalError::InvariantViolation)
            } else if id != env.current && env.tasks[id] is None {
                StepResultV::Stepped(RunState { task: TaskV { pc: t.pc + 1, ..t }, ..st })
            } else {
                StepResultV::Suspended
            }
        },
        TaskStep::SetBirdVelocity { target, vel_x, vel_y } => {
            let id = target.id as int;
            if id < st.scene.len() && target.kind == ObjectKind::Bird {
                match st.scene[id] {
                    Some(ObjectV::Bird { x, y, .. }) => StepResultV::Stepped(
                        RunState {
                            scene: st.scene.update(id, Some(ObjectV::Bird { x, y, vel_x, vel_y })),
                            task: TaskV { pc: t.pc + 1, ..t },
                            ..st
                        },
                    ),
                    _ => StepResultV::Failed(FatalError::InvariantViolation),
                }
            } else {
                StepResultV::Failed(FatalError::InvariantViolation)
            }
        },
        TaskStep::PushMarker { target, value } => {
            let id = target.id as int;
            if id < st.scene.len() && target.kind == ObjectKind::Markers {
                match st.scene[id] {
                    Some(ObjectV::Markers { values }) => StepResultV::Stepped(
                        RunState {
                            scene: st.scene.update(
                                id,
                                Some(ObjectV::Markers { values: values.push(value) }),
                            ),
                            task: TaskV { pc: t.pc + 1, ..t },
                            ..st
                        },
                    ),
                    _ => StepResultV::Failed(FatalError::InvariantViolation),
                }
            } else {
                StepResultV::Failed(FatalError::InvariantViolation)
            }
        },
        TaskStep::StepObstacles { shift, threshold } => StepResultV::Stepped(
            RunState {
                scene: step_obstacles_spec(st.scene, shift, threshold),
                task: TaskV { pc: t.pc + 1, ..t },
                ..st
            },
        ),
        TaskStep::CountStep => StepResultV::Stepped(
            RunState {
                task: TaskV {
                    counter: if t.counter == u64::MAX {
                        t.counter
                    } else {
                        (t.counter + 1) as u64
                    },
                    pc: t.pc + 1,
                    ..t
                },
                ..st
            },
        ),
    }
}

/// Outcome of resuming one task: it yielded at a pending suspension
/// point, it ran to natural completion, or it hit a fatal error. Each
/// carries the state reached.
pub enum RunOutcomeV {
    Suspended(RunState),
    Finished(RunState),
    Failed(FatalError, RunState),
}

/// Resume a task and run it until it yields, completes, fails, or
/// exhausts `fuel`. Fuel exhaustion means the task failed to reach a
/// pending suspension point within its per-tick budget — a violation of
/// the cooperative discipline, reported as fatal.
pub open spec fn run_spec(env: RunEnv, st: RunState, fuel: nat) -> RunOutcomeV
    decreases fuel,
{
    let t = st.task;
    if t.pc >= t.steps.len() {
        if t.looped && t.steps.len() > 0 {
            if fuel == 0 {
                RunOutcomeV::Failed(FatalError::InvariantViolation, st)
            } else {
                run_spec(env, RunState { task: TaskV { pc: 0, ..t }, ..st }, (fuel - 1) as nat)
            }
        } else {
            RunOutcomeV::Finished(st)
        }
    } else if fuel == 0 {
        RunOutcomeV::Failed(FatalError::InvariantViolation, st)
    } else {
        match step_spec(env, st) {
            StepResultV::Stepped(st2) => run_spec(env, st2, (fuel - 1) as nat),
            StepResultV::Suspended => RunOutcomeV::Suspended(st),
            StepResultV::Failed(e) => RunOutcomeV::Failed(e, st),
        }
    }
}

/// The per-resumption step budget: enough for two passes over the step
/// list plus one step per event still unconsumed by the task's cursor.
/// Any program whose loop crosses a frame barrier suspends within it.
pub open spec fn fuel_for(env: RunEnv, t: TaskV) -> nat {
    (2 * t.steps.len() + (if (t.fc.processed_events as int) < env.events.len() {
        env.events.len() - t.fc.processed_events
    } else {
        0
    }) + 3) as nat
}

/// A task as the scheduler resumes it: its run flag freshly set to
/// `RunOnce`, allowing one frame-barrier crossing.
pub open spec fn resumed(t: TaskV) -> TaskV {
    TaskV { fc: FutureContext { state: ExecState::RunOnce, ..t.fc }, ..t }
}

/// `a - b` saturated at the `i64` range.
fn sub_clamped(a: i64, b: i64) -> (r: i64)
    ensures
        r as int == clamp_i64(a - b),
{
    if b >= 0 {
        if a >= i64::MIN + b {
            a - b
        } else {
            i64::MIN
        }
    } else {
        if a <= i64::MAX + b {
            a - b
        } else {
            i64::MAX
        }
    }
}

/// Apply one obstacle step to every slot of the arena.
#[verifier::loop_isolation(false)]
fn step_obstacles(scene: &mut Scene, shift: i64, threshold: i64)
    ensures
        final(scene)@ == step_obstacles_spec(old(scene)@, shift, threshold),
{
    let ghost s0 = scene@;
    let n = scene.len();
    let mut i: usize = 0;
    while i < n
        invariant
            i <= n,
            scene@.len() == n,
            forall|j: int|
                0 <= j < i ==> scene@[j] == obstacle_slot_step(s0[j], shift, threshold),
            forall|j: int| i <= j < n ==> scene@[j] == s0[j],
        decreases n - i,
    {
        let is_obstacle = match scene.kind_at(i) {
            Some(ObjectKind::Obstacle) => true,
            _ => false,
        };
        if is_obstacle {
            let h = GameObject { id: i, kind: ObjectKind::Obstacle };
            let mut g = h.get(scene);
            let (ox, oy): (i64, i64) = match g.object() {
                Object::Obstacle { x, y } => (*x, *y),
                _ => {
                    proof {
                        assert(false);
                    }
                    (0, 0)
                },
            };
            let nx = sub_clamped(ox, shift);
            if nx < threshold {
                g.delete();
            } else {
                g.set_object(Object::Obstacle { x: nx, y: oy });
            }
            g.release(scene);
        }
        i = i + 1;
    }
    proof {
        assert(scene@ =~= step_obstacles_spec(s0, shift, threshold));
    }
}

/// Outcome tag of one executed step.
#[derive(Clone, Copy, PartialEq, Eq, Structural, Debug)]
enum StepStatus {
    Stepped,
    Suspended,
    Failed(FatalError),
}

/// Execute the single step at the task's program counter, mirroring
/// `step_spec` exactly.
fn exec_step(
    task: &mut Task,
    current: usize,
    scene: &mut Scene,
    cells: &mut Vec<ResourceCell>,
    events: &EventQueue,
    tasks: &Vec<Option<Task>>,
    time: u64,
) -> (r: StepStatus)
    requires
        events.wf(),
        old(task)@.pc < old(task)@.steps.len(),
    ensures
        ({
            let env = RunEnv {
                events: events@.events,
                closed: events@.closed,
                time,
                tasks: tasks_view(tasks@),
                current: current as int,
            };
            let pre = RunState {
                scene: old(scene)@,
                cells: cells_view(old(cells)@),
                task: old(task)@,
            };
            let post = RunState { scene: final(scene)@, cells: cells_view(final(cells)@), task: final(task)@ };
            match step_spec(env, pre) {
                StepResultV::Stepped(st2) => r == StepStatus::Stepped && post == st2,
                StepResultV::Suspended => r == StepStatus::Suspended && post == pre,
                StepResultV::Failed(e) => r == StepStatus::Failed(e) && post == pre,
            }
        }),
{
    let n = task.steps.len();
    assert(task.pc < n);
    let step = task.steps[task.pc];
    match step {
        TaskStep::NextFrame => {
            let ff = FrameFuture;
            match ff.poll(&mut task.fc) {
                Poll::Ready(_) => {
                    task.pc = task.pc + 1;
                    StepStatus::Stepped
                },
                Poll::Pending => StepStatus::Suspended,
            }
        },
        TaskStep::DrainEvents => {
            let ef = EventFuture;
            match ef.poll(&mut task.fc, events) {
                Poll::Ready(Some(e)) => {
                    task.observed.push(e);
                    StepStatus::Stepped
                },
                Poll::Ready(None) => {
                    task.pc = task.pc + 1;
                    StepStatus::Stepped
                },
                Poll::Pending => StepStatus::Suspended,
            }
        },
        TaskStep::Delay(tf) => {
            match tf.poll(time) {
                Poll::Ready(_) => {
                    task.pc = task.pc + 1;
                    StepStatus::Stepped
                },
                Poll::Pending => StepStatus::Suspended,
            }
        },
        TaskStep::LoadResource(lf) => {
            if lf.cell >= cells.len() {
                StepStatus::Failed(FatalError::InvariantViolation)
            } else {
                match lf.poll(cells) {
                    Poll::Ready(Ok(b)) => {
                        let ghost bv = b@;
                        task.loaded.push(b);
                        task.pc = task.pc + 1;
                        proof {
                            assert(task@.loaded =~= old(task)@.loaded.push(bv));
                        }
                        StepStatus::Stepped
                    },
                    Poll::Ready(Err(e)) => StepStatus::Failed(e),
                    Poll::Pending => StepStatus::Suspended,
                }
            }
        },
        TaskStep::Join(jf) => {
            if jf.coroutine.id >= tasks.len() {
                StepStatus::Failed(FatalError::InvariantViolation)
            } else {
                match jf.poll(tasks, current) {
                    Poll::Ready(_) => {
                        task.pc = task.pc + 1;
                        StepStatus::Stepped
                    },
                    Poll::Pending => StepStatus::Suspended,
                }
            }
        },
        TaskStep::SetBirdVelocity { target, vel_x, vel_y } => {
            let slot_is_bird = match scene.kind_at(target.id) {
                Some(ObjectKind::Bird) => true,
                _ => false,
            };
            if target.id < scene.len() && target.kind == ObjectKind::Bird && slot_is_bird {
                let mut g = target.get(scene);
                let (bx, by): (i64, i64) = match g.object() {
                    Object::Bird { x, y, .. } => (*x, *y),
                    _ => {
                        proof {
                            assert(false);
                        }
                        (0, 0)
                    },
                };
                g.set_object(Object::Bird { x: bx, y: by, vel_x, vel_y });
                g.release(scene);
                task.pc = task.pc + 1;
                proof {
                    assert(scene@ =~= old(scene)@.update(
                        target.id as int,
                        Some(ObjectV::Bird { x: bx, y: by, vel_x, vel_y }),
                    ));
                }
                StepStatus::Stepped
            } else {
                StepStatus::Failed(FatalError::InvariantViolation)
            }
        },
        TaskStep::PushMarker { target, value } => {
            let slot_is_markers = match scene.kind_at(target.id) {
                Some(ObjectKind::Markers) => true,
                _ => false,
            };
            if target.id < scene.len() && target.kind == ObjectKind::Markers && slot_is_markers {
                let mut g = target.get(scene);
                let prev = g.replace_object(Object::Markers { values: Vec::new() });
                let mut values = match prev {
                    Object::Markers { values } => values,
                    _ => {
                        proof {
                            assert(false);
                        }
                        Vec::new()
                    },
                };
                values.push(value);
                let ghost vv = values@;
                g.set_object(Object::Markers { values });
                g.release(scene);
                task.pc = task.pc + 1;
                proof {
                    assert(scene@ =~= old(scene)@.update(
                        target.id as int,
                        Some(ObjectV::Markers { values: vv }),
                    ));
                }
                StepStatus::Stepped
            } else {
                StepStatus::Failed(FatalError::InvariantViolation)
            }
        },
        TaskStep::StepObstacles { shift, threshold } => {
            step_obstacles(scene, shift, threshold);
            task.pc = task.pc + 1;
            StepStatus::Stepped
        },
        TaskStep::CountStep => {
            if task.counter < u64::MAX {
                task.counter = task.counter + 1;
            }
            task.pc = task.pc + 1;
            StepStatus::Stepped
        },
    }
}

/// Resume one suspended task and drive it until it yields at a pending
/// suspension point, completes, or fails; the exact mirror of `run_spec`
/// on the resumed task with its per-tick fuel budget. Returns `Ok(true)`
/// when the task ran to natural completion, `Ok(false)` when it stays
/// suspended.
#[verifier::loop_isolation(false)]
pub fn resume(
    task: &mut Task,
    current: usize,
    scene: &mut Scene,
    cells: &mut Vec<ResourceCell>,
    events: &EventQueue,
    tasks: &Vec<Option<Task>>,
    time: u64,
) -> (r: Result<bool, FatalError>)
    requires
        events.wf(),
    ensures
        ({
            let env = RunEnv {
                events: events@.events,
                closed: events@.closed,
                time,
                tasks: tasks_view(tasks@),
                current: current as int,
            };
            let st0 = RunState {
                scene: old(scene)@,
                cells: cells_view(old(cells)@),
                task: resumed(old(task)@),
            };
            let post = RunState {
                scene: final(scene)@,
                cells: cells_view(final(cells)@),
                task: final(task)@,
            };
            match run_spec(env, st0, fuel_for(env, resumed(old(task)@))) {
                RunOutcomeV::Suspended(st) => r == Ok::<bool, FatalError>(false) && post == st,
                RunOutcomeV::Finished(st) => r == Ok::<bool, FatalError>(true) && post == st,
                RunOutcomeV::Failed(e, st) => r == Err::<bool, FatalError>(e) && post == st,
            }
        }),
{
    let ghost env = RunEnv {
        events: events@.events,
        closed: events@.closed,
        time,
        tasks: tasks_view(tasks@),
        current: current as int,
    };
    task.fc.state = ExecState::RunOnce;
    proof {
        assert(task@ =~= resumed(old(task)@));
    }
    let ghost st0 = RunState { scene: scene@, cells: cells_view(cells@), task: task@ };
    let steps_len = task.steps.len();
    let ev_len = events.len();
    let cur = task.fc.processed_events;
    let pending: u128 = if (cur as usize) < ev_len {
        (ev_len - cur as usize) as u128
    } else {
        0
    };
    let mut fuel: u128 = 2 * (steps_len as u128) + pending + 3;
    let ghost fuel0 = fuel_for(env, st0.task);
    proof {
        assert(fuel as nat == fuel0);
    }
    loop
        invariant
            run_spec(
                env,
                RunState { scene: scene@, cells: cells_view(cells@), task: task@ },
                fuel as nat,
            ) == run_spec(env, st0, fuel0),
        decreases fuel,
    {
        if task.pc >= task.steps.len() {
            if task.looped && task.steps.len() > 0 {
                if fuel == 0 {
                    return Err(FatalError::InvariantViolation);
                }
                task.pc = 0;
                fuel = fuel - 1;
            } else {
                return Ok(true);
            }
        } else {
            if fuel == 0 {
                return Err(FatalError::InvariantViolation);
            }
            match exec_step(task, current, scene, cells, events, tasks, time) {
                StepStatus::Stepped => {
                    fuel = fuel - 1;
                },
                StepStatus::Suspended => {
                    return Ok(false);
                },
                StepStatus::Failed(e) => {
                    return Err(e);
                },
            }
        }
    }
}

/// Mathematical model of the whole `Context`.
#[verifier::ext_equal]
pub struct MachineV {
    pub scene: Seq<Option<ObjectV>>,
    pub events: Seq<Event>,
    pub events_closed: bool,
    pub cells: Seq<ResourceCellV>,
    pub time: u64,
    pub tasks: Seq<Option<TaskV>>,
}

/// The read-only surroundings of task `i`'s resumption within a tick:
/// the slot table with slot `i` taken out.
pub open spec fn run_env_of(w: MachineV, i: int) -> RunEnv {
    RunEnv {
        events: w.events,
        closed: w.events_closed,
        time: w.time,
        tasks: w.tasks.update(i, None),
        current: i,
    }
}

/// One tick from task index `i` on: poll every live task once, in slot
/// (= spawn) order; a task that completes leaves its slot empty, one that
/// fails aborts the tick with its fatal error.
pub open spec fn tick_from_spec(w: MachineV, i: nat) -> (MachineV, Option<FatalError>)
    decreases w.tasks.len() - i,
{
    if i >= w.tasks.len() {
        (w, None)
    } else {
        match w.tasks[i as int] {
            None => tick_from_spec(w, i + 1),
            Some(t) => {
                let env = run_env_of(w, i as int);
                let t1 = resumed(t);
                let st0 = RunState { scene: w.scene, cells: w.cells, task: t1 };
                match run_spec(env, st0, fuel_for(env, t1)) {
                    RunOutcomeV::Suspended(st) => tick_from_spec(
                        MachineV {
                            scene: st.scene,
                            cells: st.cells,
                            tasks: w.tasks.update(i as int, Some(st.task)),
                            ..w
                        },
                        i + 1,
                    ),
                    RunOutcomeV::Finished(st) => tick_from_spec(
                        MachineV {
                            scene: st.scene,
                            cells: st.cells,
                            tasks: w.tasks.update(i as int, None),
                            ..w
                        },
                        i + 1,
                    ),
                    RunOutcomeV::Failed(e, st) => (
                        MachineV {
                            scene: st.scene,
                            cells: st.cells,
                            tasks: w.tasks.update(i as int, Some(st.task)),
                            ..w
                        },
                        Some(e),
                    ),
                }
            },
        }
    }
}

/// One whole tick over the machine.
pub open spec fn tick_spec(w: MachineV) -> (MachineV, Option<FatalError>) {
    tick_from_spec(w, 0)
}

/// The one context object of the core, constructed once at process start
/// and threaded explicitly through everything: the object arena, the
/// input event log, the asynchronous-load rendezvous cells, the host
/// clock sample, and the scheduler's slot table of live tasks.
pub struct Context {
    /// The shared object arena. Verified callers reach it through the
    /// `*_object` methods, whose contracts speak of the machine view;
    /// unverified host code may also use this field directly.
    pub scene: Scene,
    events: EventQueue,
    cells: Vec<ResourceCell>,
    time: u64,
    tasks: Vec<Option<Task>>,
}

impl View for Context {
    type V = MachineV;

    closed spec fn view(&self) -> MachineV {
        MachineV {
            scene: self.scene@,
            events: self.events@.events,
            events_closed: self.events@.closed,
            cells: cells_view(self.cells@),
            time: self.time,
            tasks: tasks_view(self.tasks@),
        }
    }
}

impl Context {
    /// Task cursors are `u32` counters, so the event log never outgrows
    /// them.
    pub open spec fn wf(self) -> bool {
        self@.events.len() <= u32::MAX
    }

    /// A fresh context: empty arena, empty open event log, no cells, no
    /// tasks, clock at zero.
    pub fn new() -> (c: Context)
        ensures
            c@.scene == Seq::<Option<ObjectV>>::empty(),
            c@.events == Seq::<Event>::empty(),
            !c@.events_closed,
            c@.cells == Seq::<ResourceCellV>::empty(),
            c@.time == 0,
            c@.tasks == Seq::<Option<TaskV>>::empty(),
            c.wf(),
    {
        let c = Context {
            scene: Scene::new(),
            events: EventQueue::new(),
            cells: Vec::new(),
            time: 0,
            tasks: Vec::new(),
        };
        proof {
            assert(c@.cells =~= Seq::<ResourceCellV>::empty());
            assert(c@.tasks =~= Seq::<Option<TaskV>>::empty());
        }
        c
    }

    /// Register a new suspended computation in a fresh scheduler slot; it
    /// is first polled on the next tick. The computation is the given
    /// step list, run once, or over and over when `looped`. Spawning (and
    /// stopping) happens only here, between ticks: no task step does
    /// either, so a computation spawned during a tick cannot exist.
    pub fn start_coroutine(&mut self, steps: Vec<TaskStep>, looped: bool) -> (c: Coroutine)
        ensures
            c.id as int == old(self)@.tasks.len(),
            final(self)@ == (MachineV {
                tasks: old(self)@.tasks.push(
                    Some(
                        TaskV {
                            steps: steps@,
                            looped,
                            pc: 0,
                            fc: FutureContext {
                                processed_events: 0,
                                state: ExecState::RunOnce,
                            },
                            counter: 0,
                            observed: Seq::empty(),
                            loaded: Seq::empty(),
                        },
                    ),
                ),
                ..old(self)@
            }),
            old(self).wf() ==> final(self).wf(),
    {
        let id = self.tasks.len();
        let task = Task {
            steps,
            looped,
            pc: 0,
            fc: FutureContext { processed_events: 0, state: ExecState::RunOnce },
            counter: 0,
            observed: Vec::new(),
            loaded: Vec::new(),
        };
        let ghost tv = task@;
        self.tasks.push(Some(task));
        proof {
            assert(tv =~~= TaskV {
                steps: steps@,
                looped,
                pc: 0,
                fc: FutureContext { processed_events: 0, state: ExecState::RunOnce },
                counter: 0,
                observed: Seq::empty(),
                loaded: Seq::empty(),
            });
            assert(self@ =~~= MachineV {
                tasks: old(self)@.tasks.push(Some(tv)),
                ..old(self)@
            });
        }
        Coroutine { id }
    }

    /// Forcibly discard a task: its slot becomes permanently empty and
    /// its remaining computation never runs.
    pub fn stop(&mut self, c: Coroutine)
        requires
            (c.id as int) < old(self)@.tasks.len(),
        ensures
            final(self)@ == (MachineV {
                tasks: old(self)@.tasks.update(c.id as int, None),
                ..old(self)@
            }),
            old(self).wf() ==> final(self).wf(),
    {
        let mut slot: Option<Task> = None;
        core::mem::swap(&mut slot, &mut self.tasks[c.id]);
        proof {
            assert(self@ =~= MachineV {
                tasks: old(self)@.tasks.update(c.id as int, None),
                ..old(self)@
            });
        }
    }

    /// Whether the task's scheduler slot still holds a suspended
    /// computation.
    pub fn is_live(&self, c: Coroutine) -> (b: bool)
        ensures
            b == ((c.id as int) < self@.tasks.len() && self@.tasks[c.id as int] is Some),
    {
        c.id < self.tasks.len() && self.tasks[c.id].is_some()
    }

    /// Set every live task's run flag to `RunOnce` and poll each exactly
    /// once, in spawn order. Within the tick, effects of a task polled
    /// earlier are visible to tasks polled later through the arena. A
    /// completed task's slot is emptied; a fatal error aborts the tick
    /// and is returned.
    #[verifier::loop_isolation(false)]
    pub fn tick(&mut self) -> (r: Result<(), FatalError>)
        requires
            old(self).wf(),
        ensures
            final(self).wf(),
            final(self)@ == tick_spec(old(self)@).0,
            r == match tick_spec(old(self)@).1 {
                None => Ok::<(), FatalError>(()),
                Some(e) => Err::<(), FatalError>(e),
            },
    {
        let ghost w0 = self@;
        let n = self.tasks.len();
        let mut i: usize = 0;
        while i < n
            invariant
                i <= n,
                self@.tasks.len() == n,
                self@.events == w0.events,
                self@.events_closed == w0.events_closed,
                self@.time == w0.time,
                self.events.wf(),
                tick_from_spec(w0, 0) == tick_from_spec(self@, i as nat),
            decreases n - i,
        {
            let ghost wp = self@;
            if self.tasks[i].is_some() {
                let mut slot: Option<Task> = None;
                core::mem::swap(&mut slot, &mut self.tasks[i]);
                let mut t = slot.unwrap();
                proof {
                    assert(self@.tasks =~= wp.tasks.update(i as int, None));
                    assert(wp.tasks[i as int] == Some(t@));
                }
                let r = resume(
                    &mut t,
                    i,
                    &mut self.scene,
                    &mut self.cells,
                    &self.events,
                    &self.tasks,
                    self.time,
                );
                proof {
                    assert(RunEnv {
                        events: self.events@.events,
                        closed: self.events@.closed,
                        time: self.time,
                        tasks: tasks_view(self.tasks@),
                        current: i as int,
                    } =~= run_env_of(wp, i as int));
                }
                match r {
                    Ok(done) => {
                        if !done {
                            let mut back: Option<Task> = Some(t);
                            core::mem::swap(&mut back, &mut self.tasks[i]);
                            proof {
                                assert(self@.tasks =~= wp.tasks.update(i as int, Some(t@)));
                                assert(tick_from_spec(wp, i as nat) == tick_from_spec(
                                    self@,
                                    (i + 1) as nat,
                                ));
                            }
                        } else {
                            proof {
                                assert(self@.tasks =~= wp.tasks.update(i as int, None));
                                assert(tick_from_spec(wp, i as nat) == tick_from_spec(
                                    self@,
                                    (i + 1) as nat,
                                ));
                            }
                        }
                    },
                    Err(e) => {
                        let mut back: Option<Task> = Some(t);
                        core::mem::swap(&mut back, &mut self.tasks[i]);
                        proof {
                            assert(self@.tasks =~= wp.tasks.update(i as int, Some(t@)));
                            assert(tick_from_spec(wp, i as nat) == (self@, Some(e)));
                        }
                        return Err(e);
                    },
                }
            }
            i = i + 1;
        }
        Ok(())
    }
}

impl Context {
    /// Queue one input event, as delivered by the host's input
    /// collaborator, before the tick that should observe it.
    pub fn push_event(&mut self, e: Event)
        requires
            !old(self)@.events_closed,
            old(self)@.events.len() < u32::MAX,
        ensures
            final(self)@ == (MachineV { events: old(self)@.events.push(e), ..old(self)@ }),
            final(self).wf(),
    {
        self.events.push(e);
        proof {
            assert(self@ =~~= MachineV { events: old(self)@.events.push(e), ..old(self)@ });
        }
    }

    /// Terminate the event stream for this generation: tasks draining the
    /// queue now observe end-of-stream once they pass the last event.
    pub fn close_events(&mut self)
        ensures
            final(self)@ == (MachineV { events_closed: true, ..old(self)@ }),
            old(self).wf() ==> final(self).wf(),
    {
        self.events.close();
        proof {
            assert(self@ =~~= MachineV { events_closed: true, ..old(self)@ });
        }
    }

    /// Advance the host clock sample; timer waits compare against it once
    /// per tick.
    pub fn set_time(&mut self, now: u64)
        requires
            now >= old(self)@.time,
        ensures
            final(self)@ == (MachineV { time: now, ..old(self)@ }),
            old(self).wf() ==> final(self).wf(),
    {
        self.time = now;
        proof {
            assert(self@ =~~= MachineV { time: now, ..old(self)@ });
        }
    }

    /// Create a fresh, empty rendezvous cell for an asynchronous load and
    /// return its index.
    pub fn create_resource(&mut self) -> (id: usize)
        ensures
            id as int == old(self)@.cells.len(),
            final(self)@ == (MachineV {
                cells: old(self)@.cells.push(ResourceCellV::Empty),
                ..old(self)@
            }),
            old(self).wf() ==> final(self).wf(),
    {
        let id = self.cells.len();
        self.cells.push(ResourceCell::Empty);
        proof {
            assert(self@ =~~= MachineV {
                cells: old(self)@.cells.push(ResourceCellV::Empty),
                ..old(self)@
            });
        }
        id
    }

    /// Deliver the raw bytes of a completed asynchronous load into its
    /// rendezvous cell; the host's callback calls this at an arbitrary
    /// future tick.
    pub fn deliver_resource(&mut self, id: usize, bytes: Vec<u8>)
        requires
            (id as int) < old(self)@.cells.len(),
        ensures
            final(self)@ == (MachineV {
                cells: old(self)@.cells.update(id as int, ResourceCellV::Loaded(bytes@)),
                ..old(self)@
            }),
            old(self).wf() ==> final(self).wf(),
    {
        let ghost bv = bytes@;
        let mut cell = ResourceCell::Loaded(bytes);
        core::mem::swap(&mut cell, &mut self.cells[id]);
        proof {
            assert(self@ =~~= MachineV {
                cells: old(self)@.cells.update(id as int, ResourceCellV::Loaded(bv)),
                ..old(self)@
            });
        }
    }

    /// Record that an asynchronous load failed; a task waiting on the
    /// cell then fails fatally with `ResourceUnavailable`.
    pub fn fail_resource(&mut self, id: usize)
        requires
            (id as int) < old(self)@.cells.len(),
        ensures
            final(self)@ == (MachineV {
                cells: old(self)@.cells.update(id as int, ResourceCellV::Failed),
                ..old(self)@
            }),
            old(self).wf() ==> final(self).wf(),
    {
        let mut cell = ResourceCell::Failed;
        core::mem::swap(&mut cell, &mut self.cells[id]);
        proof {
            assert(self@ =~~= MachineV {
                cells: old(self)@.cells.update(id as int, ResourceCellV::Failed),
                ..old(self)@
            });
        }
    }

    /// Insert an object into a fresh arena slot and return its handle:
    /// `GameObject::new` on the shared arena, with its effect stated on
    /// the machine view for verified callers.
    pub fn new_object(&mut self, data: Object) -> (h: GameObject)
        ensures
            h.id as int == old(self)@.scene.len(),
            h.kind == data@.kind(),
            final(self)@ == (MachineV {
                scene: old(self)@.scene.push(Some(data@)),
                ..old(self)@
            }),
            old(self).wf() ==> final(self).wf(),
    {
        let h = GameObject::new(&mut self.scene, data);
        proof {
            assert(self@ =~~= MachineV {
                scene: old(self)@.scene.push(Some(data@)),
                ..old(self)@
            });
        }
        h
    }

    /// Acquire exclusive access to an arena object through the context:
    /// `GameObject::get` on the shared arena, with its effect stated on
    /// the machine view for verified callers.
    pub fn get_object(&mut self, h: GameObject) -> (g: GameObjectRef)
        requires
            spec_can_get(old(self)@.scene, h.id as int, h.kind),
        ensures
            g.id_spec() == h.id as int,
            !g.deleted_spec(),
            Some(g.object_view()) == old(self)@.scene[h.id as int],
            final(self)@ == (MachineV {
                scene: old(self)@.scene.update(h.id as int, None),
                ..old(self)@
            }),
            old(self).wf() ==> final(self).wf(),
    {
        let g = h.get(&mut self.scene);
        proof {
            assert(self@ =~~= MachineV {
                scene: old(self)@.scene.update(h.id as int, None),
                ..old(self)@
            });
        }
        g
    }

    /// Acquire like `get_object`, but report the invariant violation as a
    /// value: `Err(InvariantViolation)` exactly when the slot is empty or
    /// holds a different kind, in which case the machine is unchanged.
    pub fn try_get_object(&mut self, h: GameObject) -> (r: Result<GameObjectRef, FatalError>)
        ensures
            match r {
                Ok(g) => {
                    &&& spec_can_get(old(self)@.scene, h.id as int, h.kind)
                    &&& g.id_spec() == h.id as int
                    &&& !g.deleted_spec()
                    &&& Some(g.object_view()) == old(self)@.scene[h.id as int]
                    &&& final(self)@ == (MachineV {
                        scene: old(self)@.scene.update(h.id as int, None),
                        ..old(self)@
                    })
                },
                Err(e) => {
                    &&& e == FatalError::InvariantViolation
                    &&& !spec_can_get(old(self)@.scene, h.id as int, h.kind)
                    &&& final(self)@ == old(self)@
                },
            },
            old(self).wf() ==> final(self).wf(),
    {
        let r = h.try_get(&mut self.scene);
        proof {
            if r is Ok {
                assert(self@ =~~= MachineV {
                    scene: old(self)@.scene.update(h.id as int, None),
                    ..old(self)@
                });
            } else {
                assert(self@ =~~= old(self)@);
            }
        }
        r
    }

    /// End a borrow taken through `get_object`: write the object back, or
    /// leave the slot permanently empty if the guard was marked deleted.
    pub fn release_object(&mut self, g: GameObjectRef)
        requires
            !g.deleted_spec() ==> {
                &&& 0 <= g.id_spec() < old(self)@.scene.len()
                &&& old(self)@.scene[g.id_spec()] is None
            },
        ensures
            g.deleted_spec() ==> final(self)@ == old(self)@,
            !g.deleted_spec() ==> final(self)@ == (MachineV {
                scene: old(self)@.scene.update(g.id_spec(), Some(g.object_view())),
                ..old(self)@
            }),
            old(self).wf() ==> final(self).wf(),
    {
        let ghost deleted = g.deleted_spec();
        let ghost id = g.id_spec();
        let ghost v = g.object_view();
        g.release(&mut self.scene);
        proof {
            if deleted {
                assert(self@ =~~= old(self)@);
            } else {
                assert(self@ =~~= MachineV {
                    scene: old(self)@.scene.update(id, Some(v)),
                    ..old(self)@
                });
            }
        }
    }

    /// Number of events logged so far.
    pub fn event_log_len(&self) -> (n: usize)
        ensures
            n == self@.events.len(),
    {
        self.events.len()
    }

    /// Whether the event stream has been terminated.
    pub fn events_closed(&self) -> (b: bool)
        ensures
            b == self@.events_closed,
    {
        self.events.is_closed()
    }

    /// The private step counter of a live task.
    pub fn counter_of(&self, c: Coroutine) -> (r: Option<u64>)
        ensures
            match r {
                Some(v) => {
                    &&& (c.id as int) < self@.tasks.len()
                    &&& self@.tasks[c.id as int] is Some
                    &&& v == self@.tasks[c.id as int]->0.counter
                },
                None => !((c.id as int) < self@.tasks.len() && self@.tasks[c.id as int] is Some),
            },
    {
        if c.id < self.tasks.len() {
            match &self.tasks[c.id] {
                Some(t) => Some(t.counter),
                None => None,
            }
        } else {
            None
        }
    }

    /// The events a live task has observed so far, in arrival order.
    pub fn observed_of(&self, c: Coroutine) -> (r: Option<Vec<Event>>)
        ensures
            match r {
                Some(v) => {
                    &&& (c.id as int) < self@.tasks.len()
                    &&& self@.tasks[c.id as int] is Some
                    &&& v@ == self@.tasks[c.id as int]->0.observed
                },
                None => !((c.id as int) < self@.tasks.len() && self@.tasks[c.id as int] is Some),
            },
    {
        if c.id < self.tasks.len() {
            match &self.tasks[c.id] {
                Some(t) => {
                    let mut v: Vec<Event> = Vec::new();
                    let m = t.observed.len();
                    let mut j: usize = 0;
                    while j < m
                        invariant
                            j <= m,
                            m == t.observed@.len(),
                            v@ == t.observed@.take(j as int),
                        decreases m - j,
                    {
                        v.push(t.observed[j]);
                        proof {
                            assert(v@ =~= t.observed@.take(j as int + 1));
                        }
                        j = j + 1;
                    }
                    proof {
                        assert(t.observed@.take(m as int) =~= t.observed@);
                    }
                    Some(v)
                },
                None => None,
            }
        } else {
            None
        }
    }

    /// How many asynchronous loads a live task has completed.
    pub fn loaded_count_of(&self, c: Coroutine) -> (r: Option<usize>)
        ensures
            match r {
                Some(v) => {
                    &&& (c.id as int) < self@.tasks.len()
                    &&& self@.tasks[c.id as int] is Some
                    &&& v as int == self@.tasks[c.id as int]->0.loaded.len()
                },
                None => !((c.id as int) < self@.tasks.len() && self@.tasks[c.id as int] is Some),
            },
    {
        if c.id < self.tasks.len() {
            match &self.tasks[c.id] {
                Some(t) => Some(t.loaded.len()),
                None => None,
            }
        } else {
            None
        }
    }

    /// One block of bytes a live task loaded, by completion order.
    pub fn loaded_of(&self, c: Coroutine, j: usize) -> (r: Option<Vec<u8>>)
        ensures
            match r {
                Some(v) => {
                    &&& (c.id as int) < self@.tasks.len()
                    &&& self@.tasks[c.id as int] is Some
                    &&& (j as int) < self@.tasks[c.id as int]->0.loaded.len()
                    &&& v@ == self@.tasks[c.id as int]->0.loaded[j as int]
                },
                None => !((c.id as int) < self@.tasks.len() && self@.tasks[c.id as int] is Some
                    && (j as int) < self@.tasks[c.id as int]->0.loaded.len()),
            },
    {
        if c.id < self.tasks.len() {
            match &self.tasks[c.id] {
                Some(t) => {
                    if j < t.loaded.len() {
                        let src = &t.loaded[j];
                        let mut v: Vec<u8> = Vec::new();
                        let m = src.len();
                        let mut k: usize = 0;
                        while k < m
                            invariant
                                k <= m,
                                m == src@.len(),
                                v@ == src@.take(k as int),
                            decreases m - k,
                        {
                            v.push(src[k]);
                            proof {
                                assert(v@ =~= src@.take(k as int + 1));
                            }
                            k = k + 1;
                        }
                        proof {
                            assert(src@.take(m as int) =~= src@);
                        }
                        Some(v)
                    } else {
                        None
                    }
                },
                None => None,
            }
        } else {
            None
        }
    }
}

/// A task's observations are exactly the prefix of the event log up to
/// its private cursor: it has seen every event that arrived before the
/// cursor, once each, in arrival order.
pub open spec fn observes_prefix(t: TaskV, events: Seq<Event>) -> bool {
    &&& t.fc.processed_events as int <= events.len()
    &&& t.observed == events.take(t.fc.processed_events as int)
}

/// `observes_prefix` for every live task of a slot table.
pub open spec fn all_observe_prefix(tasks: Seq<Option<TaskV>>, events: Seq<Event>) -> bool {
    forall|j: int|
        0 <= j < tasks.len() && #[trigger] tasks[j] is Some ==> observes_prefix(
            tasks[j]->0,
            events,
        )
}

proof fn lemma_step_preserves_observation(env: RunEnv, st: RunState)
    requires
        st.task.pc < st.task.steps.len(),
        env.events.len() <= u32::MAX,
        observes_prefix(st.task, env.events),
    ensures
        match step_spec(env, st) {
            StepResultV::Stepped(st2) => observes_prefix(st2.task, env.events),
            StepResultV::Suspended => true,
            StepResultV::Failed(e) => true,
        },
{
    let t = st.task;
    match t.steps[t.pc as int] {
        TaskStep::DrainEvents => {
            let cur = t.fc.processed_events as int;
            if cur < env.events.len() {
                assert(env.events.take(cur + 1) =~= env.events.take(cur).push(env.events[cur]));
            }
        },
        _ => {},
    }
}

proof fn lemma_run_preserves_observation(env: RunEnv, st: RunState, fuel: nat)
    requires
        env.events.len() <= u32::MAX,
        observes_prefix(st.task, env.events),
    ensures
        match run_spec(env, st, fuel) {
            RunOutcomeV::Suspended(st2) => observes_prefix(st2.task, env.events),
            RunOutcomeV::Finished(st2) => observes_prefix(st2.task, env.events),
            RunOutcomeV::Failed(e, st2) => observes_prefix(st2.task, env.events),
        },
    decreases fuel,
{
    let t = st.task;
    if t.pc >= t.steps.len() {
        if t.looped && t.steps.len() > 0 && fuel > 0 {
            lemma_run_preserves_observation(
                env,
                RunState { task: TaskV { pc: 0, ..t }, ..st },
                (fuel - 1) as nat,
            );
        }
    } else if fuel > 0 {
        lemma_step_preserves_observation(env, st);
        match step_spec(env, st) {
            StepResultV::Stepped(st2) => {
                lemma_run_preserves_observation(env, st2, (fuel - 1) as nat);
            },
            _ => {},
        }
    }
}

proof fn lemma_tick_from_preserves_observation(w: MachineV, i: nat)
    requires
        w.events.len() <= u32::MAX,
        all_observe_prefix(w.tasks, w.events),
    ensures
        ({
            let (w2, e) = tick_from_spec(w, i);
            &&& w2.events == w.events
            &&& w2.events_closed == w.events_closed
            &&& w2.time == w.time
            &&& w2.tasks.len() == w.tasks.len()
            &&& all_observe_prefix(w2.tasks, w2.events)
        }),
    decreases w.tasks.len() - i,
{
    if i >= w.tasks.len() {
    } else {
        match w.tasks[i as int] {
            None => {
                lemma_tick_from_preserves_observation(w, i + 1);
            },
            Some(t) => {
                let env = run_env_of(w, i as int);
                let t1 = resumed(t);
                let st0 = RunState { scene: w.scene, cells: w.cells, task: t1 };
                assert(observes_prefix(t1, env.events));
                lemma_run_preserves_observation(env, st0, fuel_for(env, t1));
                match run_spec(env, st0, fuel_for(env, t1)) {
                    RunOutcomeV::Suspended(st) => {
                        let w1 = MachineV {
                            scene: st.scene,
                            cells: st.cells,
                            tasks: w.tasks.update(i as int, Some(st.task)),
                            ..w
                        };
                        assert(all_observe_prefix(w1.tasks, w1.events));
                        lemma_tick_from_preserves_observation(w1, i + 1);
                    },
                    RunOutcomeV::Finished(st) => {
                        let w1 = MachineV {
                            scene: st.scene,
                            cells: st.cells,
                            tasks: w.tasks.update(i as int, None),
                            ..w
                        };
                        assert(all_observe_prefix(w1.tasks, w1.events));
                        lemma_tick_from_preserves_observation(w1, i + 1);
                    },
                    RunOutcomeV::Failed(e, st) => {
                        let w1 = MachineV {
                            scene: st.scene,
                            cells: st.cells,
                            tasks: w.tasks.update(i as int, Some(st.task)),
                            ..w
                        };
                        assert(all_observe_prefix(w1.tasks, w1.events));
                    },
                }
            },
        }
    }
}

/// Law: every task observes every event exactly once, in arrival order,
/// independently of the other tasks' pace. If each live task's observed
/// sequence is the prefix of the event log up to its private cursor,
/// then after a tick — which never changes the log itself — that still
/// holds of every live task.
pub proof fn lemma_tick_preserves_observation(w: MachineV)
    requires
        w.events.len() <= u32::MAX,
        all_observe_prefix(w.tasks, w.events),
    ensures
        tick_spec(w).0.events == w.events,
        all_observe_prefix(tick_spec(w).0.tasks, tick_spec(w).0.events),
{
    lemma_tick_from_preserves_observation(w, 0);
}

/// Law: appending an event to the log does not disturb what any task has
/// already observed: each observed sequence is still the prefix up to
/// that task's cursor.
pub proof fn lemma_push_event_preserves_observation(
    tasks: Seq<Option<TaskV>>,
    events: Seq<Event>,
    e: Event,
)
    requires
        all_observe_prefix(tasks, events),
    ensures
        all_observe_prefix(tasks, events.push(e)),
{
    assert forall|j: int| 0 <= j < tasks.len() && #[trigger] tasks[j] is Some implies observes_prefix(
        tasks[j]->0,
        events.push(e),
    ) by {
        let t = tasks[j]->0;
        assert(observes_prefix(t, events));
        assert(events.push(e).take(t.fc.processed_events as int) =~= events.take(
            t.fc.processed_events as int,
        ));
    }
}

/// A freshly spawned task, its cursor at zero and nothing observed,
/// trivially observes the (empty) prefix of any event log — so spawning
/// preserves `all_observe_prefix`.
pub proof fn lemma_fresh_task_observes_prefix(
    steps: Seq<TaskStep>,
    looped: bool,
    events: Seq<Event>,
)
    ensures
        observes_prefix(
            TaskV {
                steps,
                looped,
                pc: 0,
                fc: FutureContext { processed_events: 0, state: ExecState::RunOnce },
                counter: 0,
                observed: Seq::empty(),
                loaded: Seq::empty(),
            },
            events,
        ),
{
    assert(events.take(0) =~= Seq::<Event>::empty());
}

/// Law: a task crosses at most one frame barrier per tick. Within a
/// single resumption the run flag never returns to `RunOnce`: once it is
/// `Waiting` — as the first frame-barrier crossing leaves it — every
/// later frame barrier polled in the same tick reports pending, and the
/// task reaches the next tick still `Waiting`.
pub proof fn lemma_run_state_stays_waiting(env: RunEnv, st: RunState, fuel: nat)
    requires
        st.task.fc.state == ExecState::Waiting,
    ensures
        match run_spec(env, st, fuel) {
            RunOutcomeV::Suspended(st2) => st2.task.fc.state == ExecState::Waiting,
            RunOutcomeV::Finished(st2) => st2.task.fc.state == ExecState::Waiting,
            RunOutcomeV::Failed(e, st2) => st2.task.fc.state == ExecState::Waiting,
        },
    decreases fuel,
{
    let t = st.task;
    if t.pc >= t.steps.len() {
        if t.looped && t.steps.len() > 0 && fuel > 0 {
            lemma_run_state_stays_waiting(
                env,
                RunState { task: TaskV { pc: 0, ..t }, ..st },
                (fuel - 1) as nat,
            );
        }
    } else if fuel > 0 {
        match step_spec(env, st) {
            StepResultV::Stepped(st2) => {
                lemma_run_state_stays_waiting(env, st2, (fuel - 1) as nat);
            },
            _ => {},
        }
    }
}

/// How many frame barriers a resumption crosses: the number of executed
/// `NextFrame` steps along `run_spec`'s path through the task.
pub open spec fn run_crossings(env: RunEnv, st: RunState, fuel: nat) -> nat
    decreases fuel,
{
    let t = st.task;
    if t.pc >= t.steps.len() {
        if t.looped && t.steps.len() > 0 {
            if fuel == 0 {
                0
            } else {
                run_crossings(env, RunState { task: TaskV { pc: 0, ..t }, ..st }, (fuel - 1) as nat)
            }
        } else {
            0
        }
    } else if fuel == 0 {
        0
    } else {
        match step_spec(env, st) {
            StepResultV::Stepped(st2) => ((if t.steps[t.pc as int] is NextFrame {
                1int
            } else {
                0int
            }) + run_crossings(env, st2, (fuel - 1) as nat)) as nat,
            StepResultV::Suspended => 0,
            StepResultV::Failed(e) => 0,
        }
    }
}

/// Law: a task crosses at most one frame barrier per resumption — and
/// none at all once its run flag is already spent. Only the frame
/// barrier reads or spends the flag; every other step leaves it alone.
pub proof fn lemma_at_most_one_crossing(env: RunEnv, st: RunState, fuel: nat)
    ensures
        run_crossings(env, st, fuel) <= 1,
        st.task.fc.state == ExecState::Waiting ==> run_crossings(env, st, fuel) == 0,
    decreases fuel,
{
    let t = st.task;
    if t.pc >= t.steps.len() {
        if t.looped && t.steps.len() > 0 && fuel > 0 {
            lemma_at_most_one_crossing(
                env,
                RunState { task: TaskV { pc: 0, ..t }, ..st },
                (fuel - 1) as nat,
            );
        }
    } else if fuel > 0 {
        match step_spec(env, st) {
            StepResultV::Stepped(st2) => {
                lemma_at_most_one_crossing(env, st2, (fuel - 1) as nat);
                if t.steps[t.pc as int] is NextFrame {
                    assert(st2.task.fc.state == ExecState::Waiting);
                } else {
                    assert(st2.task.fc.state == t.fc.state);
                }
            },
            _ => {},
        }
    }
}

/// The program of a task that loops over { cross the frame barrier;
/// advance the private counter }.
pub open spec fn frame_counter_program() -> Seq<TaskStep> {
    seq![TaskStep::NextFrame, TaskStep::CountStep]
}

/// A task suspended at the head of the frame-counter loop.
pub open spec fn is_frame_counter_task(t: TaskV) -> bool {
    &&& t.steps == frame_counter_program()
    &&& t.looped
    &&& t.pc == 0
}

/// A counter advanced by one step, saturating at its range.
pub open spec fn bump(c: u64) -> u64 {
    if c == u64::MAX {
        c
    } else {
        (c + 1) as u64
    }
}

proof fn lemma_frame_counter_run(env: RunEnv, st: RunState, fuel: nat)
    requires
        is_frame_counter_task(st.task),
        st.task.fc.state == ExecState::RunOnce,
        fuel >= 4,
    ensures
        run_spec(env, st, fuel) == RunOutcomeV::Suspended(
            RunState {
                task: TaskV {
                    counter: bump(st.task.counter),
                    fc: FutureContext { state: ExecState::Waiting, ..st.task.fc },
                    ..st.task
                },
                ..st
            },
        ),
{
    let t = st.task;
    let st1 = RunState {
        task: TaskV {
            pc: 1,
            fc: FutureContext { state: ExecState::Waiting, ..t.fc },
            ..t
        },
        ..st
    };
    assert(step_spec(env, st) == StepResultV::Stepped(st1));
    assert(run_spec(env, st, fuel) == run_spec(env, st1, (fuel - 1) as nat));
    let st2 = RunState {
        task: TaskV { counter: bump(t.counter), pc: 2, ..st1.task },
        ..st1
    };
    assert(step_spec(env, st1) == StepResultV::Stepped(st2));
    assert(run_spec(env, st1, (fuel - 1) as nat) == run_spec(env, st2, (fuel - 2) as nat));
    let st3 = RunState { task: TaskV { pc: 0, ..st2.task }, ..st2 };
    assert(run_spec(env, st2, (fuel - 2) as nat) == run_spec(env, st3, (fuel - 3) as nat));
    assert(step_spec(env, st3) == StepResultV::Suspended);
    assert(run_spec(env, st3, (fuel - 3) as nat) == RunOutcomeV::Suspended(st3));
    assert(st3 =~= RunState {
        task: TaskV {
            counter: bump(st.task.counter),
            fc: FutureContext { state: ExecState::Waiting, ..st.task.fc },
            ..st.task
        },
        ..st
    });
}

proof fn lemma_tick_from_counter(w: MachineV, i: nat, k: int)
    requires
        0 <= k < w.tasks.len(),
        w.tasks[k] is Some,
        is_frame_counter_task(w.tasks[k]->0),
        tick_from_spec(w, i).1 is None,
    ensures
        tick_from_spec(w, i).0.tasks.len() == w.tasks.len(),
        k < i ==> tick_from_spec(w, i).0.tasks[k] == w.tasks[k],
        k >= i ==> tick_from_spec(w, i).0.tasks[k] == Some(
            TaskV {
                counter: bump((w.tasks[k]->0).counter),
                fc: FutureContext {
                    state: ExecState::Waiting,
                    ..(w.tasks[k]->0).fc
                },
                ..(w.tasks[k]->0)
            },
        ),
    decreases w.tasks.len() - i,
{
    if i >= w.tasks.len() {
    } else {
        match w.tasks[i as int] {
            None => {
                lemma_tick_from_counter(w, i + 1, k);
            },
            Some(t) => {
                let env = run_env_of(w, i as int);
                let t1 = resumed(t);
                let st0 = RunState { scene: w.scene, cells: w.cells, task: t1 };
                let out = run_spec(env, st0, fuel_for(env, t1));
                if i == k {
                    lemma_frame_counter_run(env, st0, fuel_for(env, t1));
                }
                match out {
                    RunOutcomeV::Suspended(st) => {
                        let w1 = MachineV {
                            scene: st.scene,
                            cells: st.cells,
                            tasks: w.tasks.update(i as int, Some(st.task)),
                            ..w
                        };
                        lemma_tick_from_counter(w1, i + 1, k);
                    },
                    RunOutcomeV::Finished(st) => {
                        let w1 = MachineV {
                            scene: st.scene,
                            cells: st.cells,
                            tasks: w.tasks.update(i as int, None),
                            ..w
                        };
                        if i == k {
                            assert(false);
                        }
                        lemma_tick_from_counter(w1, i + 1, k);
                    },
                    RunOutcomeV::Failed(e, st) => {
                        assert(false);
                    },
                }
            },
        }
    }
}

/// Law: a task that crosses a frame barrier inside its loop advances
/// exactly one step per tick — its counter goes up by one, never more,
/// never fewer, whatever the rest of the machine does, as long as the
/// tick completes without a fatal error. Applied once per tick, N ticks
/// advance it exactly N steps.
pub proof fn lemma_frame_loop_one_step_per_tick(w: MachineV, k: int)
    requires
        0 <= k < w.tasks.len(),
        w.tasks[k] is Some,
        is_frame_counter_task(w.tasks[k]->0),
        (w.tasks[k]->0).counter < u64::MAX,
        tick_spec(w).1 is None,
    ensures
        tick_spec(w).0.tasks[k] is Some,
        (tick_spec(w).0.tasks[k]->0).counter == (w.tasks[k]->0).counter + 1,
        is_frame_counter_task(tick_spec(w).0.tasks[k]->0),
{
    lemma_tick_from_counter(w, 0, k);
}

/// `n` whole ticks in a row; a fatal error stops the run where it
/// happened.
pub open spec fn ticks_spec(w: MachineV, n: nat) -> (MachineV, Option<FatalError>)
    decreases n,
{
    if n == 0 {
        (w, None)
    } else {
        let (w1, e) = tick_spec(w);
        match e {
            Some(er) => (w1, Some(er)),
            None => ticks_spec(w1, (n - 1) as nat),
        }
    }
}

/// Law: N ticks advance a frame-counter loop by exactly N steps, never
/// more, never fewer.
pub proof fn lemma_frame_loop_n_steps(w: MachineV, k: int, n: nat)
    requires
        0 <= k < w.tasks.len(),
        w.tasks[k] is Some,
        is_frame_counter_task(w.tasks[k]->0),
        (w.tasks[k]->0).counter + n <= u64::MAX,
        ticks_spec(w, n).1 is None,
    ensures
        ticks_spec(w, n).0.tasks.len() == w.tasks.len(),
        ticks_spec(w, n).0.tasks[k] is Some,
        (ticks_spec(w, n).0.tasks[k]->0).counter == (w.tasks[k]->0).counter + n,
        is_frame_counter_task(ticks_spec(w, n).0.tasks[k]->0),
    decreases n,
{
    if n > 0 {
        let (w1, e) = tick_spec(w);
        lemma_tick_from_counter(w, 0, k);
        lemma_frame_loop_n_steps(w1, k, (n - 1) as nat);
    }
}

/// The one-shot program of a task that appends marker `m` to the shared
/// marker slot `h` when first polled, then completes.
pub open spec fn marker_task(h: GameObject, m: u64) -> TaskV {
    TaskV {
        steps: seq![TaskStep::PushMarker { target: h, value: m }],
        looped: false,
        pc: 0,
        fc: FutureContext { processed_events: 0, state: ExecState::RunOnce },
        counter: 0,
        observed: Seq::empty(),
        loaded: Seq::empty(),
    }
}

proof fn lemma_marker_task_run(env: RunEnv, st: RunState, h: GameObject, m: u64, vs: Seq<u64>, fuel: nat)
    requires
        st.task == marker_task(h, m),
        (h.id as int) < st.scene.len(),
        h.kind == ObjectKind::Markers,
        st.scene[h.id as int] == Some(ObjectV::Markers { values: vs }),
        fuel >= 2,
    ensures
        run_spec(env, st, fuel) == RunOutcomeV::Finished(
            RunState {
                scene: st.scene.update(h.id as int, Some(ObjectV::Markers { values: vs.push(m) })),
                task: TaskV { pc: 1, ..st.task },
                ..st
            },
        ),
{
    let st1 = RunState {
        scene: st.scene.update(h.id as int, Some(ObjectV::Markers { values: vs.push(m) })),
        task: TaskV { pc: 1, ..st.task },
        ..st
    };
    assert(step_spec(env, st) == StepResultV::Stepped(st1));
    assert(run_spec(env, st, fuel) == run_spec(env, st1, (fuel - 1) as nat));
    assert(run_spec(env, st1, (fuel - 1) as nat) == RunOutcomeV::Finished(st1));
}

/// Law: given tasks A, B and C spawned in that order, each appending its
/// distinct marker to the same shared arena slot when polled, a single
/// tick deposits the markers in exactly the order A, B, C, and empties
/// all three scheduler slots.
pub proof fn lemma_markers_in_spawn_order(
    w: MachineV,
    h: GameObject,
    ma: u64,
    mb: u64,
    mc: u64,
    vs: Seq<u64>,
)
    requires
        w.tasks == seq![
            Some(marker_task(h, ma)),
            Some(marker_task(h, mb)),
            Some(marker_task(h, mc)),
        ],
        (h.id as int) < w.scene.len(),
        h.kind == ObjectKind::Markers,
        w.scene[h.id as int] == Some(ObjectV::Markers { values: vs }),
    ensures
        tick_spec(w).1 is None,
        tick_spec(w).0.scene[h.id as int] == Some(
            ObjectV::Markers { values: vs.push(ma).push(mb).push(mc) },
        ),
        tick_spec(w).0.tasks[0] is None,
        tick_spec(w).0.tasks[1] is None,
        tick_spec(w).0.tasks[2] is None,
{
    let t0 = marker_task(h, ma);
    let env0 = run_env_of(w, 0);
    let st0 = RunState { scene: w.scene, cells: w.cells, task: resumed(t0) };
    assert(resumed(t0) =~= t0);
    lemma_marker_task_run(env0, st0, h, ma, vs, fuel_for(env0, resumed(t0)));
    let w1 = MachineV {
        scene: w.scene.update(h.id as int, Some(ObjectV::Markers { values: vs.push(ma) })),
        cells: w.cells,
        tasks: w.tasks.update(0, None),
        ..w
    };
    assert(tick_from_spec(w, 0) == tick_from_spec(w1, 1));
    let t1 = marker_task(h, mb);
    let env1 = run_env_of(w1, 1);
    let st1 = RunState { scene: w1.scene, cells: w1.cells, task: resumed(t1) };
    assert(resumed(t1) =~= t1);
    lemma_marker_task_run(env1, st1, h, mb, vs.push(ma), fuel_for(env1, resumed(t1)));
    let w2 = MachineV {
        scene: w1.scene.update(
            h.id as int,
            Some(ObjectV::Markers { values: vs.push(ma).push(mb) }),
        ),
        cells: w1.cells,
        tasks: w1.tasks.update(1, None),
        ..w1
    };
    assert(tick_from_spec(w1, 1) == tick_from_spec(w2, 2));
    let t2 = marker_task(h, mc);
    let env2 = run_env_of(w2, 2);
    let st2 = RunState { scene: w2.scene, cells: w2.cells, task: resumed(t2) };
    assert(resumed(t2) =~= t2);
    lemma_marker_task_run(env2, st2, h, mc, vs.push(ma).push(mb), fuel_for(env2, resumed(t2)));
    let w3 = MachineV {
        scene: w2.scene.update(
            h.id as int,
            Some(ObjectV::Markers { values: vs.push(ma).push(mb).push(mc) }),
        ),
        cells: w2.cells,
        tasks: w2.tasks.update(2, None),
        ..w2
    };
    assert(tick_from_spec(w2, 2) == tick_from_spec(w3, 3));
    assert(tick_from_spec(w3, 3) == (w3, None::<FatalError>));
}

/// The one-shot program of a task that acquires the bird `h`, sets its
/// velocity to `(vel_x, vel_y)`, releases it, and completes.
pub open spec fn set_velocity_task(h: GameObject, vel_x: i64, vel_y: i64) -> TaskV {
    TaskV {
        steps: seq![TaskStep::SetBirdVelocity { target: h, vel_x, vel_y }],
        looped: false,
        pc: 0,
        fc: FutureContext { processed_events: 0, state: ExecState::RunOnce },
        counter: 0,
        observed: Seq::empty(),
        loaded: Seq::empty(),
    }
}

proof fn lemma_set_velocity_task_run(
    env: RunEnv,
    st: RunState,
    h: GameObject,
    vel_x: i64,
    vel_y: i64,
    fuel: nat,
)
    requires
        st.task == set_velocity_task(h, vel_x, vel_y),
        (h.id as int) < st.scene.len(),
        h.kind == ObjectKind::Bird,
        st.scene[h.id as int] matches Some(ObjectV::Bird { .. }),
        fuel >= 2,
    ensures
        ({
            let prev = st.scene[h.id as int]->0;
            run_spec(env, st, fuel) == RunOutcomeV::Finished(
                RunState {
                    scene: st.scene.update(
                        h.id as int,
                        Some(
                            ObjectV::Bird {
                                x: prev->Bird_x,
                                y: prev->Bird_y,
                                vel_x,
                                vel_y,
                            },
                        ),
                    ),
                    task: TaskV { pc: 1, ..st.task },
                    ..st
                },
            )
        }),
{
    let prev = st.scene[h.id as int]->0;
    let st1 = RunState {
        scene: st.scene.update(
            h.id as int,
            Some(ObjectV::Bird { x: prev->Bird_x, y: prev->Bird_y, vel_x, vel_y }),
        ),
        task: TaskV { pc: 1, ..st.task },
        ..st
    };
    assert(step_spec(env, st) == StepResultV::Stepped(st1));
    assert(run_spec(env, st, fuel) == run_spec(env, st1, (fuel - 1) as nat));
    assert(run_spec(env, st1, (fuel - 1) as nat) == RunOutcomeV::Finished(st1));
}

/// Law: a task that acquires a bird, sets its velocity and releases it
/// leaves, after one tick, an arena in which acquiring the bird observes
/// exactly that velocity, the position untouched, and the task's slot
/// empty.
pub proof fn lemma_bird_velocity_tick(
    w: MachineV,
    h: GameObject,
    vel_x: i64,
    vel_y: i64,
)
    requires
        w.tasks == seq![Some(set_velocity_task(h, vel_x, vel_y))],
        (h.id as int) < w.scene.len(),
        h.kind == ObjectKind::Bird,
        w.scene[h.id as int] matches Some(ObjectV::Bird { .. }),
    ensures
        tick_spec(w).1 is None,
        ({
            let prev = w.scene[h.id as int]->0;
            tick_spec(w).0.scene[h.id as int] == Some(
                ObjectV::Bird { x: prev->Bird_x, y: prev->Bird_y, vel_x, vel_y },
            )
        }),
        spec_can_get(tick_spec(w).0.scene, h.id as int, h.kind),
        tick_spec(w).0.tasks[0] is None,
{
    let t0 = set_velocity_task(h, vel_x, vel_y);
    let env0 = run_env_of(w, 0);
    let st0 = RunState { scene: w.scene, cells: w.cells, task: resumed(t0) };
    assert(resumed(t0) =~= t0);
    lemma_set_velocity_task_run(env0, st0, h, vel_x, vel_y, fuel_for(env0, resumed(t0)));
    let prev = w.scene[h.id as int]->0;
    let w1 = MachineV {
        scene: w.scene.update(
            h.id as int,
            Some(ObjectV::Bird { x: prev->Bird_x, y: prev->Bird_y, vel_x, vel_y }),
        ),
        cells: w.cells,
        tasks: w.tasks.update(0, None),
        ..w
    };
    assert(tick_from_spec(w, 0) == tick_from_spec(w1, 1));
    assert(tick_from_spec(w1, 1) == (w1, None::<FatalError>));
}

/// A fresh frame barrier; awaiting it suspends the task until the next
/// tick.
pub fn next_frame() -> (r: FrameFuture) {
    FrameFuture
}

/// A fresh event wait on the shared queue.
pub fn next_event() -> (r: EventFuture) {
    EventFuture::new()
}

} // verus!
