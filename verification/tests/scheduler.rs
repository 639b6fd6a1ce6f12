use macroquad::error::FatalError;
use macroquad::event::Event;
use macroquad::exec::{TextureLoadingFuture, TimerDelayFuture};
use macroquad::object::{Object, ObjectKind};
use macroquad::scene::{all_scene_objects, GameObject};
use macroquad::scheduler::{Context, TaskStep, WaitCoroutineFuture};

#[test]
fn two_tasks_observe_every_event_once_in_order() {
    let mut ctx = Context::new();
    let a = ctx.start_coroutine(vec![TaskStep::DrainEvents], false);
    let b = ctx.start_coroutine(vec![TaskStep::DrainEvents], false);
    ctx.push_event(Event::KeyDown(10));
    ctx.push_event(Event::KeyUp(10));
    assert_eq!(ctx.tick(), Ok(()));
    let seen = vec![Event::KeyDown(10), Event::KeyUp(10)];
    assert_eq!(ctx.observed_of(a), Some(seen.clone()));
    assert_eq!(ctx.observed_of(b), Some(seen));
    // More events arrive; both tasks catch up at their own pace, and a
    // late-spawned task still observes the full stream from the start.
    ctx.push_event(Event::KeyDown(11));
    let c = ctx.start_coroutine(vec![TaskStep::DrainEvents], false);
    assert_eq!(ctx.tick(), Ok(()));
    let seen3 = vec![Event::KeyDown(10), Event::KeyUp(10), Event::KeyDown(11)];
    assert_eq!(ctx.observed_of(a), Some(seen3.clone()));
    assert_eq!(ctx.observed_of(b), Some(seen3.clone()));
    assert_eq!(ctx.observed_of(c), Some(seen3));
    // Termination lets the drain tasks run off the end of the stream.
    ctx.close_events();
    assert_eq!(ctx.tick(), Ok(()));
    assert!(!ctx.is_live(a));
    assert!(!ctx.is_live(b));
    assert!(!ctx.is_live(c));
}

#[test]
fn frame_loop_advances_exactly_one_step_per_tick() {
    let mut ctx = Context::new();
    let c = ctx.start_coroutine(vec![TaskStep::NextFrame, TaskStep::CountStep], true);
    // Spawned tasks are not polled before the next tick.
    assert_eq!(ctx.counter_of(c), Some(0));
    for n in 1..=5u64 {
        assert_eq!(ctx.tick(), Ok(()));
        assert_eq!(ctx.counter_of(c), Some(n));
    }
}

#[test]
fn markers_deposited_in_spawn_order_within_one_tick() {
    let mut ctx = Context::new();
    let h = GameObject::new(&mut ctx.scene, Object::Markers { values: vec![] });
    let a = ctx.start_coroutine(vec![TaskStep::PushMarker { target: h, value: 1 }], false);
    let b = ctx.start_coroutine(vec![TaskStep::PushMarker { target: h, value: 2 }], false);
    let c = ctx.start_coroutine(vec![TaskStep::PushMarker { target: h, value: 3 }], false);
    assert_eq!(ctx.tick(), Ok(()));
    let g = h.get(&mut ctx.scene);
    match g.object() {
        Object::Markers { values } => assert_eq!(values, &vec![1, 2, 3]),
        _ => panic!("expected markers"),
    }
    g.release(&mut ctx.scene);
    assert!(!ctx.is_live(a));
    assert!(!ctx.is_live(b));
    assert!(!ctx.is_live(c));
}

#[test]
fn bird_velocity_set_by_task_is_observed_after_tick() {
    let mut ctx = Context::new();
    let bird = ctx.new_object(Object::Bird { x: 50, y: 50, vel_x: 0, vel_y: 0 });
    ctx.start_coroutine(
        vec![TaskStep::SetBirdVelocity { target: bird, vel_x: 0, vel_y: -5 }],
        false,
    );
    assert_eq!(ctx.tick(), Ok(()));
    let g = ctx.get_object(bird);
    match g.object() {
        Object::Bird { x, y, vel_x, vel_y } => {
            assert_eq!((*vel_x, *vel_y), (0, -5));
            assert_eq!((*x, *y), (50, 50));
        },
        _ => panic!("expected a bird"),
    }
    ctx.release_object(g);
}

#[test]
fn context_acquire_reports_violations_and_round_trips() {
    let mut ctx = Context::new();
    let h = ctx.new_object(Object::Obstacle { x: 3, y: 4 });
    let mut g = ctx.try_get_object(h).expect("fresh slot must be acquirable");
    // The slot is empty while the guard is outstanding.
    assert_eq!(ctx.try_get_object(h).err(), Some(FatalError::InvariantViolation));
    g.set_object(Object::Obstacle { x: 8, y: 4 });
    ctx.release_object(g);
    let g2 = ctx.get_object(h);
    match g2.object() {
        Object::Obstacle { x, .. } => assert_eq!(*x, 8),
        _ => panic!("expected an obstacle"),
    }
    // A deleted guard leaves the slot permanently empty.
    let mut g2 = g2;
    g2.delete();
    ctx.release_object(g2);
    assert_eq!(ctx.try_get_object(h).err(), Some(FatalError::InvariantViolation));
}

#[test]
fn obstacle_crossing_threshold_is_permanently_removed() {
    let mut ctx = Context::new();
    let far = GameObject::new(&mut ctx.scene, Object::Obstacle { x: 100, y: 0 });
    let near = GameObject::new(&mut ctx.scene, Object::Obstacle { x: 50, y: 0 });
    ctx.start_coroutine(
        vec![
            TaskStep::NextFrame,
            TaskStep::StepObstacles { shift: 30, threshold: 0 },
        ],
        true,
    );
    // After two ticks the nearer obstacle has crossed below the threshold.
    assert_eq!(ctx.tick(), Ok(()));
    assert_eq!(ctx.tick(), Ok(()));
    let live = all_scene_objects(&ctx.scene);
    assert_eq!(live, vec![(far.id, ObjectKind::Obstacle)]);
    assert!(!ctx.scene.has(near.id));
    // Its slot stays absent ever after; the farther one follows later.
    assert_eq!(ctx.tick(), Ok(()));
    assert_eq!(ctx.tick(), Ok(()));
    assert!(!ctx.scene.has(near.id));
    assert!(!ctx.scene.has(far.id));
    assert!(all_scene_objects(&ctx.scene).is_empty());
}

#[test]
fn obstacle_shift_saturates_and_spares_other_kinds() {
    let mut ctx = Context::new();
    let bird = GameObject::new(
        &mut ctx.scene,
        Object::Bird { x: 5, y: 5, vel_x: 0, vel_y: 0 },
    );
    let obstacle = GameObject::new(&mut ctx.scene, Object::Obstacle { x: 0, y: 7 });
    // A negative shift moves the obstacle right instead of left.
    ctx.start_coroutine(
        vec![TaskStep::StepObstacles { shift: -5, threshold: i64::MIN }],
        false,
    );
    assert_eq!(ctx.tick(), Ok(()));
    let g = obstacle.get(&mut ctx.scene);
    match g.object() {
        Object::Obstacle { x, y } => assert_eq!((*x, *y), (5, 7)),
        _ => panic!("expected an obstacle"),
    }
    g.release(&mut ctx.scene);
    // A huge shift saturates at the coordinate range, falls below the
    // threshold, and removes the obstacle; other kinds are untouched.
    ctx.start_coroutine(
        vec![TaskStep::StepObstacles { shift: i64::MAX, threshold: 0 }],
        false,
    );
    assert_eq!(ctx.tick(), Ok(()));
    assert!(!ctx.scene.has(obstacle.id));
    assert!(ctx.scene.has(bird.id));
}

#[test]
fn timer_resolves_once_clock_passes_deadline() {
    let mut ctx = Context::new();
    let c = ctx.start_coroutine(
        vec![
            TaskStep::Delay(TimerDelayFuture::new(0, 100)),
            TaskStep::CountStep,
        ],
        false,
    );
    assert_eq!(ctx.tick(), Ok(()));
    assert_eq!(ctx.counter_of(c), Some(0));
    ctx.set_time(99);
    assert_eq!(ctx.tick(), Ok(()));
    assert_eq!(ctx.counter_of(c), Some(0));
    ctx.set_time(100);
    assert_eq!(ctx.tick(), Ok(()));
    // The timer resolved, the counter advanced, the task completed.
    assert!(!ctx.is_live(c));
}

#[test]
fn resource_rendezvous_delivers_bytes_exactly_once() {
    let mut ctx = Context::new();
    let cell = ctx.create_resource();
    let c = ctx.start_coroutine(
        vec![
            TaskStep::LoadResource(TextureLoadingFuture { cell }),
            TaskStep::NextFrame,
        ],
        true,
    );
    assert_eq!(ctx.tick(), Ok(()));
    assert_eq!(ctx.loaded_count_of(c), Some(0));
    ctx.deliver_resource(cell, vec![7, 8, 9]);
    assert_eq!(ctx.tick(), Ok(()));
    assert_eq!(ctx.loaded_count_of(c), Some(1));
    assert_eq!(ctx.loaded_of(c, 0), Some(vec![7, 8, 9]));
    // The cell was consumed: further ticks load nothing more.
    assert_eq!(ctx.tick(), Ok(()));
    assert_eq!(ctx.loaded_count_of(c), Some(1));
}

#[test]
fn resource_waits_are_not_gated_by_the_frame_barrier() {
    // Only the frame barrier spends the run flag: a task that crosses it
    // and then finds two cells already filled resolves both waits, and
    // the rest of its program, within that same tick.
    let mut ctx = Context::new();
    let c1 = ctx.create_resource();
    let c2 = ctx.create_resource();
    ctx.deliver_resource(c1, vec![1]);
    ctx.deliver_resource(c2, vec![2, 2]);
    let c = ctx.start_coroutine(
        vec![
            TaskStep::NextFrame,
            TaskStep::LoadResource(TextureLoadingFuture { cell: c1 }),
            TaskStep::LoadResource(TextureLoadingFuture { cell: c2 }),
            TaskStep::CountStep,
            TaskStep::DrainEvents,
        ],
        false,
    );
    assert_eq!(ctx.tick(), Ok(()));
    assert_eq!(ctx.loaded_count_of(c), Some(2));
    assert_eq!(ctx.loaded_of(c, 0), Some(vec![1]));
    assert_eq!(ctx.loaded_of(c, 1), Some(vec![2, 2]));
    assert_eq!(ctx.counter_of(c), Some(1));
}

#[test]
fn failed_resource_load_is_fatal() {
    let mut ctx = Context::new();
    let cell = ctx.create_resource();
    ctx.start_coroutine(
        vec![TaskStep::LoadResource(TextureLoadingFuture { cell })],
        false,
    );
    ctx.fail_resource(cell);
    assert_eq!(ctx.tick(), Err(FatalError::ResourceUnavailable));
}

#[test]
fn acquiring_a_dead_handle_from_a_task_is_fatal() {
    let mut ctx = Context::new();
    let phantom = GameObject { id: 99, kind: ObjectKind::Bird };
    ctx.start_coroutine(
        vec![TaskStep::SetBirdVelocity { target: phantom, vel_x: 0, vel_y: 0 }],
        false,
    );
    assert_eq!(ctx.tick(), Err(FatalError::InvariantViolation));
}

#[test]
fn task_that_never_suspends_is_fatal() {
    let mut ctx = Context::new();
    ctx.start_coroutine(vec![TaskStep::CountStep], true);
    assert_eq!(ctx.tick(), Err(FatalError::InvariantViolation));
}

#[test]
fn join_resolves_when_target_slot_becomes_empty() {
    let mut ctx = Context::new();
    // The target drains events, so it stays alive until the stream closes.
    let target = ctx.start_coroutine(vec![TaskStep::DrainEvents], false);
    let waiter = ctx.start_coroutine(
        vec![TaskStep::Join(WaitCoroutineFuture { coroutine: target })],
        false,
    );
    assert_eq!(ctx.tick(), Ok(()));
    assert!(ctx.is_live(target));
    assert!(ctx.is_live(waiter));
    ctx.close_events();
    // The target completes this tick, and the waiter — polled after it in
    // spawn order — sees the empty slot within the same tick.
    assert_eq!(ctx.tick(), Ok(()));
    assert!(!ctx.is_live(target));
    assert!(!ctx.is_live(waiter));
}

#[test]
fn join_after_forced_stop() {
    let mut ctx = Context::new();
    let target = ctx.start_coroutine(vec![TaskStep::DrainEvents], false);
    let waiter = ctx.start_coroutine(
        vec![TaskStep::Join(WaitCoroutineFuture { coroutine: target })],
        false,
    );
    assert_eq!(ctx.tick(), Ok(()));
    assert!(ctx.is_live(waiter));
    ctx.stop(target);
    assert!(!ctx.is_live(target));
    assert_eq!(ctx.tick(), Ok(()));
    assert!(!ctx.is_live(waiter));
}

#[test]
fn stop_discards_remaining_computation() {
    let mut ctx = Context::new();
    let c = ctx.start_coroutine(vec![TaskStep::NextFrame, TaskStep::CountStep], true);
    assert_eq!(ctx.tick(), Ok(()));
    assert_eq!(ctx.counter_of(c), Some(1));
    ctx.stop(c);
    assert!(!ctx.is_live(c));
    assert_eq!(ctx.tick(), Ok(()));
    assert_eq!(ctx.counter_of(c), None);
}

#[test]
fn non_frame_waits_can_all_resolve_in_one_tick() {
    // A task may satisfy arbitrarily many already-ready non-frame
    // suspension points in one tick: two ripe timers, a counter step and
    // an arrived event all go through in a single poll, and the task then
    // yields at the first pending wait.
    let mut ctx = Context::new();
    ctx.push_event(Event::KeyDown(1));
    let c = ctx.start_coroutine(
        vec![
            TaskStep::Delay(TimerDelayFuture::new(0, 0)),
            TaskStep::CountStep,
            TaskStep::Delay(TimerDelayFuture::new(0, 0)),
            TaskStep::DrainEvents,
        ],
        false,
    );
    assert_eq!(ctx.tick(), Ok(()));
    assert_eq!(ctx.counter_of(c), Some(1));
    assert_eq!(ctx.observed_of(c), Some(vec![Event::KeyDown(1)]));
    assert!(ctx.is_live(c));
    // End-of-stream lets the drain finish the program.
    ctx.close_events();
    assert_eq!(ctx.tick(), Ok(()));
    assert!(!ctx.is_live(c));
}
