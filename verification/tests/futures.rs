use macroquad::error::FatalError;
use macroquad::event::{Event, EventQueue};
use macroquad::exec::{
    EventFuture, ExecState, FrameFuture, FutureContext, Poll, ResourceCell, TextureLoadingFuture,
    TimerDelayFuture,
};
use macroquad::scheduler::{next_event, next_frame};

#[test]
fn frame_barrier_resolves_exactly_once_per_run_state() {
    let mut fc = FutureContext { processed_events: 0, state: ExecState::RunOnce };
    let ff = next_frame();
    assert!(matches!(ff.poll(&mut fc), Poll::Ready(())));
    assert_eq!(fc.state, ExecState::Waiting);
    // A second poll within the same tick stays pending.
    assert!(matches!(ff.poll(&mut fc), Poll::Pending));
    // The next tick re-arms the flag and the barrier crosses again.
    fc.state = ExecState::RunOnce;
    assert!(matches!(ff.poll(&mut fc), Poll::Ready(())));
}

#[test]
fn event_wait_advances_cursor_and_reports_end_of_stream() {
    let mut q = EventQueue::new();
    q.push(Event::KeyDown(42));
    q.push(Event::KeyUp(42));
    let mut fc = FutureContext { processed_events: 0, state: ExecState::RunOnce };
    let ef = next_event();
    assert!(matches!(ef.poll(&mut fc, &q), Poll::Ready(Some(Event::KeyDown(42)))));
    assert!(matches!(ef.poll(&mut fc, &q), Poll::Ready(Some(Event::KeyUp(42)))));
    assert_eq!(fc.processed_events, 2);
    // Past the end of an open queue the wait is pending, not closed.
    assert!(matches!(ef.poll(&mut fc, &q), Poll::Pending));
    q.close();
    assert!(matches!(ef.poll(&mut fc, &q), Poll::Ready(None)));
    // Remaining events are still delivered before end-of-stream for a
    // slower consumer.
    let mut late = FutureContext { processed_events: 0, state: ExecState::RunOnce };
    assert!(matches!(ef.poll(&mut late, &q), Poll::Ready(Some(Event::KeyDown(42)))));
}

#[test]
fn resource_wait_consumes_the_cell_and_resolves_once() {
    let mut cells = vec![
        ResourceCell::Loaded(vec![5, 6]),
        ResourceCell::Empty,
        ResourceCell::Failed,
    ];
    let lf = TextureLoadingFuture { cell: 0 };
    match lf.poll(&mut cells) {
        Poll::Ready(Ok(bytes)) => assert_eq!(bytes, vec![5, 6]),
        _ => panic!("a filled cell must resolve"),
    }
    // The value was taken out of the cell: the next poll is pending.
    assert!(matches!(lf.poll(&mut cells), Poll::Pending));
    let empty = TextureLoadingFuture { cell: 1 };
    assert!(matches!(empty.poll(&mut cells), Poll::Pending));
    let failed = TextureLoadingFuture { cell: 2 };
    assert!(matches!(
        failed.poll(&mut cells),
        Poll::Ready(Err(FatalError::ResourceUnavailable))
    ));
}

#[test]
fn timer_pending_until_duration_elapsed() {
    let tf = TimerDelayFuture::new(1000, 250);
    assert!(matches!(tf.poll(0), Poll::Pending));
    assert!(matches!(tf.poll(1249), Poll::Pending));
    assert!(matches!(tf.poll(1250), Poll::Ready(())));
    assert!(matches!(tf.poll(5000), Poll::Ready(())));
}
