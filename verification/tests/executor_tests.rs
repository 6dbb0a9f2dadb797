use rust_book::executor::Computation;
use rust_book::executor::Executor;
use rust_book::executor::QueueFullError;
use rust_book::executor::StepOutcome;

#[test]
fn an_idle_executor_has_nothing_to_drain() {
    let mut e = Executor::new(8);
    assert_eq!(0, e.run());
    assert_eq!(StepOutcome::Idle, e.step());
    assert_eq!(0, e.log_len());
}

#[test]
fn run_drains_exactly_the_spawned_noops() {
    let mut e = Executor::new(16);
    let mut wakers = Vec::new();
    for _ in 0..5 {
        wakers.push(e.spawn(Computation::Noop).unwrap());
    }

    let drained = e.run();

    assert_eq!(5, drained);
    assert_eq!(0, e.queue_len());
    for w in &wakers {
        assert!(e.task_done(w));
    }
}

#[test]
fn countdown_needs_one_signal_per_suspension() {
    let mut e = Executor::new(16);
    let w = e.spawn(Computation::CountDown { remaining: 3 }).unwrap();

    // first resume: suspends (1 of 3)
    assert_eq!(1, e.run());
    assert!(!e.task_done(&w));

    // two more signalled resumes: still suspended
    for _ in 0..2 {
        e.signal(&w).unwrap();
        assert_eq!(1, e.run());
        assert!(!e.task_done(&w));
    }

    // the fourth resume completes it
    e.signal(&w).unwrap();
    assert_eq!(1, e.run());
    assert!(e.task_done(&w));
}

#[test]
fn spawn_at_capacity_reports_queue_full() {
    let mut e = Executor::new(2);
    e.spawn(Computation::Noop).unwrap();
    e.spawn(Computation::Noop).unwrap();

    assert_eq!(Err(QueueFullError), e.spawn(Computation::Noop));

    // after draining there is room again
    e.run();
    assert!(e.spawn(Computation::Noop).is_ok());
}

#[test]
fn duplicate_signals_never_over_resume() {
    let mut e = Executor::new(16);
    let w = e.spawn(Computation::CountDown { remaining: 1 }).unwrap();
    assert_eq!(1, e.run());
    assert!(!e.task_done(&w));

    // three wakes for a single suspension: the extra entries are stale
    e.signal(&w).unwrap();
    e.signal(&w).unwrap();
    e.signal(&w).unwrap();
    assert_eq!(3, e.run());
    assert!(e.task_done(&w));

    // waking a completed task stays a harmless no-op
    e.signal(&w).unwrap();
    assert_eq!(StepOutcome::Stale, e.step());
    assert!(e.task_done(&w));
}

#[test]
fn timer_completes_only_after_its_duration() {
    let mut e = Executor::new(16);
    let timer = e.new_timer(2);
    let w = e.spawn(Computation::Timer { timer }).unwrap();

    // first resume stores the waker and suspends
    assert_eq!(StepOutcome::Pending, e.step());
    assert!(!e.task_done(&w));

    // the wake-up cannot be delivered before the duration has elapsed
    assert_eq!(Ok(false), e.fire_timer(timer));
    e.advance(1);
    assert_eq!(Ok(false), e.fire_timer(timer));
    assert!(!e.timer_is_complete(timer));

    // once due, the wake-up completes the timer and re-enqueues the task
    e.advance(1);
    assert_eq!(Ok(true), e.fire_timer(timer));
    assert!(e.timer_is_complete(timer));
    assert_eq!(1, e.queue_len());
    assert_eq!(StepOutcome::Done, e.step());
    assert!(e.task_done(&w));

    // the delay thread fires once; a second delivery does nothing
    assert_eq!(Ok(false), e.fire_timer(timer));
}

#[test]
fn staged_computation_logs_around_its_timer() {
    let mut e = Executor::new(16);
    let timer = e.new_timer(2);
    let w = e
        .spawn(Computation::Staged {
            start_message: String::from("howdy!"),
            end_message: String::from("done!"),
            timer,
            started: false,
        })
        .unwrap();

    // the first message appears immediately; then the task waits
    assert_eq!(1, e.run());
    assert_eq!(1, e.log_len());
    assert_eq!("howdy!", e.log_at(0).as_str());
    assert!(!e.task_done(&w));

    // nothing more happens until the delay has passed
    assert_eq!(Ok(false), e.fire_timer(timer));
    assert_eq!(1, e.log_len());

    e.advance(2);
    assert_eq!(Ok(true), e.fire_timer(timer));
    assert_eq!(1, e.run());
    assert_eq!(2, e.log_len());
    assert_eq!("howdy!", e.log_at(0).as_str());
    assert_eq!("done!", e.log_at(1).as_str());
    assert!(e.task_done(&w));
}

#[test]
fn tasks_resume_in_queue_order() {
    let mut e = Executor::new(16);
    let first = e.spawn(Computation::CountDown { remaining: 1 }).unwrap();
    let second = e.spawn(Computation::Noop).unwrap();

    // FIFO: the countdown suspends first, then the noop completes
    assert_eq!(StepOutcome::Pending, e.step());
    assert!(!e.task_done(&first));
    assert_eq!(StepOutcome::Done, e.step());
    assert!(e.task_done(&second));
    assert_eq!(StepOutcome::Idle, e.step());
}

#[test]
fn timer_wake_at_capacity_reports_queue_full() {
    let mut e = Executor::new(1);
    let timer = e.new_timer(0);
    let w = e.spawn(Computation::Timer { timer }).unwrap();

    // the task stores its waker and frees the queue; a signal then fills it
    assert_eq!(StepOutcome::Pending, e.step());
    e.signal(&w).unwrap();

    // the timer is due, but its wake-up cannot be enqueued
    assert_eq!(Err(QueueFullError), e.fire_timer(timer));
    assert!(!e.timer_is_complete(timer));

    // with room again the wake-up goes through
    assert_eq!(1, e.run());
    assert_eq!(Ok(true), e.fire_timer(timer));
    assert_eq!(1, e.run());
    assert!(e.task_done(&w));
}

#[test]
fn signal_at_capacity_reports_queue_full() {
    let mut e = Executor::new(1);
    let w = e.spawn(Computation::CountDown { remaining: 2 }).unwrap();
    assert_eq!(1, e.run());

    e.signal(&w).unwrap();
    assert_eq!(Err(QueueFullError), e.signal(&w));
}
