use ferrios::executor::Executor;

#[test]
fn new_executor_is_idle() {
    let mut executor: Executor<&str> = Executor::new();
    assert!(executor.is_idle());
    assert_eq!(executor.run(), None);
}

#[test]
fn spawned_tasks_get_fresh_ids_and_are_ready_at_once() {
    let mut executor = Executor::new();
    assert_eq!(executor.spawn("keyboard"), Ok(0));
    assert_eq!(executor.spawn("serial"), Ok(1));
    assert_eq!(executor.spawn("other"), Ok(2));
    assert!(!executor.is_idle());
    assert_eq!(executor.run(), Some((0, "keyboard")));
    assert_eq!(executor.run(), Some((1, "serial")));
    assert_eq!(executor.run(), Some((2, "other")));
    assert_eq!(executor.run(), None);
    assert!(executor.is_idle());
}

#[test]
fn suspended_task_waits_for_its_wake() {
    let mut executor = Executor::new();
    let id = executor.spawn(10u32).unwrap();
    let (polled, task) = executor.run().unwrap();
    assert_eq!((polled, task), (id, 10));
    executor.suspend(id, task + 1);
    assert_eq!(executor.run(), None);
    executor.wake(id);
    assert_eq!(executor.run(), Some((id, 11)));
}

#[test]
fn other_tasks_get_their_turn_while_one_is_suspended() {
    let mut executor = Executor::new();
    let a = executor.spawn('a').unwrap();
    let b = executor.spawn('b').unwrap();
    let (first, task) = executor.run().unwrap();
    assert_eq!(first, a);
    executor.suspend(first, task);
    assert_eq!(executor.run(), Some((b, 'b')));
    executor.suspend(b, 'b');
    executor.wake(b);
    executor.wake(a);
    assert_eq!(executor.run(), Some((b, 'b')));
    assert_eq!(executor.run(), Some((a, 'a')));
}

#[test]
fn wake_of_a_finished_task_is_passed_over() {
    let mut executor = Executor::new();
    let a = executor.spawn("a").unwrap();
    let b = executor.spawn("b").unwrap();
    // Task a is polled and finishes: it is not handed back.
    assert_eq!(executor.run(), Some((a, "a")));
    executor.wake(a);
    executor.wake(a);
    assert_eq!(executor.run(), Some((b, "b")));
    assert_eq!(executor.run(), None);
    assert!(executor.is_idle());
}

#[test]
fn wake_during_a_poll_is_kept() {
    let mut executor = Executor::new();
    let id = executor.spawn(0u8).unwrap();
    let (_, task) = executor.run().unwrap();
    // The interrupt wakes the task while it is being polled.
    executor.wake(id);
    executor.suspend(id, task);
    assert_eq!(executor.run(), Some((id, 0)));
}

#[test]
fn ids_are_not_reused_after_a_task_finished() {
    let mut executor = Executor::new();
    let first = executor.spawn(()).unwrap();
    assert_eq!(executor.run(), Some((first, ())));
    let second = executor.spawn(()).unwrap();
    assert_ne!(first, second);
    assert_eq!(second, 1);
}
