use ferrios::context::Context;
use ferrios::error::KernelError;
use ferrios::thread::{
    create_kernel_thread, next_tid, Thread, ThreadState, ThreadTable, NTHREAD, STACK_SIZE,
};

#[test]
fn new_thread_is_unused_and_zeroed() {
    let thread = Thread::new();
    assert_eq!(thread.tid, 0);
    assert_eq!(thread.state, ThreadState::Unused);
    assert_eq!(thread.kstack, 0);
    assert_eq!(thread.context, Context::new());
}

#[test]
fn stack_size_is_four_pages() {
    assert_eq!(STACK_SIZE, 16384);
    assert_eq!(NTHREAD, 64);
}

#[test]
fn new_table_is_all_unused() {
    let table = ThreadTable::new();
    assert_eq!(table.capacity(), NTHREAD);
    for tid in 0..NTHREAD {
        assert_eq!(table.state(tid), ThreadState::Unused);
        assert_eq!(table.thread(tid), Thread::new());
    }
    assert_eq!(next_tid(&table), Some(0));
    assert_eq!(table.allocate(), Ok(0));
}

#[test]
fn allocate_does_not_take_the_slot() {
    let table = ThreadTable::new();
    assert_eq!(table.allocate(), Ok(0));
    assert_eq!(table.allocate(), Ok(0));
    assert_eq!(table.state(0), ThreadState::Unused);
}

#[test]
fn created_thread_is_runnable_with_initial_context() {
    let mut table = ThreadTable::new();
    let tid = create_kernel_thread(&mut table, 0xdead_beef, 0x10_0000).unwrap();
    assert_eq!(tid, 0);
    let thread = table.thread(0);
    assert_eq!(thread.tid, 0);
    assert_eq!(thread.state, ThreadState::Runnable);
    assert_eq!(thread.kstack, 0x10_4000);
    let mut expected = Context::new();
    expected.rsp = 0x10_4000;
    expected.rip = 0xdead_beef;
    expected.rflags = 0x200;
    assert_eq!(thread.context, expected);
    assert_eq!(table.context(0), expected);
    assert_eq!(next_tid(&table), Some(1));
    for other in 1..NTHREAD {
        assert_eq!(table.thread(other), Thread::new());
    }
}

#[test]
fn allocation_fills_the_table_then_fails() {
    let mut table = ThreadTable::new();
    let mut seen = vec![false; NTHREAD];
    for expected in 0..NTHREAD {
        let tid = create_kernel_thread(&mut table, 0x1000, 0x8000).unwrap();
        assert_eq!(tid, expected);
        assert!(!seen[tid]);
        seen[tid] = true;
        assert_eq!(table.thread(tid).tid, tid);
    }
    assert!(seen.iter().all(|used| *used));
    assert_eq!(next_tid(&table), None);
    assert_eq!(table.allocate(), Err(KernelError::ResourceExhaustion));
    let before: Vec<Thread> = (0..NTHREAD).map(|tid| table.thread(tid)).collect();
    assert_eq!(
        create_kernel_thread(&mut table, 0x1000, 0x8000),
        Err(KernelError::ResourceExhaustion)
    );
    let after: Vec<Thread> = (0..NTHREAD).map(|tid| table.thread(tid)).collect();
    assert_eq!(before, after);
}

#[test]
fn last_slot_is_allocated_too() {
    let mut table = ThreadTable::new();
    for _ in 0..NTHREAD - 1 {
        create_kernel_thread(&mut table, 0x1000, 0x8000).unwrap();
    }
    assert_eq!(next_tid(&table), Some(NTHREAD - 1));
    assert_eq!(create_kernel_thread(&mut table, 0x1000, 0x8000), Ok(NTHREAD - 1));
}

#[test]
fn ids_handed_out_stay_taken_through_the_life_cycle() {
    let mut table = ThreadTable::new();
    let first = create_kernel_thread(&mut table, 0x1000, 0x8000).unwrap();
    table.transition(first, ThreadState::Running).unwrap();
    table.transition(first, ThreadState::Zombie).unwrap();
    let second = create_kernel_thread(&mut table, 0x1000, 0x8000).unwrap();
    assert_ne!(first, second);
    assert_eq!(second, 1);
}

#[test]
fn initialize_fills_an_unused_slot_only() {
    let mut table = ThreadTable::new();
    assert_eq!(table.initialize(5, 0x4000, 0x9000), Ok(()));
    let thread = table.thread(5);
    assert_eq!(thread.tid, 5);
    assert_eq!(thread.state, ThreadState::Runnable);
    assert_eq!(thread.kstack, 0x9000);
    assert_eq!(thread.context.rip, 0x4000);
    assert_eq!(thread.context.rsp, 0x9000);
    assert_eq!(thread.context.rflags, 0x200);
    assert_eq!(next_tid(&table), Some(0));

    assert_eq!(table.initialize(5, 0x5000, 0xa000), Err(KernelError::StateCorruption));
    assert_eq!(table.thread(5), thread);
    assert_eq!(table.initialize(NTHREAD, 0x5000, 0xa000), Err(KernelError::StateCorruption));
}

#[test]
fn life_cycle_steps_are_accepted() {
    let mut table = ThreadTable::new();
    assert_eq!(table.transition(3, ThreadState::Runnable), Ok(()));
    assert_eq!(table.state(3), ThreadState::Runnable);
    assert_eq!(table.thread(3).tid, 3);
    assert_eq!(table.transition(3, ThreadState::Running), Ok(()));
    assert_eq!(table.state(3), ThreadState::Running);
    assert_eq!(table.transition(3, ThreadState::Runnable), Ok(()));
    assert_eq!(table.state(3), ThreadState::Runnable);
    assert_eq!(table.transition(3, ThreadState::Running), Ok(()));
    assert_eq!(table.transition(3, ThreadState::Zombie), Ok(()));
    assert_eq!(table.state(3), ThreadState::Zombie);
}

#[test]
fn every_other_step_is_state_corruption() {
    let all = [
        ThreadState::Unused,
        ThreadState::Embryo,
        ThreadState::Sleeping,
        ThreadState::Runnable,
        ThreadState::Running,
        ThreadState::Zombie,
    ];
    let allowed = [
        (ThreadState::Unused, ThreadState::Runnable),
        (ThreadState::Runnable, ThreadState::Running),
        (ThreadState::Running, ThreadState::Runnable),
        (ThreadState::Running, ThreadState::Zombie),
    ];
    // A table with one slot in each state that the life cycle reaches.
    let reach = |state: ThreadState| -> ThreadTable {
        let mut table = ThreadTable::new();
        match state {
            ThreadState::Unused => {}
            ThreadState::Runnable => {
                table.transition(0, ThreadState::Runnable).unwrap();
            }
            ThreadState::Running => {
                table.transition(0, ThreadState::Runnable).unwrap();
                table.transition(0, ThreadState::Running).unwrap();
            }
            ThreadState::Zombie => {
                table.transition(0, ThreadState::Runnable).unwrap();
                table.transition(0, ThreadState::Running).unwrap();
                table.transition(0, ThreadState::Zombie).unwrap();
            }
            ThreadState::Embryo | ThreadState::Sleeping => unreachable!(),
        }
        table
    };
    for from in [
        ThreadState::Unused,
        ThreadState::Runnable,
        ThreadState::Running,
        ThreadState::Zombie,
    ] {
        for to in all {
            let mut table = reach(from);
            let before = table.thread(0);
            let result = table.transition(0, to);
            if allowed.contains(&(from, to)) {
                assert_eq!(result, Ok(()));
                assert_eq!(table.state(0), to);
            } else {
                assert_eq!(result, Err(KernelError::StateCorruption));
                assert_eq!(table.thread(0), before);
            }
        }
    }
}

#[test]
fn running_to_running_is_rejected() {
    let mut table = ThreadTable::new();
    create_kernel_thread(&mut table, 0x1000, 0x8000).unwrap();
    table.transition(0, ThreadState::Running).unwrap();
    assert_eq!(
        table.transition(0, ThreadState::Running),
        Err(KernelError::StateCorruption)
    );
    assert_eq!(table.state(0), ThreadState::Running);
}

#[test]
fn transition_beyond_the_table_is_rejected() {
    let mut table = ThreadTable::new();
    assert_eq!(
        table.transition(NTHREAD, ThreadState::Runnable),
        Err(KernelError::StateCorruption)
    );
}

#[test]
fn set_context_replaces_the_context_only() {
    let mut table = ThreadTable::new();
    create_kernel_thread(&mut table, 0x1000, 0x8000).unwrap();
    let before = table.thread(0);
    let mut context = before.context;
    context.rbx = 77;
    context.rip = 0x1234;
    table.set_context(0, context);
    let after = table.thread(0);
    assert_eq!(after.context, context);
    assert_eq!(after.tid, before.tid);
    assert_eq!(after.state, before.state);
    assert_eq!(after.kstack, before.kstack);
}
