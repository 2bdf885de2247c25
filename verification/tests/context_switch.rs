use ferrios::context::{switch_context, Context, Registers, INITIAL_RFLAGS};

fn scrambled(seed: &mut u64) -> u64 {
    *seed = seed
        .wrapping_mul(6364136223846793005)
        .wrapping_add(1442695040888963407);
    *seed ^ (*seed >> 29)
}

fn scrambled_registers(seed: &mut u64) -> Registers {
    Registers {
        r15: scrambled(seed),
        r14: scrambled(seed),
        r13: scrambled(seed),
        r12: scrambled(seed),
        rbx: scrambled(seed),
        rbp: scrambled(seed),
        rsp: scrambled(seed),
        rip: scrambled(seed),
        rflags: scrambled(seed),
    }
}

fn scrambled_context(seed: &mut u64) -> Context {
    Context {
        r15: scrambled(seed),
        r14: scrambled(seed),
        r13: scrambled(seed),
        r12: scrambled(seed),
        rbx: scrambled(seed),
        rbp: scrambled(seed),
        rsp: scrambled(seed),
        rip: scrambled(seed),
        rflags: scrambled(seed),
        cs: scrambled(seed),
        ss: scrambled(seed),
        rsp3: scrambled(seed),
    }
}

#[test]
fn new_context_is_zero() {
    let context = Context::new();
    assert_eq!(
        context,
        Context {
            r15: 0,
            r14: 0,
            r13: 0,
            r12: 0,
            rbx: 0,
            rbp: 0,
            rsp: 0,
            rip: 0,
            rflags: 0,
            cs: 0,
            ss: 0,
            rsp3: 0
        }
    );
}

#[test]
fn start_at_sets_entry_stack_and_flags() {
    let mut context = Context::new();
    context.r12 = 9;
    context.cs = 0x1b;
    context.start_at(0xffff_8000_0000_1000, 0x7000);
    assert_eq!(context.rip, 0xffff_8000_0000_1000);
    assert_eq!(context.rsp, 0x7000);
    assert_eq!(context.rflags, 0x200);
    assert_eq!(INITIAL_RFLAGS, 0x200);
    assert_eq!(context.r12, 9);
    assert_eq!(context.cs, 0x1b);
}

#[test]
fn switch_saves_the_processor_and_loads_the_target() {
    let mut cpu = Registers {
        r15: 1,
        r14: 2,
        r13: 3,
        r12: 4,
        rbx: 5,
        rbp: 6,
        rsp: 7,
        rip: 8,
        rflags: 9,
    };
    let mut from = Context::new();
    from.cs = 0x23;
    from.ss = 0x1b;
    from.rsp3 = 0x2000;
    let to = Context {
        r15: 11,
        r14: 12,
        r13: 13,
        r12: 14,
        rbx: 15,
        rbp: 16,
        rsp: 17,
        rip: 18,
        rflags: 19,
        cs: 20,
        ss: 21,
        rsp3: 22,
    };
    switch_context(&mut cpu, &mut from, &to);
    assert_eq!(
        from,
        Context {
            r15: 1,
            r14: 2,
            r13: 3,
            r12: 4,
            rbx: 5,
            rbp: 6,
            rsp: 7,
            rip: 8,
            rflags: 9,
            cs: 0x23,
            ss: 0x1b,
            rsp3: 0x2000
        }
    );
    assert_eq!(
        cpu,
        Registers {
            r15: 11,
            r14: 12,
            r13: 13,
            r12: 14,
            rbx: 15,
            rbp: 16,
            rsp: 17,
            rip: 18,
            rflags: 19
        }
    );
    assert_eq!(to.saved_registers(), cpu);
}

#[test]
fn switch_round_trip_restores_every_register() {
    let mut seed = 0x5eed_u64;
    for _ in 0..200 {
        let running = scrambled_registers(&mut seed);
        let mut cpu = running;
        let mut a = scrambled_context(&mut seed);
        let mut b = scrambled_context(&mut seed);
        let a_before = a;
        let b_before = b;

        switch_context(&mut cpu, &mut a, &b);
        assert_eq!(cpu, b_before.saved_registers());
        assert_eq!(a.saved_registers(), running);

        // B runs and leaves the processor in some other state.
        cpu = scrambled_registers(&mut seed);
        let left_by_b = cpu;
        switch_context(&mut cpu, &mut b, &a);

        assert_eq!(cpu, running);
        assert_eq!(b.saved_registers(), left_by_b);
        assert_eq!((a.cs, a.ss, a.rsp3), (a_before.cs, a_before.ss, a_before.rsp3));
        assert_eq!((b.cs, b.ss, b.rsp3), (b_before.cs, b_before.ss, b_before.rsp3));
    }
}

#[test]
fn switch_round_trip_through_the_scheduler_context() {
    let mut seed = 42_u64;
    let thread_registers = scrambled_registers(&mut seed);
    let mut cpu = thread_registers;
    let mut thread = Context::new();
    let mut scheduler = scrambled_context(&mut seed);
    let mut other = scrambled_context(&mut seed);
    let other_start = other.saved_registers();

    // The thread yields to the scheduler, the scheduler runs another thread,
    // that one yields, and the scheduler comes back to the first.
    switch_context(&mut cpu, &mut thread, &scheduler);
    switch_context(&mut cpu, &mut scheduler, &other);
    assert_eq!(cpu, other_start);
    cpu = scrambled_registers(&mut seed);
    switch_context(&mut cpu, &mut other, &scheduler);
    switch_context(&mut cpu, &mut scheduler, &thread);
    assert_eq!(cpu, thread_registers);
}
