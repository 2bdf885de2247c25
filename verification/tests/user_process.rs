use ferrios::context::Context;
use ferrios::error::KernelError;
use ferrios::process::{
    containing_page, copy_user_code_to_memory, create_user_process, jump_to_usermode,
    map_user_pages, InterruptReturnFrame, PageMapping, PAGE_PRESENT, PAGE_SIZE,
    PAGE_USER_ACCESSIBLE, PAGE_WRITABLE, USER_CODE_START, USER_RFLAGS, USER_STACK_PAGES,
    USER_STACK_TOP,
};
use ferrios::thread::{create_kernel_thread, ThreadState, ThreadTable, NTHREAD};

#[test]
fn user_address_space_constants() {
    assert_eq!(USER_CODE_START, 0x0000_1000_0000_0000);
    assert_eq!(USER_STACK_TOP, 0x0000_2000_0000_0000);
    assert_eq!(USER_STACK_PAGES, 4);
    assert_eq!(PAGE_SIZE, 4096);
    assert_eq!(PAGE_PRESENT | PAGE_WRITABLE | PAGE_USER_ACCESSIBLE, 7);
    assert_eq!(USER_RFLAGS, 0x202);
}

#[test]
fn containing_page_rounds_down() {
    assert_eq!(containing_page(0), Some(0));
    assert_eq!(containing_page(4095), Some(0));
    assert_eq!(containing_page(4096), Some(4096));
    assert_eq!(
        containing_page(0x0000_1000_0000_0123),
        Some(0x0000_1000_0000_0000)
    );
    assert_eq!(
        containing_page(0x0000_7fff_ffff_ffff),
        Some(0x0000_7fff_ffff_f000)
    );
    assert_eq!(
        containing_page(0xffff_8000_0000_0fff),
        Some(0xffff_8000_0000_0000)
    );
    assert_eq!(
        containing_page(0xffff_ffff_ffff_ffff),
        Some(0xffff_ffff_ffff_f000)
    );
}

#[test]
fn containing_page_of_a_non_canonical_address_is_none() {
    assert_eq!(containing_page(0x0000_8000_0000_0000), None);
    assert_eq!(containing_page(0x8000_0000_0000_0000), None);
    assert_eq!(containing_page(0xffff_7fff_ffff_ffff), None);
}

#[test]
fn user_pages_are_the_code_page_and_four_stack_pages() {
    let flags = 7;
    assert_eq!(
        map_user_pages(),
        vec![
            PageMapping {
                page: 0x0000_1000_0000_0000,
                flags
            },
            PageMapping {
                page: 0x0000_1fff_ffff_c000,
                flags
            },
            PageMapping {
                page: 0x0000_1fff_ffff_d000,
                flags
            },
            PageMapping {
                page: 0x0000_1fff_ffff_e000,
                flags
            },
            PageMapping {
                page: 0x0000_1fff_ffff_f000,
                flags
            },
        ]
    );
}

#[test]
fn user_code_is_the_counting_loop() {
    assert_eq!(
        copy_user_code_to_memory(),
        vec![0x48, 0x31, 0xC0, 0x48, 0xFF, 0xC0, 0xEB, 0xFB]
    );
}

#[test]
fn usermode_frame_holds_selectors_entry_and_stack() {
    assert_eq!(
        jump_to_usermode(0x23, 0x1b),
        InterruptReturnFrame {
            rip: 0x0000_1000_0000_0000,
            cs: 0x23,
            rflags: 0x202,
            rsp: 0x0000_2000_0000_0000,
            ss: 0x1b,
        }
    );
    assert_eq!(jump_to_usermode(0xffff, 0).cs, 0xffff);
}

#[test]
fn user_process_starts_at_the_trampoline_with_its_selectors() {
    let mut table = ThreadTable::new();
    create_kernel_thread(&mut table, 0x1000, 0x8000).unwrap();
    let tid = create_user_process(&mut table, 0x23, 0x1b, 0xffff_8000_0020_0000, 0x40_0000).unwrap();
    assert_eq!(tid, 1);
    let thread = table.thread(1);
    assert_eq!(thread.tid, 1);
    assert_eq!(thread.state, ThreadState::Runnable);
    assert_eq!(thread.kstack, 0x40_4000);
    assert_eq!(
        thread.context,
        Context {
            r15: 0,
            r14: 0,
            r13: 0,
            r12: 0,
            rbx: 0,
            rbp: 0,
            rsp: 0x40_4000,
            rip: 0xffff_8000_0020_0000,
            rflags: 0x200,
            cs: 0x23,
            ss: 0x1b,
            rsp3: 0x0000_2000_0000_0000,
        }
    );
    assert_eq!(table.state(0), ThreadState::Runnable);
    assert_eq!(table.state(2), ThreadState::Unused);
}

#[test]
fn user_process_in_a_full_table_is_resource_exhaustion() {
    let mut table = ThreadTable::new();
    for _ in 0..NTHREAD {
        create_kernel_thread(&mut table, 0x1000, 0x8000).unwrap();
    }
    let last = table.thread(NTHREAD - 1);
    assert_eq!(
        create_user_process(&mut table, 0x23, 0x1b, 0x2000, 0x40_0000),
        Err(KernelError::ResourceExhaustion)
    );
    assert_eq!(table.thread(NTHREAD - 1), last);
}
