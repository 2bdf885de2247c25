//! User processes: a thread whose first run leaves the kernel for user
//! mode, the memory that its code and stack need, and the frame with which
//! it gets there.

use vstd::prelude::*;
use x86_64::structures::paging::{Page, Size4KiB};
use x86_64::VirtAddr;
use crate::context::{Context, INITIAL_RFLAGS};
use crate::error::KernelError;
use crate::thread::{
    is_first_unused,
    is_full,
    lifecycle_step,
    stack_top_of,
    table_wf,
    valid_transition,
    Thread,
    ThreadState,
    ThreadTable,
    STACK_SIZE,
};

verus! {

/// The virtual address at which user code starts.
pub const USER_CODE_START: u64 = 0x0000_1000_0000_0000;

/// The virtual address at which the user stack ends; the stack grows down
/// from here.
pub const USER_STACK_TOP: u64 = 0x0000_2000_0000_0000;

/// The number of pages of the user stack.
pub const USER_STACK_PAGES: u64 = 4;

/// The size of a page in bytes.
pub const PAGE_SIZE: u64 = 4096;

/// Page table bit: the page is present.
pub const PAGE_PRESENT: u64 = 1;

/// Page table bit: the page can be written.
pub const PAGE_WRITABLE: u64 = 1 << 1;

/// Page table bit: the page can be used from user mode.
pub const PAGE_USER_ACCESSIBLE: u64 = 1 << 2;

/// The flags with which user mode is entered: interrupts enabled, and the
/// bit that is always set.
pub const USER_RFLAGS: u64 = 0x202;

/// Whether `address` is a virtual address that the processor accepts: its
/// bits 47 to 63 are all equal.
pub open spec fn is_canonical(address: u64) -> bool {
    address < 0x0000_8000_0000_0000 || address >= 0xffff_8000_0000_0000
}

/// `Page::<Size4KiB>::containing_address` applied to `VirtAddr::new` of the
/// address, and from the page its `start_address` as a number: the address
/// rounded down to a multiple of 4096. `VirtAddr::new` panics on an address
/// that is not canonical, which is excluded here.
#[verifier::external_body]
fn page_start(address: u64) -> (start: u64)
    requires
        is_canonical(address),
    ensures
        start == address - address % 4096,
{
    Page::<Size4KiB>::containing_address(VirtAddr::new(address)).start_address().as_u64()
}

/// The start of the page that holds `address`, or `None` if `address` is
/// not canonical and so lies in no page.
pub fn containing_page(address: u64) -> (start: Option<u64>)
    ensures
        match start {
            Some(start) => is_canonical(address) && start == address - address % PAGE_SIZE,
            None => !is_canonical(address),
        },
{
    if address < 0x0000_8000_0000_0000 || address >= 0xffff_8000_0000_0000 {
        Some(page_start(address))
    } else {
        None
    }
}

/// A page that has to be mapped, and how.
#[derive(Debug, Clone, Copy, PartialEq, Eq, Structural)]
pub struct PageMapping {
    /// The virtual address at which the page starts.
    pub page: u64,
    /// The page table flags of the mapping.
    pub flags: u64,
}

/// The flags of every user page: present, writable, accessible from user
/// mode.
pub open spec fn user_flags() -> u64 {
    7
}

/// The mapping of the user stack page number `i`, counted from the lowest.
pub open spec fn stack_mapping(i: int) -> PageMapping {
    PageMapping {
        page: (USER_STACK_TOP - USER_STACK_PAGES * PAGE_SIZE + i * PAGE_SIZE) as u64,
        flags: user_flags(),
    }
}

/// The pages of a user process in the order in which they are mapped: the
/// code page, then the stack pages from the lowest up.
pub open spec fn user_mappings() -> Seq<PageMapping> {
    seq![
        PageMapping { page: USER_CODE_START, flags: user_flags() },
        stack_mapping(0),
        stack_mapping(1),
        stack_mapping(2),
        stack_mapping(3),
    ]
}

/// The pages that a user process needs: one page for its code at
/// `USER_CODE_START`, and `USER_STACK_PAGES` pages of stack that end at
/// `USER_STACK_TOP`, each present, writable and accessible from user mode.
/// The caller gets a frame for each and maps it, in this order.
pub fn map_user_pages() -> (plan: Vec<PageMapping>)
    ensures
        plan@ == user_mappings(),
{
    let flags: u64 = PAGE_PRESENT | PAGE_WRITABLE | PAGE_USER_ACCESSIBLE;
    assert(flags == 7) by (bit_vector)
        requires
            flags == 1u64 | (1u64 << 1) | (1u64 << 2),
    ;
    let mut plan: Vec<PageMapping> = Vec::new();
    plan.push(PageMapping { page: page_start(USER_CODE_START), flags });
    let stack_start: u64 = USER_STACK_TOP - USER_STACK_PAGES * PAGE_SIZE;
    let mut i: u64 = 0;
    while i < USER_STACK_PAGES
        invariant
            i <= USER_STACK_PAGES,
            flags == user_flags(),
            stack_start == USER_STACK_TOP - USER_STACK_PAGES * PAGE_SIZE,
            plan@.len() == 1 + i,
            plan@[0] == (PageMapping { page: USER_CODE_START, flags: user_flags() }),
            forall|k: int| 0 <= k < i ==> plan@[1 + k] == stack_mapping(k),
        decreases USER_STACK_PAGES - i,
    {
        plan.push(PageMapping { page: page_start(stack_start + i * PAGE_SIZE), flags });
        i = i + 1;
    }
    assert(plan@ =~= user_mappings());
    plan
}

/// The machine code that a user process runs: it clears a register and
/// counts it up forever.
pub open spec fn user_code_bytes() -> Seq<u8> {
    seq![0x48, 0x31, 0xC0, 0x48, 0xFF, 0xC0, 0xEB, 0xFB]
}

/// The machine code of the user process. The caller copies it to
/// `USER_CODE_START` once that page is mapped.
pub fn copy_user_code_to_memory() -> (code: Vec<u8>)
    ensures
        code@ == user_code_bytes(),
{
    let mut code: Vec<u8> = Vec::new();
    code.push(0x48);
    code.push(0x31);
    code.push(0xC0);
    code.push(0x48);
    code.push(0xFF);
    code.push(0xC0);
    code.push(0xEB);
    code.push(0xFB);
    assert(code@ =~= user_code_bytes());
    code
}

/// What a return from interrupt pops to enter user mode, and the selector
/// for the data segment registers.
#[derive(Debug, Clone, Copy, PartialEq, Eq, Structural)]
pub struct InterruptReturnFrame {
    /// Where user code starts to run.
    pub rip: u64,
    /// The code segment selector of the target ring.
    pub cs: u64,
    /// The flags of the user thread.
    pub rflags: u64,
    /// The top of the user stack.
    pub rsp: u64,
    /// The stack segment selector of the target ring. The data segment
    /// registers get the same selector.
    pub ss: u64,
}

/// The frame with which a thread leaves for user mode, one way: execution
/// goes on at `USER_CODE_START`, on the stack at `USER_STACK_TOP`, with
/// interrupts enabled, under the given selectors. The caller pushes the
/// frame and returns from interrupt.
pub fn jump_to_usermode(user_cs: u16, user_ss: u16) -> (frame: InterruptReturnFrame)
    ensures
        frame == (InterruptReturnFrame {
            rip: USER_CODE_START,
            cs: user_cs as u64,
            rflags: USER_RFLAGS,
            rsp: USER_STACK_TOP,
            ss: user_ss as u64,
        }),
{
    InterruptReturnFrame {
        rip: USER_CODE_START,
        cs: user_cs as u64,
        rflags: USER_RFLAGS,
        rsp: USER_STACK_TOP,
        ss: user_ss as u64,
    }
}

/// The control block of a user process just created in a slot that held
/// `slot`: a runnable thread that starts in the kernel at `trampoline`, on
/// the kernel stack that ends at `stack_top`, and carries the selectors and
/// the stack pointer of its user mode.
pub open spec fn created_process(
    slot: Thread,
    tid: usize,
    user_cs: u16,
    user_ss: u16,
    trampoline: u64,
    stack_top: u64,
) -> Thread {
    Thread {
        tid,
        state: ThreadState::Runnable,
        context: Context {
            rsp: stack_top,
            rip: trampoline,
            rflags: INITIAL_RFLAGS,
            cs: user_cs as u64,
            ss: user_ss as u64,
            rsp3: USER_STACK_TOP,
            ..slot.context
        },
        kstack: stack_top,
    }
}

/// Creates a user process: a thread with a kernel stack of `STACK_SIZE`
/// bytes at `stack_base`, like a kernel thread, whose first run starts at
/// `trampoline`, the code that leaves for user mode under the selectors
/// `user_cs` and `user_ss`. The thread takes the lowest unused slot, whose
/// index is returned. Fails with `ResourceExhaustion`, changing nothing,
/// exactly when the table is full.
pub fn create_user_process(
    table: &mut ThreadTable,
    user_cs: u16,
    user_ss: u16,
    trampoline: u64,
    stack_base: u64,
) -> (r: Result<usize, KernelError>)
    requires
        stack_top_of(stack_base) <= u64::MAX,
    ensures
        table_wf(old(table)@) ==> table_wf(final(table)@),
        lifecycle_step(old(table)@, final(table)@),
        match r {
            Ok(tid) => {
                &&& is_first_unused(old(table)@, tid as int)
                &&& final(table)@ == old(table)@.update(
                    tid as int,
                    created_process(
                        old(table)@[tid as int],
                        tid,
                        user_cs,
                        user_ss,
                        trampoline,
                        stack_top_of(stack_base) as u64,
                    ),
                )
            },
            Err(e) => {
                &&& e == KernelError::ResourceExhaustion
                &&& is_full(old(table)@)
                &&& final(table)@ == old(table)@
            },
        },
{
    let tid = match table.allocate() {
        Ok(tid) => tid,
        Err(e) => {
            return Err(e);
        },
    };
    let stack_top: u64 = stack_base + STACK_SIZE as u64;
    match table.initialize(tid, trampoline, stack_top) {
        Ok(()) => {},
        Err(e) => {
            return Err(e);
        },
    }
    let ghost created = table@;
    let mut context = table.context(tid);
    context.cs = user_cs as u64;
    context.ss = user_ss as u64;
    context.rsp3 = USER_STACK_TOP;
    table.set_context(tid, context);
    proof {
        assert(table@ =~= old(table)@.update(
            tid as int,
            created_process(
                old(table)@[tid as int],
                tid,
                user_cs,
                user_ss,
                trampoline,
                stack_top,
            ),
        ));
        assert forall|i: int| 0 <= i < old(table)@.len() implies #[trigger] table@[i].state == old(
            table,
        )@[i].state || valid_transition(old(table)@[i].state, table@[i].state) by {
            assert(created[i].state == old(table)@[i].state || valid_transition(
                old(table)@[i].state,
                created[i].state,
            ));
        }
    }
    Ok(tid)
}

} // verus!
