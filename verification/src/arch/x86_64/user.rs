//! The first ring-3 program: where it is mapped and the frame that `iretq` enters it with.
use vstd::prelude::*;
use crate::arch::x86_64::syscall::{user_selector, USER_RFLAGS};

verus! {

/// Virtual address of the user code page.
pub const USER_CODE_BASE: u64 = 0x1000_0000;

/// Virtual address of the user stack page; the stack starts at its top.
pub const USER_STACK_BASE: u64 = 0x2000_0000;

/// The program: `mov rax, 0xCAFE; mov rdi, 0x1337; syscall; jmp $`.
pub open spec fn hello_program_bytes() -> Seq<u8> {
    seq![
        0x48u8, 0xC7, 0xC0, 0xFE, 0xCA, 0x00, 0x00, 0x48, 0xC7, 0xC7, 0x37, 0x13, 0x00, 0x00,
        0x0F, 0x05, 0xEB, 0xFE,
    ]
}

pub fn hello_program() -> (r: Vec<u8>)
    ensures
        r@ == hello_program_bytes(),
{
    vec![
        0x48u8, 0xC7, 0xC0, 0xFE, 0xCA, 0x00, 0x00, 0x48, 0xC7, 0xC7, 0x37, 0x13, 0x00, 0x00,
        0x0F, 0x05, 0xEB, 0xFE,
    ]
}

/// The five words `iretq` pops, in push order: SS and RSP of the user stack, RFLAGS with
/// interrupts on, CS and RIP of the user code. Both selectors carry RPL 3.
#[derive(Clone, Copy, Debug, PartialEq, Eq, Structural)]
pub struct IretFrame {
    pub ss: u64,
    pub rsp: u64,
    pub rflags: u64,
    pub cs: u64,
    pub rip: u64,
}

pub fn user_entry_frame(code_ptr: u64, stack_ptr: u64, user_code_selector: u16, user_data_selector: u16) -> (r: IretFrame)
    ensures
        r == (IretFrame {
            ss: (user_data_selector | 3) as u64,
            rsp: stack_ptr,
            rflags: USER_RFLAGS,
            cs: (user_code_selector | 3) as u64,
            rip: code_ptr,
        }),
{
    IretFrame {
        ss: user_selector(user_data_selector),
        rsp: stack_ptr,
        rflags: USER_RFLAGS,
        cs: user_selector(user_code_selector),
        rip: code_ptr,
    }
}

/// The entry frame of the hello program: its code page, the top of its stack page.
pub fn hello_entry_frame(user_code_selector: u16, user_data_selector: u16) -> (r: IretFrame)
    ensures
        r.rip == USER_CODE_BASE,
        r.rsp == USER_STACK_BASE + 4096,
        r == user_entry_frame_spec(USER_CODE_BASE, (USER_STACK_BASE + 4096) as u64, user_code_selector, user_data_selector),
{
    user_entry_frame(USER_CODE_BASE, USER_STACK_BASE + 4096, user_code_selector, user_data_selector)
}

pub open spec fn user_entry_frame_spec(code_ptr: u64, stack_ptr: u64, user_code_selector: u16, user_data_selector: u16) -> IretFrame {
    IretFrame {
        ss: (user_data_selector | 3) as u64,
        rsp: stack_ptr,
        rflags: USER_RFLAGS,
        cs: (user_code_selector | 3) as u64,
        rip: code_ptr,
    }
}

} // verus!
