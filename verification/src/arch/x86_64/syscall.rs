//! The register values that set up `syscall`/`sysret` and the jump to ring 3.
use vstd::prelude::*;

verus! {

pub const STAR: u32 = 0xC000_0081;
pub const LSTAR: u32 = 0xC000_0082;
pub const SFMASK: u32 = 0xC000_0084;
/// RFLAGS bits that `syscall` clears: the interrupt flag.
pub const SYSCALL_FLAG_MASK: u64 = 0x200;
/// RFLAGS of the first user-mode instruction: interrupts on, and the always-set bit 1.
pub const USER_RFLAGS: u64 = 0x202;

/// STAR: the kernel code selector in bits 32..48, the user data selector with RPL 3 in bits
/// 48..64.
pub fn star_value(kernel_code_selector: u16, user_data_selector: u16) -> (r: u64)
    ensures
        r == kernel_code_selector as nat * 0x1_0000_0000 + (user_data_selector | 3) as nat
            * 0x1_0000_0000_0000,
{
    let rpl3 = user_data_selector | 3;
    let r = ((kernel_code_selector as u64) << 32) | ((rpl3 as u64) << 48);
    assert(r == kernel_code_selector as u64 * 0x1_0000_0000 + rpl3 as u64 * 0x1_0000_0000_0000)
        by (bit_vector)
        requires
            r == ((kernel_code_selector as u64) << 32) | ((rpl3 as u64) << 48),
    ;
    r
}

/// EFER with system-call extensions (bit 0) enabled.
pub fn efer_with_sce(efer: u64) -> (r: u64)
    ensures
        r == efer | 1,
{
    efer | 1
}

/// A segment selector with requested privilege level 3.
pub fn user_selector(selector: u16) -> (r: u64)
    ensures
        r == (selector | 3) as u64,
{
    (selector | 3) as u64
}

} // verus!
