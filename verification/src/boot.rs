//! The kernel's start-up decisions: the PCI scan, the worker heartbeats, the sleep futures
//! and the GPU and install tasks it spawns.
use vstd::prelude::*;
use crate::drivers::pci::{PciBar, PciDevice};

verus! {

/// PCI class of display controllers.
pub const DISPLAY_CLASS: u8 = 0x03;

/// The compute shader the GPU task submits, and where its data lies.
pub const GPU_SHADER_ID: u32 = 0x70FF;
pub const GPU_SHADER_DATA: u64 = 0x300_0000;

/// Ticks the install task waits before it runs the install pipeline.
pub const INSTALL_DELAY_TICKS: u64 = 30;

/// Ticks the GPU task waits before it submits its shader.
pub const GPU_DELAY_TICKS: u64 = 10;

/// Ticks the diagnostics task waits before it reports.
pub const DIAGNOSTICS_DELAY_TICKS: u64 = 5;

/// Worker `thread_id` sleeps 50 ticks plus 15 per worker before it, so no two beat together.
pub fn worker_base_sleep(thread_id: u32) -> (r: u64)
    ensures
        r == 50 + 15 * thread_id,
{
    50 + (thread_id as u64 * 15)
}

/// A worker reports a heartbeat on ticks that are multiples of a thousand.
pub fn worker_heartbeat_due(tick: u64) -> (r: bool)
    ensures
        r == (tick % 1000 == 0),
{
    tick % 1000 == 0
}

/// A sleep is over once the tick has reached its target.
pub fn sleep_ready(current_tick: u64, target_tick: u64) -> (r: bool)
    ensures
        r == (current_tick >= target_tick),
{
    current_tick >= target_tick
}

/// The PCI scan yields to other tasks after every 32nd bus (bus 0, 32, 64, ...).
pub fn scan_yields_after(bus: u8) -> (r: bool)
    ensures
        r == (bus % 32 == 0),
{
    bus % 32 == 0
}

/// What the scan does with a function it found.
#[derive(Clone, Copy, Debug, PartialEq, Eq, Structural)]
pub struct FunctionRoles {
    /// A display controller: its BAR0 is the framebuffer and it may be a VirtIO GPU.
    pub display: bool,
    /// A transitional VirtIO block device: a candidate install target.
    pub virtio_block: bool,
}

pub fn function_roles(dev: &PciDevice) -> (r: FunctionRoles)
    ensures
        r.display == (dev.class == DISPLAY_CLASS),
        r.virtio_block == (dev.vendor_id == 0x1AF4 && dev.device_id == 0x1001),
{
    FunctionRoles {
        display: dev.class == DISPLAY_CLASS,
        virtio_block: dev.vendor_id == 0x1AF4 && dev.device_id == 0x1001,
    }
}

/// The framebuffer base from a display controller's BAR0: the base of a memory BAR, none for
/// an I/O BAR or an unreadable one.
pub fn bar0_memory_base(bar0: Option<PciBar>) -> (r: Option<u64>)
    ensures
        bar0 matches Some(PciBar::Memory32 { base, .. }) ==> r == Some(base),
        bar0 matches Some(PciBar::Memory64 { base, .. }) ==> r == Some(base),
        bar0 matches Some(PciBar::Io { .. }) ==> r is None,
        bar0 is None ==> r is None,
{
    match bar0 {
        Some(PciBar::Memory32 { base, .. }) => Some(base),
        Some(PciBar::Memory64 { base, .. }) => Some(base),
        Some(PciBar::Io { .. }) => None,
        None => None,
    }
}

/// The framebuffer address that the red-band test draws at: the BAR base with its low four
/// flag bits cleared.
pub fn framebuffer_address(bar_base: u64) -> (r: u64)
    ensures
        r == bar_base - bar_base % 16,
{
    let r = bar_base & !0xFu64;
    assert(r == bar_base - bar_base % 16) by (bit_vector)
        requires
            r == bar_base & !0xFu64,
    ;
    r
}

} // verus!
