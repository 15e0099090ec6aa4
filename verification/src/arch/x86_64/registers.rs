//! Control registers and model-specific registers: the values that pass through them.
use vstd::prelude::*;

verus! {

/// Control register 3, the page-table root.
pub struct Cr3;

/// Control register 0.
pub struct Cr0;

/// Control register 4.
pub struct Cr4;

/// The GS base registers used around `swapgs`.
pub struct GsBase;

/// A model-specific register, by number.
#[derive(Clone, Copy, Debug, PartialEq, Eq)]
pub struct Msr {
    reg: u32,
}

impl Msr {
    pub closed spec fn spec_reg(&self) -> u32 {
        self.reg
    }

    pub fn new(reg: u32) -> (r: Self)
        ensures
            r.spec_reg() == reg,
    {
        Msr { reg }
    }

    /// The register's number.
    pub fn reg(&self) -> (r: u32)
        ensures
            r == self.spec_reg(),
    {
        self.reg
    }
}

/// Extended feature enable register.
pub const EFER: u32 = 0xC000_0080;
pub const FS_BASE: u32 = 0xC000_0100;
pub const GS_BASE: u32 = 0xC000_0101;
pub const KERNEL_GS_BASE: u32 = 0xC000_0102;

/// A 64-bit register value from the high and low halves that `rdmsr` and `xgetbv` return in
/// EDX and EAX.
pub fn join_halves(high: u32, low: u32) -> (r: u64)
    ensures
        r == high as nat * 0x1_0000_0000 + low as nat,
{
    let r = ((high as u64) << 32) | (low as u64);
    assert(r == high as u64 * 0x1_0000_0000 + low as u64) by (bit_vector)
        requires
            r == ((high as u64) << 32) | (low as u64),
    ;
    r
}

/// The low and high halves of a value, as `wrmsr` and `xsetbv` take them in EAX and EDX.
pub fn split_halves(value: u64) -> (r: (u32, u32))
    ensures
        r.0 == value % 0x1_0000_0000,
        r.1 == value / 0x1_0000_0000,
{
    let low = value as u32;
    let high = (value >> 32) as u32;
    assert(low == value % 0x1_0000_0000 && high == value / 0x1_0000_0000) by (bit_vector)
        requires
            low == value as u32,
            high == (value >> 32) as u32,
    ;
    (low, high)
}

/// Splitting a value into halves and joining them gives the value back, and the other way
/// round.
pub proof fn lemma_halves_roundtrip(value: u64, high: u32, low: u32)
    ensures
        (value / 0x1_0000_0000) * 0x1_0000_0000 + value % 0x1_0000_0000 == value,
        (high as nat * 0x1_0000_0000 + low as nat) % 0x1_0000_0000 == low,
        (high as nat * 0x1_0000_0000 + low as nat) / 0x1_0000_0000 == high,
{
    assert((value / 0x1_0000_0000) * 0x1_0000_0000 + value % 0x1_0000_0000 == value) by (nonlinear_arith);
    assert((high as nat * 0x1_0000_0000 + low as nat) % 0x1_0000_0000 == low) by (nonlinear_arith)
        requires
            low < 0x1_0000_0000,
    ;
    assert((high as nat * 0x1_0000_0000 + low as nat) / 0x1_0000_0000 == high) by (nonlinear_arith)
        requires
            low < 0x1_0000_0000,
    ;
}

} // verus!
