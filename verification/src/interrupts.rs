//! The legacy PIC pair's interrupt vectors.
use vstd::prelude::*;

verus! {

/// First vector of the master PIC.
pub const PIC_1_OFFSET: u8 = 32;
/// First vector of the slave PIC.
pub const PIC_2_OFFSET: u8 = 40;

#[derive(Debug, Clone, Copy, PartialEq, Eq, Structural)]
pub enum InterruptIndex {
    Timer,
}

impl InterruptIndex {
    pub fn as_u8(self) -> (r: u8)
        ensures
            r == PIC_1_OFFSET,
    {
        match self {
            InterruptIndex::Timer => PIC_1_OFFSET,
        }
    }

    pub fn as_usize(self) -> (r: usize)
        ensures
            r == PIC_1_OFFSET,
    {
        self.as_u8() as usize
    }
}

/// The vectors whose end of interrupt the catch-all handler signals, slave first.
pub fn catch_all_eoi_vectors() -> (r: (u8, u8))
    ensures
        r == (PIC_2_OFFSET, PIC_1_OFFSET),
{
    (PIC_2_OFFSET, PIC_1_OFFSET)
}

/// The handler that an interrupt vector of the PIC layout is given.
#[derive(Debug, Clone, Copy, PartialEq, Eq, Structural)]
pub enum IdtHandler {
    Timer,
    Ignore,
}

/// The external-interrupt half of the descriptor table, vectors 32 to 255 in order: the timer
/// at the master PIC's first vector, the catch-all everywhere else.
pub fn init_idt() -> (r: Vec<(usize, IdtHandler)>)
    ensures
        r@.len() == 224,
        forall|i: int|
            0 <= i < 224 ==> #[trigger] r@[i] == (
                (32 + i) as usize,
                if 32 + i == PIC_1_OFFSET {
                    IdtHandler::Timer
                } else {
                    IdtHandler::Ignore
                },
            ),
{
    let timer = InterruptIndex::Timer.as_usize();
    let mut table: Vec<(usize, IdtHandler)> = Vec::new();
    let mut v: usize = 32;
    while v < 256
        invariant
            32 <= v <= 256,
            timer == PIC_1_OFFSET,
            table@.len() == v - 32,
            forall|i: int|
                0 <= i < v - 32 ==> #[trigger] table@[i] == (
                    (32 + i) as usize,
                    if 32 + i == PIC_1_OFFSET {
                        IdtHandler::Timer
                    } else {
                        IdtHandler::Ignore
                    },
                ),
        decreases 256 - v,
    {
        let handler = if v == timer {
            IdtHandler::Timer
        } else {
            IdtHandler::Ignore
        };
        table.push((v, handler));
        v = v + 1;
    }
    table
}

} // verus!
