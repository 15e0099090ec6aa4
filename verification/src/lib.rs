//! Verified core of the TUFF-RADICAL kernel prototype and its distro helper tools.
use vstd::prelude::*;

pub mod arch;
pub mod boot;
pub mod compression;
pub mod cpu;
pub mod distro;
pub mod drivers;
pub mod installer;
pub mod interrupts;
pub mod memory;
pub mod release;
pub mod virtio_blk;
pub mod task;
pub mod text;
pub mod zram;

verus! {


} // verus!
