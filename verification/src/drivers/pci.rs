//! PCI configuration space: addresses, register fields, BARs and the capability list.
use vstd::prelude::*;

verus! {

#[derive(Clone, Copy, Debug, PartialEq, Eq, Structural)]
pub struct PciAddress {
    pub bus: u8,
    pub slot: u8,
    pub func: u8,
}

/// A base address register: its base and the size that the all-ones probe reported.
#[derive(Clone, Copy, Debug, PartialEq, Eq, Structural)]
pub enum PciBar {
    Memory32 { base: u64, size: u64 },
    Memory64 { base: u64, size: u64 },
    Io { base: u16, size: u16 },
}

#[derive(Clone, Copy, Debug, PartialEq, Eq, Structural)]
pub struct PciDevice {
    pub address: PciAddress,
    pub vendor_id: u16,
    pub device_id: u16,
    pub class: u8,
    pub subclass: u8,
    pub prog_if: u8,
}

/// The value written to the configuration address port (0xCF8) for the dword at `offset`:
/// the enable bit, bus, slot and function, and the offset rounded down to four bytes.
pub open spec fn config_address_spec(addr: PciAddress, offset: u8) -> u32 {
    0x8000_0000u32 | ((addr.bus as u32) << 16u32) | ((addr.slot as u32) << 11u32) | ((
    addr.func as u32) << 8u32) | (offset as u32 & 0xFC)
}

pub fn config_address(addr: PciAddress, offset: u8) -> (r: u32)
    ensures
        r == config_address_spec(addr, offset),
{
    0x8000_0000u32 | ((addr.bus as u32) << 16u32) | ((addr.slot as u32) << 11u32) | ((
    addr.func as u32) << 8u32) | (offset as u32 & 0xFC)
}

/// The configuration address names exactly the device and dword it is built from: the enable
/// bit 31 is set, bits 16..24 hold the bus, bits 11..16 the slot, bits 8..11 the function,
/// and the low byte the offset rounded down to four bytes. Distinct devices, or distinct
/// dwords of one device, therefore never share an address.
pub proof fn lemma_config_address_fields(addr: PciAddress, offset: u8)
    requires
        addr.slot < 32,
        addr.func < 8,
    ensures
        config_address_spec(addr, offset) / 0x8000_0000 == 1,
        (config_address_spec(addr, offset) / 0x1_0000) % 256 == addr.bus,
        (config_address_spec(addr, offset) / 0x800) % 32 == addr.slot,
        (config_address_spec(addr, offset) / 0x100) % 8 == addr.func,
        config_address_spec(addr, offset) % 256 == offset - offset % 4,
{
    let v = config_address_spec(addr, offset);
    let b = addr.bus;
    let sl = addr.slot;
    let f = addr.func;
    assert(v / 0x8000_0000 == 1 && (v / 0x1_0000) % 256 == b && (v / 0x800) % 32 == sl && (v
        / 0x100) % 8 == f && v % 256 == offset - offset % 4) by (bit_vector)
        requires
            sl < 32,
            f < 8,
            v == 0x8000_0000u32 | ((b as u32) << 16u32) | ((sl as u32) << 11u32) | ((f as u32)
                << 8u32) | (offset as u32 & 0xFC),
    ;
}

/// The byte-lane bits of a configuration offset.
proof fn lemma_offset_low_bits(offset: u8)
    by (bit_vector)
    ensures
        offset & 0x2 <= 2,
        offset & 0x3 <= 3,
{
}

/// The 16-bit field at `offset` in the dword that holds it.
pub fn config_u16(dword: u32, offset: u8) -> (r: u16)
    ensures
        r == (if offset % 4 >= 2 {
            dword / 0x1_0000
        } else {
            dword % 0x1_0000
        }),
{
    proof {
        lemma_offset_low_bits(offset);
    }
    let shift = ((offset & 0x2) * 8) as u32;
    let r = ((dword >> shift) & 0xFFFF) as u16;
    assert(r == (if offset % 4 >= 2 {
        dword / 0x1_0000
    } else {
        dword % 0x1_0000
    })) by (bit_vector)
        requires
            shift == ((offset & 0x2) * 8) as u32,
            r == ((dword >> shift) & 0xFFFF) as u16,
    ;
    r
}

/// The byte at `offset` in the dword that holds it.
pub fn config_u8(dword: u32, offset: u8) -> (r: u8)
    ensures
        r == (dword / (if offset % 4 == 0 {
            1u32
        } else if offset % 4 == 1 {
            0x100u32
        } else if offset % 4 == 2 {
            0x1_0000u32
        } else {
            0x100_0000u32
        })) % 256,
{
    proof {
        lemma_offset_low_bits(offset);
    }
    let shift = ((offset & 0x3) * 8) as u32;
    let r = ((dword >> shift) & 0xFF) as u8;
    assert(r == (dword / (if offset % 4 == 0 {
        1u32
    } else if offset % 4 == 1 {
        0x100u32
    } else if offset % 4 == 2 {
        0x1_0000u32
    } else {
        0x100_0000u32
    })) % 256) by (bit_vector)
        requires
            shift == ((offset & 0x3) * 8) as u32,
            r == ((dword >> shift) & 0xFF) as u8,
    ;
    r
}

/// The configuration offset of BAR `index`; none past the sixth.
pub fn bar_register(index: u8) -> (r: Option<u8>)
    ensures
        index >= 6 ==> r is None,
        index < 6 ==> r == Some((0x10 + index * 4) as u8),
{
    if index >= 6 {
        return None;
    }
    Some(0x10 + index * 4)
}

/// Whether a BAR is there: a BAR that reads as all ones is absent.
pub fn bar_present(original: u32) -> (r: bool)
    ensures
        r == (original != 0xFFFF_FFFF),
{
    original != 0xFFFF_FFFF
}

/// Whether a BAR's first read shows a 64-bit memory BAR whose upper half follows (in a BAR
/// slot that has a next one).
pub fn bar_needs_high_dword(index: u8, original: u32) -> (r: bool)
    ensures
        r == (original % 2 == 0 && (original / 2) % 4 == 2 && index < 5),
{
    let is_io = (original & 0x1) != 0;
    let bar_type = (original >> 1) & 0x3;
    assert(is_io == (original % 2 == 1) && bar_type == (original / 2) % 4) by (bit_vector)
        requires
            is_io == ((original & 0x1) != 0),
            bar_type == (original >> 1) & 0x3,
    ;
    !is_io && bar_type == 0x2 && index < 5
}

/// A BAR from its original value and the value read back after writing all ones (and the
/// same two for the upper half of a 64-bit BAR): I/O BARs keep bits 2..16 of the base,
/// memory BARs bits 4..32; the size is the two's complement of the read-back mask, for a
/// 64-bit BAR of the mask that both halves form together.
pub fn decode_bar(original: u32, size_mask: u32, high: Option<(u32, u32)>) -> (r: PciBar)
    ensures
        original % 2 == 1 ==> r == (PciBar::Io {
            base: ((original & 0xFFFC) as u16),
            size: ((!(size_mask & 0xFFFC)).wrapping_add(1) as u16),
        }),
        original % 2 == 0 && high is None ==> r == (PciBar::Memory32 {
            base: (original & 0xFFFF_FFF0) as u64,
            size: (!(size_mask & 0xFFFF_FFF0)).wrapping_add(1) as u64,
        }),
        original % 2 == 0 ==> (high matches Some((orig_high, size_high)) ==> r == (PciBar::Memory64 {
            base: ((orig_high as u64) << 32u64) | (original & 0xFFFF_FFF0) as u64,
            size: (!(((size_high as u64) << 32u64) | (size_mask & 0xFFFF_FFF0) as u64)).wrapping_add(1),
        })),
{
    assert(((original & 0x1) != 0) == (original % 2 == 1)) by (bit_vector);
    if (original & 0x1) != 0 {
        let size = (!(size_mask & 0xFFFC)).wrapping_add(1) as u16;
        return PciBar::Io { base: (original & 0xFFFC) as u16, size };
    }
    let base_low = (original & 0xFFFF_FFF0) as u64;
    let size_low = (!(size_mask & 0xFFFF_FFF0)).wrapping_add(1) as u64;
    match high {
        Some((orig_high, size_high)) => PciBar::Memory64 {
            base: ((orig_high as u64) << 32u64) | base_low,
            size: (!(((size_high as u64) << 32u64) | (size_mask & 0xFFFF_FFF0) as u64)).wrapping_add(1),
        },
        None => PciBar::Memory32 { base: base_low, size: size_low },
    }
}

/// The device at `addr` from its ID dword (offset 0) and class dword (offset 8); none when
/// the vendor ID reads as all ones.
pub fn device_from_config(addr: PciAddress, id_reg: u32, class_reg: u32) -> (r: Option<PciDevice>)
    ensures
        id_reg % 0x1_0000 == 0xFFFF ==> r is None,
        id_reg % 0x1_0000 != 0xFFFF ==> r == Some(
            PciDevice {
                address: addr,
                vendor_id: (id_reg % 0x1_0000) as u16,
                device_id: (id_reg / 0x1_0000) as u16,
                class: (class_reg / 0x100_0000) as u8,
                subclass: ((class_reg / 0x1_0000) % 256) as u8,
                prog_if: ((class_reg / 0x100) % 256) as u8,
            },
        ),
{
    let vendor_id = (id_reg & 0xFFFF) as u16;
    let device_id = (id_reg >> 16) as u16;
    let class = (class_reg >> 24) as u8;
    let subclass = (class_reg >> 16) as u8;
    let prog_if = (class_reg >> 8) as u8;
    assert(vendor_id == id_reg % 0x1_0000 && device_id == id_reg / 0x1_0000 && class == class_reg
        / 0x100_0000 && subclass == (class_reg / 0x1_0000) % 256 && prog_if == (class_reg / 0x100)
        % 256) by (bit_vector)
        requires
            vendor_id == (id_reg & 0xFFFF) as u16,
            device_id == (id_reg >> 16) as u16,
            class == (class_reg >> 24) as u8,
            subclass == (class_reg >> 16) as u8,
            prog_if == (class_reg >> 8) as u8,
    ;
    if vendor_id == 0xFFFF {
        return None;
    }
    Some(PciDevice { address: addr, vendor_id, device_id, class, subclass, prog_if })
}

/// The first capability's offset: the capability pointer (offset 0x34) rounded down to four
/// bytes when the status register (offset 6) announces a list (bit 4), else none (zero).
pub fn find_capabilities(addr: PciAddress, status: u16, cap_ptr: u8) -> (r: PciCapIterator)
    ensures
        r.addr() == addr,
        r.next_ptr() == (if status & 0x10 != 0 {
            cap_ptr & 0xFC
        } else {
            0
        }),
{
    let ptr = if (status & (1u16 << 4u16)) != 0 {
        cap_ptr & 0xFC
    } else {
        0
    };
    assert((status & (1u16 << 4u16)) == status & 0x10) by (bit_vector);
    PciCapIterator { addr, next_ptr: ptr }
}

/// A walk along a device's capability list.
pub struct PciCapIterator {
    addr: PciAddress,
    next_ptr: u8,
}

impl PciCapIterator {
    pub closed spec fn addr(&self) -> PciAddress {
        self.addr
    }

    pub closed spec fn next_ptr(&self) -> u8 {
        self.next_ptr
    }

    /// The device whose list this walks.
    pub fn address(&self) -> (r: PciAddress)
        ensures
            r == self.addr(),
    {
        self.addr
    }

    /// The offset of the next capability's header, none at the end of the list.
    pub fn next_offset(&self) -> (r: Option<u8>)
        ensures
            self.next_ptr() == 0 ==> r is None,
            self.next_ptr() != 0 ==> r == Some(self.next_ptr()),
    {
        if self.next_ptr == 0 {
            None
        } else {
            Some(self.next_ptr)
        }
    }

    /// Steps past the capability at the current offset, given its header word: returns its ID
    /// (low byte) and offset, and follows the next pointer (high byte, rounded down to four).
    pub fn advance(&mut self, cap_header: u16) -> (r: (u8, u8))
        requires
            old(self).next_ptr() != 0,
        ensures
            r == ((cap_header % 256) as u8, old(self).next_ptr()),
            final(self).next_ptr() == ((cap_header / 256) as u8) & 0xFC,
            final(self).addr() == old(self).addr(),
    {
        let offset = self.next_ptr;
        let cap_id = (cap_header & 0xFF) as u8;
        let next = (cap_header >> 8) as u8 & 0xFC;
        assert(cap_id == cap_header % 256 && (cap_header >> 8) as u8 == (cap_header / 256) as u8)
            by (bit_vector)
            requires
                cap_id == (cap_header & 0xFF) as u8,
        ;
        self.next_ptr = next;
        (cap_id, offset)
    }
}

} // verus!
