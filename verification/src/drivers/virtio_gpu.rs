//! The legacy VirtIO GPU: recognising it on the PCI bus and its transport handshake.
use vstd::prelude::*;
use crate::drivers::pci::{PciAddress, PciBar, PciDevice};

verus! {

pub const VIRTIO_VENDOR_ID: u16 = 0x1AF4;

/// The transitional (legacy) VirtIO GPU device ID.
pub const VIRTIO_GPU_DEVICE_ID: u16 = 0x1010;

/// Offset of the device status register in the legacy I/O window.
pub const REG_DEVICE_STATUS: u16 = 0x12;

/// A VirtIO GPU reached through its legacy I/O BAR.
pub struct VirtioGpu {
    pci_address: PciAddress,
    io_base: u16,
}

/// Whether a probed function is the VirtIO GPU.
pub fn is_virtio_gpu(dev: &PciDevice) -> (r: bool)
    ensures
        r == (dev.vendor_id == VIRTIO_VENDOR_ID && dev.device_id == VIRTIO_GPU_DEVICE_ID),
{
    dev.vendor_id == VIRTIO_VENDOR_ID && dev.device_id == VIRTIO_GPU_DEVICE_ID
}

impl VirtioGpu {
    pub closed spec fn address(&self) -> PciAddress {
        self.pci_address
    }

    pub closed spec fn io_port_base(&self) -> u16 {
        self.io_base
    }

    /// The driver for the device at `pci_address`, given what probing found there and what
    /// its BAR0 decoded to: only a VirtIO GPU whose BAR0 is an I/O BAR is taken.
    pub fn from_probe(pci_address: PciAddress, dev: Option<PciDevice>, bar0: Option<PciBar>) -> (r:
        Option<Self>)
        ensures
            r is Some <==> (dev matches Some(d) && d.vendor_id == VIRTIO_VENDOR_ID && d.device_id
                == VIRTIO_GPU_DEVICE_ID && bar0 matches Some(PciBar::Io { .. })),
            r matches Some(g) ==> g.address() == pci_address,
            r matches Some(g) ==> (bar0 matches Some(PciBar::Io { base, .. }) && base
                == g.io_port_base()),
    {
        match dev {
            Some(d) => {
                if !is_virtio_gpu(&d) {
                    return None;
                }
            },
            None => {
                return None;
            },
        }
        match bar0 {
            Some(PciBar::Io { base, .. }) => Some(Self { pci_address, io_base: base }),
            _ => None,
        }
    }

    pub fn pci_address(&self) -> (r: PciAddress)
        ensures
            r == self.address(),
    {
        self.pci_address
    }

    pub fn io_base(&self) -> (r: u16)
        ensures
            r == self.io_port_base(),
    {
        self.io_base
    }

    /// The legacy handshake as (port, value) writes to the status register: reset,
    /// acknowledge, then acknowledge and driver.
    pub fn init_status_writes(&self) -> (r: Vec<(u16, u8)>)
        requires
            self.io_port_base() + REG_DEVICE_STATUS <= u16::MAX,
        ensures
            r@ == seq![
                ((self.io_port_base() + REG_DEVICE_STATUS) as u16, 0u8),
                ((self.io_port_base() + REG_DEVICE_STATUS) as u16, 1u8),
                ((self.io_port_base() + REG_DEVICE_STATUS) as u16, 3u8),
            ],
    {
        let port = self.io_base + REG_DEVICE_STATUS;
        vec![(port, 0u8), (port, 1u8), (port, 3u8)]
    }
}

} // verus!
