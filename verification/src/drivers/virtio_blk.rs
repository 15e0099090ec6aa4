//! The legacy VirtIO block device: queue memory layout, the three-descriptor sector request,
//! and the decisions of the polled request cycle.
use vstd::prelude::*;
use crate::drivers::pci::{PciAddress, PciBar};

verus! {

pub const VIRTIO_VENDOR_ID: u16 = 0x1AF4;

pub const VIRTIO_BLOCK_DEVICE_ID_TRANSITIONAL: u16 = 0x1001;

pub const SECTOR_SIZE_BYTES: usize = 512;

pub const DEVICE_STATUS_ACKNOWLEDGE: u8 = 0x01;

pub const DEVICE_STATUS_DRIVER: u8 = 0x02;

pub const DEVICE_STATUS_DRIVER_OK: u8 = 0x04;

pub const DEVICE_STATUS_FAILED: u8 = 0x80;

pub const VRING_DESC_F_NEXT: u16 = 1;

pub const VRING_DESC_F_WRITE: u16 = 2;

pub const VIRTIO_BLK_T_IN: u32 = 0;

pub const VIRTIO_BLK_T_OUT: u32 = 1;

pub const REG_DEVICE_FEATURES: u16 = 0x00;

pub const REG_GUEST_FEATURES: u16 = 0x04;

pub const REG_QUEUE_ADDRESS: u16 = 0x08;

pub const REG_QUEUE_SIZE: u16 = 0x0C;

pub const REG_QUEUE_SELECT: u16 = 0x0E;

pub const REG_QUEUE_NOTIFY: u16 = 0x10;

pub const REG_DEVICE_STATUS: u16 = 0x12;

pub const REG_ISR_STATUS: u16 = 0x13;

pub const REG_DEVICE_CONFIG_START: u16 = 0x14;

pub const REQUEST_PAGES: usize = 1;

/// Offset of the sector buffer in the request page (the header comes first).
pub const REQUEST_DATA_OFFSET: u64 = 64;

/// Offset of the status byte in the request page (after the sector buffer).
pub const REQUEST_STATUS_OFFSET: u64 = 576;

/// Size in bytes of the request header (type, reserved, sector).
pub const REQUEST_HEADER_LEN: u32 = 16;

/// How many empty polls of the used index a request waits before it gives up.
pub const SPIN_LIMIT: usize = 10_000_000;

/// `x` rounded up to a whole number of 4 KiB pages.
pub open spec fn page_align_up(x: int) -> int {
    ((x + 4095) / 4096) * 4096
}

/// `page_align_up` computed with a mask.
pub fn align_to_page(x: usize) -> (r: usize)
    requires
        x <= 0x1000_0000,
    ensures
        r == page_align_up(x as int),
{
    let y: usize = x + 4095;
    let r = y & !4095usize;
    assert(r == (y / 4096) * 4096) by (bit_vector)
        requires
            r == y & !4095usize,
    ;
    r
}

/// Where the parts of a virtqueue of a given size lie in its memory, in bytes from its base.
#[derive(Clone, Copy, Debug, PartialEq, Eq, Structural)]
pub struct QueueLayout {
    /// Bytes of the descriptor table, which starts the queue.
    pub desc_size: usize,
    /// Where the available ring starts (flags, index, ring).
    pub avail_offset: usize,
    /// Where the used ring starts, on a page boundary.
    pub used_offset: usize,
    /// Bytes of the whole queue, whole pages.
    pub total_size: usize,
    pub pages: usize,
}

/// The legacy layout for `size` entries: 16-byte descriptors, then the available ring
/// (2 + 2 + 2 per entry + 2 bytes), then on the next page the used ring (2 + 2 + 8 per entry
/// + 2 bytes), rounded up to pages.
pub open spec fn queue_layout_spec(size: int) -> QueueLayout {
    let desc_size = 16 * size;
    let avail_size = 6 + 2 * size;
    let used_offset = page_align_up(desc_size + avail_size);
    let used_size = 6 + 8 * size;
    let total_size = used_offset + page_align_up(used_size);
    QueueLayout {
        desc_size: desc_size as usize,
        avail_offset: desc_size as usize,
        used_offset: used_offset as usize,
        total_size: total_size as usize,
        pages: (total_size / 4096) as usize,
    }
}

pub fn queue_layout(size: u16) -> (r: QueueLayout)
    ensures
        r == queue_layout_spec(size as int),
        r.total_size == r.pages * 4096,
        r.used_offset % 4096 == 0,
        r.avail_offset + 6 + 2 * size <= r.used_offset,
{
    let size_val = size as usize;
    let desc_size = 16 * size_val;
    let avail_size = 2 + 2 + 2 * size_val + 2;
    let used_offset = align_to_page(desc_size + avail_size);
    let used_size = 2 + 2 + 8 * size_val + 2;
    let used_span = align_to_page(used_size);
    let total_size = used_offset + used_span;
    let pages = total_size / 4096;
    assert(used_offset % 4096 == 0 && used_span % 4096 == 0) by (nonlinear_arith)
        requires
            used_offset == page_align_up(desc_size + avail_size),
            used_span == page_align_up(used_size as int),
    ;
    QueueLayout { desc_size, avail_offset: desc_size, used_offset, total_size, pages }
}

/// One entry of the descriptor table.
#[derive(Clone, Copy, Debug, PartialEq, Eq, Structural)]
pub struct VirtqDesc {
    pub addr: u64,
    pub len: u32,
    pub flags: u16,
    pub next: u16,
}

/// The header that opens a block request.
#[derive(Clone, Copy, Debug, PartialEq, Eq, Structural)]
pub struct VirtioBlkReqHeader {
    pub req_type: u32,
    pub reserved: u32,
    pub sector: u64,
}

pub fn request_header(req_type: u32, sector: u64) -> (r: VirtioBlkReqHeader)
    ensures
        r == (VirtioBlkReqHeader { req_type, reserved: 0, sector }),
{
    VirtioBlkReqHeader { req_type, reserved: 0, sector }
}

/// The descriptor chain of a one-sector request whose buffers lie in the page at
/// `request_base`: the header (read by the device), the sector (written by the device on a
/// read), and the status byte (written by the device), chained 0 -> 1 -> 2.
pub open spec fn request_chain(request_base: u64, is_read: bool) -> Seq<VirtqDesc> {
    seq![
        VirtqDesc { addr: request_base, len: REQUEST_HEADER_LEN, flags: VRING_DESC_F_NEXT, next: 1 },
        VirtqDesc {
            addr: (request_base + REQUEST_DATA_OFFSET) as u64,
            len: SECTOR_SIZE_BYTES as u32,
            flags: if is_read {
                (VRING_DESC_F_WRITE + VRING_DESC_F_NEXT) as u16
            } else {
                VRING_DESC_F_NEXT
            },
            next: 2,
        },
        VirtqDesc {
            addr: (request_base + REQUEST_STATUS_OFFSET) as u64,
            len: 1,
            flags: VRING_DESC_F_WRITE,
            next: 0,
        },
    ]
}

pub fn request_descriptors(request_base: u64, is_read: bool) -> (r: Vec<VirtqDesc>)
    requires
        request_base + REQUEST_STATUS_OFFSET <= u64::MAX,
    ensures
        r@ == request_chain(request_base, is_read),
{
    let data_flags = if is_read {
        VRING_DESC_F_WRITE | VRING_DESC_F_NEXT
    } else {
        VRING_DESC_F_NEXT
    };
    assert(VRING_DESC_F_WRITE | VRING_DESC_F_NEXT == 3u16) by (bit_vector);
    vec![
        VirtqDesc { addr: request_base, len: REQUEST_HEADER_LEN, flags: VRING_DESC_F_NEXT, next: 1 },
        VirtqDesc {
            addr: request_base + REQUEST_DATA_OFFSET,
            len: SECTOR_SIZE_BYTES as u32,
            flags: data_flags,
            next: 2,
        },
        VirtqDesc {
            addr: request_base + REQUEST_STATUS_OFFSET,
            len: 1,
            flags: VRING_DESC_F_WRITE,
            next: 0,
        },
    ]
}

/// A request moves data one way: exactly one of a read buffer and a write buffer is given.
pub fn check_direction(has_read_buffer: bool, has_write_buffer: bool) -> (r: Result<(), &'static str>)
    ensures
        r is Ok <==> has_read_buffer != has_write_buffer,
        r is Err ==> r == Err::<(), &'static str>("request buffer direction is invalid"),
{
    if has_read_buffer == has_write_buffer {
        return Err("request buffer direction is invalid");
    }
    Ok(())
}

/// What a one-sector request puts into the request page and the descriptor table.
#[derive(Clone, Debug)]
pub struct RequestPlan {
    pub header: VirtioBlkReqHeader,
    pub descriptors: Vec<VirtqDesc>,
    /// The status byte's value before the device answers.
    pub initial_status: u8,
}

/// The request for `sector` with exactly one of a read buffer and a write buffer: its header,
/// its descriptor chain, and the status byte primed to 0xFF; the direction error otherwise.
pub fn prepare_request(
    req_type: u32,
    sector: u64,
    has_read_buffer: bool,
    has_write_buffer: bool,
    request_base: u64,
) -> (r: Result<RequestPlan, &'static str>)
    requires
        request_base + REQUEST_STATUS_OFFSET <= u64::MAX,
    ensures
        has_read_buffer == has_write_buffer ==> r == Err::<RequestPlan, &'static str>(
            "request buffer direction is invalid",
        ),
        has_read_buffer != has_write_buffer ==> (r matches Ok(plan) && plan.header == (
        VirtioBlkReqHeader { req_type, reserved: 0, sector }) && plan.descriptors@ == request_chain(
            request_base,
            has_read_buffer,
        ) && plan.initial_status == 0xFF),
{
    match check_direction(has_read_buffer, has_write_buffer) {
        Err(e) => Err(e),
        Ok(()) => Ok(
            RequestPlan {
                header: request_header(req_type, sector),
                descriptors: request_descriptors(request_base, has_read_buffer),
                initial_status: 0xFF,
            },
        ),
    }
}

/// What to do after one look at the used ring's index.
#[derive(Clone, Copy, Debug, PartialEq, Eq, Structural)]
pub enum PollStep {
    /// The device has consumed the request.
    Done,
    /// Keep waiting, with this many empty polls behind.
    Spin(usize),
    /// Give up: the limit of empty polls was reached.
    TimedOut,
}

/// One step of the completion wait: done once the used index moves off zero, else one more
/// empty poll, and a timeout when that makes `limit` of them.
pub fn poll_step(used_idx: u16, spin_count: usize, limit: usize) -> (r: PollStep)
    requires
        spin_count < limit,
    ensures
        used_idx != 0 ==> r == PollStep::Done,
        used_idx == 0 && spin_count + 1 >= limit ==> r == PollStep::TimedOut,
        used_idx == 0 && spin_count + 1 < limit ==> r == PollStep::Spin((spin_count + 1) as usize),
{
    if used_idx != 0 {
        return PollStep::Done;
    }
    let next = spin_count + 1;
    if next >= limit {
        PollStep::TimedOut
    } else {
        PollStep::Spin(next)
    }
}

/// The outcome of a consumed request from its status byte.
pub fn request_status(status: u8) -> (r: Result<(), &'static str>)
    ensures
        status == 0 ==> r is Ok,
        status != 0 ==> r == Err::<(), &'static str>("device returned non-zero status"),
{
    if status != 0 {
        return Err("device returned non-zero status");
    }
    Ok(())
}

/// The device capacity in sectors from the two config dwords.
pub fn capacity_from_config(low: u32, high: u32) -> (r: u64)
    ensures
        r == high * 0x1_0000_0000 + low,
{
    let r = ((high as u64) << 32u64) | low as u64;
    assert(r == high * 0x1_0000_0000 + low) by (bit_vector)
        requires
            r == ((high as u64) << 32u64) | low as u64,
    ;
    r
}

/// The page frame number written to the queue address register (truncated to 32 bits).
pub fn queue_pfn(base: u64) -> (r: u32)
    ensures
        r == (base / 4096) % 0x1_0000_0000,
{
    let r = (base >> 12u64) as u32;
    assert(r == (base / 4096) % 0x1_0000_0000) by (bit_vector)
        requires
            r == (base >> 12u64) as u32,
    ;
    r
}

/// Whether a function's IDs are those of a transitional VirtIO block device.
pub fn is_virtio_block(vendor_id: u16, device_id: u16) -> (r: bool)
    ensures
        r == (vendor_id == VIRTIO_VENDOR_ID && device_id == VIRTIO_BLOCK_DEVICE_ID_TRANSITIONAL),
{
    vendor_id == VIRTIO_VENDOR_ID && device_id == VIRTIO_BLOCK_DEVICE_ID_TRANSITIONAL
}

/// The legacy I/O window of a BAR; memory BARs have none.
pub fn legacy_io_base(bar: PciBar) -> (r: Option<u16>)
    ensures
        bar matches PciBar::Io { base, .. } ==> r == Some(base),
        !(bar is Io) ==> r is None,
{
    match bar {
        PciBar::Io { base, .. } => Some(base),
        _ => None,
    }
}

/// A legacy VirtIO block device: where it sits, its I/O window, its capacity, and the
/// physical pages of its queue and request buffers.
#[derive(Clone, Copy, Debug)]
pub struct VirtioBlk {
    pci_address: PciAddress,
    io_base: u16,
    capacity_sectors: u64,
    queue_size: u16,
    queue_base: u64,
    queue_pages: usize,
    request_base: u64,
}

impl VirtioBlk {
    pub closed spec fn address(&self) -> PciAddress {
        self.pci_address
    }

    pub closed spec fn io_port_base(&self) -> u16 {
        self.io_base
    }

    pub closed spec fn sectors(&self) -> u64 {
        self.capacity_sectors
    }

    pub closed spec fn entries(&self) -> u16 {
        self.queue_size
    }

    pub closed spec fn queue_memory(&self) -> (u64, usize) {
        (self.queue_base, self.queue_pages)
    }

    pub closed spec fn request_page(&self) -> u64 {
        self.request_base
    }

    /// A device whose queue and request pages have been allocated; its capacity is read
    /// later, when the transport comes up.
    pub fn new(
        pci_address: PciAddress,
        io_base: u16,
        queue_size: u16,
        queue_base: u64,
        queue_pages: usize,
        request_base: u64,
    ) -> (r: Self)
        ensures
            r.address() == pci_address,
            r.io_port_base() == io_base,
            r.sectors() == 0,
            r.entries() == queue_size,
            r.queue_memory() == (queue_base, queue_pages),
            r.request_page() == request_base,
    {
        Self {
            pci_address,
            io_base,
            capacity_sectors: 0,
            queue_size,
            queue_base,
            queue_pages,
            request_base,
        }
    }

    /// Records the capacity read from the device config.
    pub fn set_capacity(&mut self, low: u32, high: u32)
        ensures
            final(self).sectors() == high * 0x1_0000_0000 + low,
            final(self).address() == old(self).address(),
            final(self).io_port_base() == old(self).io_port_base(),
            final(self).entries() == old(self).entries(),
            final(self).queue_memory() == old(self).queue_memory(),
            final(self).request_page() == old(self).request_page(),
    {
        self.capacity_sectors = capacity_from_config(low, high);
    }

    pub fn pci_address(&self) -> (r: PciAddress)
        ensures
            r == self.address(),
    {
        self.pci_address
    }

    pub fn io_base(&self) -> (r: u16)
        ensures
            r == self.io_port_base(),
    {
        self.io_base
    }

    pub fn capacity_sectors(&self) -> (r: u64)
        ensures
            r == self.sectors(),
    {
        self.capacity_sectors
    }

    pub fn queue_size(&self) -> (r: u16)
        ensures
            r == self.entries(),
    {
        self.queue_size
    }

    pub fn queue_base(&self) -> (r: u64)
        ensures
            r == self.queue_memory().0,
    {
        self.queue_base
    }

    pub fn queue_pages(&self) -> (r: usize)
        ensures
            r == self.queue_memory().1,
    {
        self.queue_pages
    }

    pub fn request_base(&self) -> (r: u64)
        ensures
            r == self.request_page(),
    {
        self.request_base
    }

    /// The I/O port of a register of this device; the window must not run past the top of
    /// the port space.
    pub fn register_port(&self, offset: u16) -> (r: u16)
        requires
            self.io_port_base() + offset <= u16::MAX,
        ensures
            r == self.io_port_base() + offset,
    {
        self.io_base + offset
    }
}

} // verus!
