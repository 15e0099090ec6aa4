//! The legacy VirtIO block driver with a fixed eight-entry queue: the stricter variant that
//! checks the queue the host offers and the used-ring element of each completion.
use vstd::prelude::*;
use crate::drivers::pci::PciAddress;
use crate::drivers::virtio_blk::QueueLayout;

verus! {

/// Entries of the one queue this driver sets up.
pub const QUEUE_SIZE: u16 = 8;

/// Pages of queue memory: descriptors and available ring on the first, used ring on the second.
pub const QUEUE_PAGES: usize = 2;

/// How many empty polls of the used index a request waits before it gives up.
pub const SPIN_LIMIT: usize = 5_000_000;

/// The fixed layout: eight 16-byte descriptors, the available ring right after them, the
/// used ring on the second page.
pub open spec fn fixed_layout() -> QueueLayout {
    QueueLayout {
        desc_size: 128,
        avail_offset: 128,
        used_offset: 4096,
        total_size: 8192,
        pages: 2,
    }
}

pub fn fixed_queue_layout() -> (r: QueueLayout)
    ensures
        r == fixed_layout(),
{
    QueueLayout {
        desc_size: 16 * QUEUE_SIZE as usize,
        avail_offset: 16 * QUEUE_SIZE as usize,
        used_offset: 4096,
        total_size: QUEUE_PAGES * 4096,
        pages: QUEUE_PAGES,
    }
}

/// The host must offer at least the queue entries this driver uses.
pub fn check_queue_size(advertised: u16) -> (r: bool)
    ensures
        r == (advertised >= QUEUE_SIZE),
{
    advertised >= QUEUE_SIZE
}

/// The outcome of a consumed request: the status byte must be zero, the used element must
/// name descriptor 0 and report a length of at least one byte, checked in that order.
pub fn completion_result(status: u8, used_id: u32, used_len: u32) -> (r: Result<(), &'static str>)
    ensures
        r is Ok <==> (status == 0 && used_id == 0 && used_len >= 1),
        status != 0 ==> r == Err::<(), &'static str>("device returned non-zero status"),
        status == 0 && used_id != 0 ==> r == Err::<(), &'static str>(
            "used ring returned unexpected descriptor id",
        ),
        status == 0 && used_id == 0 && used_len < 1 ==> r == Err::<(), &'static str>(
            "used ring reported invalid length",
        ),
{
    if status != 0 {
        return Err("device returned non-zero status");
    }
    if used_id != 0 {
        return Err("used ring returned unexpected descriptor id");
    }
    if used_len < 1 {
        return Err("used ring reported invalid length");
    }
    Ok(())
}

/// A register's port in the device's I/O window, wrapping at the top of the port space.
pub fn register_port(io_base: u16, offset: u16) -> (r: u16)
    ensures
        r == (io_base + offset) % 0x1_0000,
{
    io_base.wrapping_add(offset)
}

/// The device status values written while the transport comes up, in order: reset,
/// acknowledge, acknowledge and driver; and once it is up, acknowledge, driver and driver-ok.
pub open spec fn bring_up_statuses() -> Seq<u8> {
    seq![0u8, 1u8, 3u8, 7u8]
}

pub fn bring_up_status_sequence() -> (r: Vec<u8>)
    ensures
        r@ == bring_up_statuses(),
{
    vec![0u8, 1u8, 3u8, 7u8]
}

/// A legacy VirtIO block device on the fixed queue.
#[derive(Clone, Copy, Debug)]
pub struct VirtioBlk {
    pci_address: PciAddress,
    io_base: u16,
    capacity_sectors: u64,
    queue_base: u64,
    request_base: u64,
}

impl VirtioBlk {
    pub closed spec fn address(&self) -> PciAddress {
        self.pci_address
    }

    pub closed spec fn io_port_base(&self) -> u16 {
        self.io_base
    }

    pub closed spec fn sectors(&self) -> u64 {
        self.capacity_sectors
    }

    pub closed spec fn queue_page(&self) -> u64 {
        self.queue_base
    }

    pub closed spec fn request_page(&self) -> u64 {
        self.request_base
    }

    pub fn new(pci_address: PciAddress, io_base: u16, queue_base: u64, request_base: u64) -> (r:
        Self)
        ensures
            r.address() == pci_address,
            r.io_port_base() == io_base,
            r.sectors() == 0,
            r.queue_page() == queue_base,
            r.request_page() == request_base,
    {
        Self { pci_address, io_base, capacity_sectors: 0, queue_base, request_base }
    }

    /// Records the capacity read from the device config.
    pub fn set_capacity(&mut self, low: u32, high: u32)
        ensures
            final(self).sectors() == high * 0x1_0000_0000 + low,
            final(self).address() == old(self).address(),
            final(self).io_port_base() == old(self).io_port_base(),
            final(self).queue_page() == old(self).queue_page(),
            final(self).request_page() == old(self).request_page(),
    {
        self.capacity_sectors = crate::drivers::virtio_blk::capacity_from_config(low, high);
    }

    pub fn pci_address(&self) -> (r: PciAddress)
        ensures
            r == self.address(),
    {
        self.pci_address
    }

    pub fn io_base(&self) -> (r: u16)
        ensures
            r == self.io_port_base(),
    {
        self.io_base
    }

    pub fn capacity_sectors(&self) -> (r: u64)
        ensures
            r == self.sectors(),
    {
        self.capacity_sectors
    }

    pub fn queue_size(&self) -> (r: u16)
        ensures
            r == QUEUE_SIZE,
    {
        QUEUE_SIZE
    }

    pub fn queue_base(&self) -> (r: u64)
        ensures
            r == self.queue_page(),
    {
        self.queue_base
    }

    pub fn request_base(&self) -> (r: u64)
        ensures
            r == self.request_page(),
    {
        self.request_base
    }
}

/// The device status that marks the device failed.
pub const DEVICE_STATUS_FAILED: u8 = 0x80;

/// One register access of the legacy transport's bring-up.
#[derive(Clone, Copy, Debug, PartialEq, Eq, Structural)]
pub enum TransportOp {
    WriteStatus(u8),
    ReadDeviceFeatures,
    WriteGuestFeatures(u32),
    SelectQueue(u16),
    ReadQueueSize,
    WriteQueueAddress(u32),
    ReadCapacityLow,
    ReadCapacityHigh,
    ReadIsr,
    /// The bring-up is over: whether the device is ready.
    Finish(bool),
}

/// Where the bring-up stands.
#[derive(Clone, Copy, Debug, PartialEq, Eq, Structural)]
pub enum BringUpStage {
    Reset,
    Acknowledge,
    Driver,
    Features,
    GuestFeatures,
    SelectQueue,
    QueueSize,
    Fail,
    QueueAddress,
    CapacityLow,
    CapacityHigh { low: u32 },
    Isr,
    DriverOk,
    Finished(bool),
}

/// The register access that `stage` makes; the queue address is the queue's page number.
pub open spec fn transport_op_spec(stage: BringUpStage, queue_base: u64) -> TransportOp {
    match stage {
        BringUpStage::Reset => TransportOp::WriteStatus(0),
        BringUpStage::Acknowledge => TransportOp::WriteStatus(1),
        BringUpStage::Driver => TransportOp::WriteStatus(3),
        BringUpStage::Features => TransportOp::ReadDeviceFeatures,
        BringUpStage::GuestFeatures => TransportOp::WriteGuestFeatures(0),
        BringUpStage::SelectQueue => TransportOp::SelectQueue(0),
        BringUpStage::QueueSize => TransportOp::ReadQueueSize,
        BringUpStage::Fail => TransportOp::WriteStatus(DEVICE_STATUS_FAILED),
        BringUpStage::QueueAddress => TransportOp::WriteQueueAddress(((queue_base / 4096) % 0x1_0000_0000) as u32),
        BringUpStage::CapacityLow => TransportOp::ReadCapacityLow,
        BringUpStage::CapacityHigh { .. } => TransportOp::ReadCapacityHigh,
        BringUpStage::Isr => TransportOp::ReadIsr,
        BringUpStage::DriverOk => TransportOp::WriteStatus(7),
        BringUpStage::Finished(ok) => TransportOp::Finish(ok),
    }
}

/// The stage after `stage`'s access, where `answer` is the value that a read returned: a queue
/// of fewer entries than the driver uses fails the device.
pub open spec fn next_stage(stage: BringUpStage, answer: u32) -> BringUpStage {
    match stage {
        BringUpStage::Reset => BringUpStage::Acknowledge,
        BringUpStage::Acknowledge => BringUpStage::Driver,
        BringUpStage::Driver => BringUpStage::Features,
        BringUpStage::Features => BringUpStage::GuestFeatures,
        BringUpStage::GuestFeatures => BringUpStage::SelectQueue,
        BringUpStage::SelectQueue => BringUpStage::QueueSize,
        BringUpStage::QueueSize => if answer >= QUEUE_SIZE {
            BringUpStage::QueueAddress
        } else {
            BringUpStage::Fail
        },
        BringUpStage::Fail => BringUpStage::Finished(false),
        BringUpStage::QueueAddress => BringUpStage::CapacityLow,
        BringUpStage::CapacityLow => BringUpStage::CapacityHigh { low: answer },
        BringUpStage::CapacityHigh { .. } => BringUpStage::Isr,
        BringUpStage::Isr => BringUpStage::DriverOk,
        BringUpStage::DriverOk => BringUpStage::Finished(true),
        BringUpStage::Finished(ok) => BringUpStage::Finished(ok),
    }
}

/// The accesses of a bring-up from `stage` on, each read answered by the next of `answers`
/// (a write takes one too, unused), up to and with the final `Finish`.
pub open spec fn bring_up_ops(stage: BringUpStage, queue_base: u64, answers: Seq<u32>) -> Seq<TransportOp>
    decreases answers.len(),
{
    if stage is Finished {
        seq![transport_op_spec(stage, queue_base)]
    } else if answers.len() == 0 {
        Seq::empty()
    } else {
        seq![transport_op_spec(stage, queue_base)] + bring_up_ops(
            next_stage(stage, answers[0]),
            queue_base,
            answers.drop_first(),
        )
    }
}

/// The whole bring-up, whatever the device answers: reset, acknowledge, driver, a read of the
/// features, no guest features, queue 0 selected and its size read. Where the host offers
/// fewer than `QUEUE_SIZE` entries, the last status written is FAILED and no queue address is
/// written; otherwise the queue's page number is written, the capacity read, the interrupt
/// status acknowledged, and driver-ok set.
pub proof fn lemma_bring_up_course(queue_base: u64, answers: Seq<u32>)
    requires
        answers.len() >= 13,
    ensures
        answers[6] < QUEUE_SIZE ==> bring_up_ops(BringUpStage::Reset, queue_base, answers) == seq![
            TransportOp::WriteStatus(0),
            TransportOp::WriteStatus(1),
            TransportOp::WriteStatus(3),
            TransportOp::ReadDeviceFeatures,
            TransportOp::WriteGuestFeatures(0),
            TransportOp::SelectQueue(0),
            TransportOp::ReadQueueSize,
            TransportOp::WriteStatus(DEVICE_STATUS_FAILED),
            TransportOp::Finish(false),
        ],
        answers[6] >= QUEUE_SIZE ==> bring_up_ops(BringUpStage::Reset, queue_base, answers) == seq![
            TransportOp::WriteStatus(0),
            TransportOp::WriteStatus(1),
            TransportOp::WriteStatus(3),
            TransportOp::ReadDeviceFeatures,
            TransportOp::WriteGuestFeatures(0),
            TransportOp::SelectQueue(0),
            TransportOp::ReadQueueSize,
            TransportOp::WriteQueueAddress(((queue_base / 4096) % 0x1_0000_0000) as u32),
            TransportOp::ReadCapacityLow,
            TransportOp::ReadCapacityHigh,
            TransportOp::ReadIsr,
            TransportOp::WriteStatus(7),
            TransportOp::Finish(true),
        ],
{
    reveal_with_fuel(bring_up_ops, 14);
    assert(answers.drop_first().drop_first().drop_first().drop_first().drop_first().drop_first()[0]
        == answers[6]);
}

impl VirtioBlk {
    /// The register access of `stage`.
    pub fn transport_op(&self, stage: BringUpStage) -> (r: TransportOp)
        ensures
            r == transport_op_spec(stage, self.queue_page()),
    {
        match stage {
            BringUpStage::Reset => TransportOp::WriteStatus(0),
            BringUpStage::Acknowledge => TransportOp::WriteStatus(1),
            BringUpStage::Driver => TransportOp::WriteStatus(3),
            BringUpStage::Features => TransportOp::ReadDeviceFeatures,
            BringUpStage::GuestFeatures => TransportOp::WriteGuestFeatures(0),
            BringUpStage::SelectQueue => TransportOp::SelectQueue(0),
            BringUpStage::QueueSize => TransportOp::ReadQueueSize,
            BringUpStage::Fail => TransportOp::WriteStatus(DEVICE_STATUS_FAILED),
            BringUpStage::QueueAddress => TransportOp::WriteQueueAddress(
                crate::drivers::virtio_blk::queue_pfn(self.queue_base),
            ),
            BringUpStage::CapacityLow => TransportOp::ReadCapacityLow,
            BringUpStage::CapacityHigh { .. } => TransportOp::ReadCapacityHigh,
            BringUpStage::Isr => TransportOp::ReadIsr,
            BringUpStage::DriverOk => TransportOp::WriteStatus(7),
            BringUpStage::Finished(ok) => TransportOp::Finish(ok),
        }
    }

    /// The stage after `stage`'s access answered `answer`. Reading the capacity's upper half
    /// records the capacity; no other step changes the device.
    pub fn transport_step(&mut self, stage: BringUpStage, answer: u32) -> (r: BringUpStage)
        ensures
            r == next_stage(stage, answer),
            stage matches BringUpStage::CapacityHigh { low } ==> final(self).sectors() == answer
                * 0x1_0000_0000 + low,
            stage !is CapacityHigh ==> final(self).sectors() == old(self).sectors(),
            final(self).address() == old(self).address(),
            final(self).io_port_base() == old(self).io_port_base(),
            final(self).queue_page() == old(self).queue_page(),
            final(self).request_page() == old(self).request_page(),
    {
        match stage {
            BringUpStage::Reset => BringUpStage::Acknowledge,
            BringUpStage::Acknowledge => BringUpStage::Driver,
            BringUpStage::Driver => BringUpStage::Features,
            BringUpStage::Features => BringUpStage::GuestFeatures,
            BringUpStage::GuestFeatures => BringUpStage::SelectQueue,
            BringUpStage::SelectQueue => BringUpStage::QueueSize,
            BringUpStage::QueueSize => if answer >= QUEUE_SIZE as u32 {
                BringUpStage::QueueAddress
            } else {
                BringUpStage::Fail
            },
            BringUpStage::Fail => BringUpStage::Finished(false),
            BringUpStage::QueueAddress => BringUpStage::CapacityLow,
            BringUpStage::CapacityLow => BringUpStage::CapacityHigh { low: answer },
            BringUpStage::CapacityHigh { low } => {
                self.set_capacity(low, answer);
                BringUpStage::Isr
            },
            BringUpStage::Isr => BringUpStage::DriverOk,
            BringUpStage::DriverOk => BringUpStage::Finished(true),
            BringUpStage::Finished(ok) => BringUpStage::Finished(ok),
        }
    }
}

} // verus!
