use std::cell::RefCell;
use tuff_radical::drivers::block::{sectors_to_bytes, BlockDevice};
use tuff_radical::drivers::gpu::{GpuCommandRing, SubmitOutcome};
use tuff_radical::drivers::pci::{
    bar_needs_high_dword, bar_present, bar_register, config_address, config_u16, config_u8, decode_bar,
    device_from_config, find_capabilities, PciAddress, PciBar,
};
use tuff_radical::drivers::serial::{transmit_empty, SerialPort};
use tuff_radical::drivers::virtio_blk as blk;
use tuff_radical::drivers::virtio_gpu::{is_virtio_gpu, VirtioGpu};
use tuff_radical::installer::{
    boot_signature, install_after_read, install_after_write, install_request, run_install_pipeline,
    write_probe_sector, DiskRequest, InstallStage, ProbeReport, Sector0Report,
};
use tuff_radical::virtio_blk as legacy;
use tuff_radical::virtio_blk::TransportOp as Op;

const ADDR: PciAddress = PciAddress { bus: 1, slot: 2, func: 3 };

#[test]
fn config_address_packs_fields() {
    assert_eq!(config_address(ADDR, 0x10), 0x8001_1310);
    assert_eq!(config_address(ADDR, 0x13), 0x8001_1310);
    assert_eq!(config_u16(0x1234_5678, 0), 0x5678);
    assert_eq!(config_u16(0x1234_5678, 2), 0x1234);
    assert_eq!(config_u8(0x1234_5678, 1), 0x56);
    assert_eq!(config_u8(0x1234_5678, 3), 0x12);
}

#[test]
fn bar_slots_and_kinds() {
    assert_eq!(bar_register(0), Some(0x10));
    assert_eq!(bar_register(5), Some(0x24));
    assert_eq!(bar_register(6), None);
    assert!(!bar_present(0xFFFF_FFFF));
    assert!(bar_present(0xFEBF_0000));
    assert!(bar_needs_high_dword(0, 0x4));
    assert!(!bar_needs_high_dword(5, 0x4));
    assert!(!bar_needs_high_dword(0, 0x5));
}

#[test]
fn bars_decode_to_base_and_size() {
    assert_eq!(decode_bar(0x0000_C001, 0xFFFF_FFE1, None), PciBar::Io { base: 0xC000, size: 32 });
    assert_eq!(
        decode_bar(0xFEBF_0000, 0xFFFF_F000, None),
        PciBar::Memory32 { base: 0xFEBF_0000, size: 0x1000 }
    );
    assert_eq!(
        decode_bar(0xE000_000C, 0xF000_000C, Some((0x1, 0xFFFF_FFFF))),
        PciBar::Memory64 { base: 0x1_E000_0000, size: 0x1000_0000 }
    );
    assert_eq!(
        decode_bar(0xFE00_000C, 0xFFFF_F00C, Some((0x0, 0xFFFF_FFFF))),
        PciBar::Memory64 { base: 0xFE00_0000, size: 0x1000 }
    );
    assert_eq!(
        decode_bar(0x0000_000C, 0x0000_000C, Some((0x80, 0xFFFF_FFF0))),
        PciBar::Memory64 { base: 0x80_0000_0000, size: 0x10_0000_0000 }
    );
}

#[test]
fn devices_from_config_dwords() {
    let dev = device_from_config(ADDR, 0x1001_1AF4, 0x0180_1000).unwrap();
    assert_eq!((dev.vendor_id, dev.device_id), (0x1AF4, 0x1001));
    assert_eq!((dev.class, dev.subclass, dev.prog_if), (0x01, 0x80, 0x10));
    assert!(device_from_config(ADDR, 0xFFFF_FFFF, 0).is_none());
}

#[test]
fn capability_list_walk() {
    let mut caps = find_capabilities(ADDR, 0x0010, 0x43);
    assert_eq!(caps.address(), ADDR);
    assert_eq!(caps.next_offset(), Some(0x40));
    assert_eq!(caps.advance(0x5311), (0x11, 0x40));
    assert_eq!(caps.next_offset(), Some(0x50));
    assert_eq!(caps.advance(0x0005), (0x05, 0x50));
    assert_eq!(caps.next_offset(), None);
    assert_eq!(find_capabilities(ADDR, 0, 0x40).next_offset(), None);
}

#[test]
fn serial_line_feeds_get_carriage_returns() {
    let port = SerialPort::new(0x3F8);
    assert_eq!(port.write_str("a\nb"), vec![b'a', b'\r', b'\n', b'b']);
    assert_eq!(port.write_str(""), Vec::<u8>::new());
    assert_eq!(port.write_str("\n\n"), vec![13, 10, 13, 10]);
}

#[test]
fn serial_start_up_writes() {
    let port = SerialPort::new(0x3F8);
    assert_eq!(port.base(), 0x3F8);
    assert_eq!(
        port.init_sequence(),
        vec![(0x3F9, 0x00), (0x3FB, 0x80), (0x3F8, 0x03), (0x3F9, 0x00), (0x3FB, 0x03), (0x3FA, 0xC7), (0x3FC, 0x0B)]
    );
    assert_eq!(port.line_status_port(), 0x3FD);
    assert!(transmit_empty(0x20));
    assert!(transmit_empty(0x60));
    assert!(!transmit_empty(0x1F));
}

#[test]
fn gpu_ring_accepts_until_full() {
    let mut ring = GpuCommandRing::new(0x1000);
    assert_eq!(ring.submit_compute_command(0x70FF, 0x300_0000), SubmitOutcome::Submitted { doorbell: 0x1040 });
    let mut submitted = 1;
    while ring.submit_compute_command(1, 2) != SubmitOutcome::Full {
        submitted += 1;
    }
    assert_eq!(submitted, 511);
}

#[test]
fn virtio_queue_layouts() {
    let l = blk::queue_layout(256);
    assert_eq!((l.desc_size, l.avail_offset, l.used_offset, l.total_size, l.pages), (4096, 4096, 8192, 12288, 3));
    let small = blk::queue_layout(8);
    assert_eq!(small, legacy::fixed_queue_layout());
    assert_eq!((small.used_offset, small.pages), (4096, 2));
    assert_eq!(blk::align_to_page(0), 0);
    assert_eq!(blk::align_to_page(1), 4096);
    assert_eq!(blk::align_to_page(4096), 4096);
}

#[test]
fn virtio_request_chain() {
    let d = blk::request_descriptors(0x10000, true);
    assert_eq!(d.len(), 3);
    assert_eq!(d[0], blk::VirtqDesc { addr: 0x10000, len: 16, flags: 1, next: 1 });
    assert_eq!(d[1], blk::VirtqDesc { addr: 0x10040, len: 512, flags: 3, next: 2 });
    assert_eq!(d[2], blk::VirtqDesc { addr: 0x10240, len: 1, flags: 2, next: 0 });
    let w = blk::request_descriptors(0x10000, false);
    assert_eq!(w[1].flags, 1);
    assert_eq!(blk::request_header(1, 9), blk::VirtioBlkReqHeader { req_type: 1, reserved: 0, sector: 9 });
}

#[test]
fn virtio_request_decisions() {
    assert_eq!(blk::check_direction(true, false), Ok(()));
    assert_eq!(blk::check_direction(false, true), Ok(()));
    assert_eq!(blk::check_direction(true, true), Err("request buffer direction is invalid"));
    assert_eq!(blk::check_direction(false, false), Err("request buffer direction is invalid"));
    assert_eq!(blk::poll_step(1, 5, 10), blk::PollStep::Done);
    assert_eq!(blk::poll_step(0, 5, 10), blk::PollStep::Spin(6));
    assert_eq!(blk::poll_step(0, 9, 10), blk::PollStep::TimedOut);
    assert_eq!(blk::request_status(0), Ok(()));
    assert_eq!(blk::request_status(1), Err("device returned non-zero status"));
    assert_eq!(blk::capacity_from_config(0x10, 0x1), 0x1_0000_0010);
    assert_eq!(blk::queue_pfn(0x1234_5000), 0x12345);
    assert_eq!(blk::queue_pfn(0x1_0000_0000_0000), 0);
    assert!(blk::is_virtio_block(0x1AF4, 0x1001));
    assert!(!blk::is_virtio_block(0x1AF4, 0x1010));
    assert_eq!(blk::legacy_io_base(PciBar::Io { base: 0xC040, size: 64 }), Some(0xC040));
    assert_eq!(blk::legacy_io_base(PciBar::Memory32 { base: 0xC040, size: 64 }), None);
}

#[test]
fn virtio_device_records_capacity() {
    let mut d = blk::VirtioBlk::new(ADDR, 0xC000, 128, 0x20_0000, 2, 0x30_0000);
    assert_eq!(d.capacity_sectors(), 0);
    d.set_capacity(0x800, 0);
    assert_eq!(d.capacity_sectors(), 0x800);
    assert_eq!(d.register_port(blk::REG_DEVICE_STATUS), 0xC012);
    assert_eq!((d.queue_size(), d.queue_base(), d.queue_pages(), d.request_base()), (128, 0x20_0000, 2, 0x30_0000));
}

#[test]
fn legacy_virtio_completion_checks() {
    assert_eq!(legacy::completion_result(0, 0, 1), Ok(()));
    assert_eq!(legacy::completion_result(1, 0, 1), Err("device returned non-zero status"));
    assert_eq!(legacy::completion_result(0, 2, 1), Err("used ring returned unexpected descriptor id"));
    assert_eq!(legacy::completion_result(0, 0, 0), Err("used ring reported invalid length"));
    assert!(legacy::check_queue_size(8));
    assert!(!legacy::check_queue_size(7));
    assert_eq!(legacy::register_port(0xFFFF, 2), 1);
    assert_eq!(legacy::bring_up_status_sequence(), vec![0, 1, 3, 7]);
    let mut d = legacy::VirtioBlk::new(ADDR, 0xC000, 0x1000, 0x3000);
    d.set_capacity(1, 1);
    assert_eq!(d.capacity_sectors(), 0x1_0000_0001);
    assert_eq!(d.queue_size(), 8);
}

/// Drives the fixed-queue bring-up, answering each read from `answers` in turn, and returns
/// the accesses made.
fn run_bring_up(d: &mut legacy::VirtioBlk, answers: &[u32]) -> Vec<legacy::TransportOp> {
    let mut ops = vec![];
    let mut stage = legacy::BringUpStage::Reset;
    let mut next = answers.iter();
    loop {
        let op = d.transport_op(stage);
        ops.push(op);
        if let legacy::TransportOp::Finish(_) = op {
            return ops;
        }
        let answer = match op {
            legacy::TransportOp::ReadDeviceFeatures
            | legacy::TransportOp::ReadQueueSize
            | legacy::TransportOp::ReadCapacityLow
            | legacy::TransportOp::ReadCapacityHigh
            | legacy::TransportOp::ReadIsr => *next.next().unwrap(),
            _ => 0,
        };
        stage = d.transport_step(stage, answer);
    }
}

#[test]
fn legacy_bring_up_fails_a_short_queue() {
    let mut d = legacy::VirtioBlk::new(ADDR, 0xC000, 0x5000, 0x3000);
    d.set_capacity(9, 0);
    let ops = run_bring_up(&mut d, &[0xFFFF, 4]);
    assert_eq!(
        ops,
        vec![
            Op::WriteStatus(0), Op::WriteStatus(1), Op::WriteStatus(3), Op::ReadDeviceFeatures, Op::WriteGuestFeatures(0),
            Op::SelectQueue(0), Op::ReadQueueSize, Op::WriteStatus(0x80), Op::Finish(false),
        ]
    );
    assert_eq!(d.capacity_sectors(), 9);
}

#[test]
fn legacy_bring_up_sets_the_queue_and_capacity() {
    let mut d = legacy::VirtioBlk::new(ADDR, 0xC000, 0x5000, 0x3000);
    let ops = run_bring_up(&mut d, &[0xFFFF, 256, 0x10, 0x2, 0]);
    assert_eq!(
        ops,
        vec![
            Op::WriteStatus(0), Op::WriteStatus(1), Op::WriteStatus(3), Op::ReadDeviceFeatures, Op::WriteGuestFeatures(0),
            Op::SelectQueue(0), Op::ReadQueueSize, Op::WriteQueueAddress(5), Op::ReadCapacityLow, Op::ReadCapacityHigh,
            Op::ReadIsr, Op::WriteStatus(7), Op::Finish(true),
        ]
    );
    assert_eq!(d.capacity_sectors(), 0x2_0000_0010);
}

#[test]
fn virtio_gpu_needs_its_ids_and_an_io_bar() {
    let dev = device_from_config(ADDR, 0x1010_1AF4, 0x0300_0000).unwrap();
    assert!(is_virtio_gpu(&dev));
    let io = Some(PciBar::Io { base: 0xC000, size: 64 });
    let gpu = VirtioGpu::from_probe(ADDR, Some(dev), io).unwrap();
    assert_eq!(gpu.io_base(), 0xC000);
    assert_eq!(gpu.pci_address(), ADDR);
    assert_eq!(gpu.init_status_writes(), vec![(0xC012, 0), (0xC012, 1), (0xC012, 3)]);
    let mem = Some(PciBar::Memory32 { base: 0xFD00_0000, size: 0x100_0000 });
    assert!(VirtioGpu::from_probe(ADDR, Some(dev), mem).is_none());
    let other = device_from_config(ADDR, 0x1001_1AF4, 0).unwrap();
    assert!(VirtioGpu::from_probe(ADDR, Some(other), io).is_none());
    assert!(VirtioGpu::from_probe(ADDR, None, io).is_none());
}

struct MemDisk {
    sectors: RefCell<Vec<[u8; 512]>>,
    refuse_writes: bool,
    forget_writes: bool,
    calls: RefCell<Vec<(&'static str, u64)>>,
}

impl MemDisk {
    fn new(n: usize) -> Self {
        let mut sectors = vec![[0u8; 512]; n];
        sectors[0][0] = 0xEB;
        sectors[0][1] = 0x3C;
        sectors[0][2] = 0x90;
        sectors[0][3] = 0x4D;
        sectors[0][510] = 0x55;
        sectors[0][511] = 0xAA;
        MemDisk { sectors: RefCell::new(sectors), refuse_writes: false, forget_writes: false, calls: RefCell::new(vec![]) }
    }
}

impl BlockDevice for MemDisk {
    fn sectors(&self) -> u64 {
        self.capacity_sectors()
    }

    fn capacity_sectors(&self) -> u64 {
        self.sectors.borrow().len() as u64
    }

    fn read_sector(&self, sector: u64, buffer: &mut [u8; 512]) -> Result<(), &'static str> {
        self.calls.borrow_mut().push(("read", sector));
        match self.sectors.borrow().get(sector as usize) {
            Some(s) => {
                buffer.copy_from_slice(s);
                Ok(())
            }
            None => Err("sector out of range"),
        }
    }

    fn write_sector(&self, sector: u64, buffer: &[u8; 512]) -> Result<(), &'static str> {
        self.calls.borrow_mut().push(("write", sector));
        if self.refuse_writes {
            return Err("write refused");
        }
        if self.forget_writes {
            return Ok(());
        }
        match self.sectors.borrow_mut().get_mut(sector as usize) {
            Some(s) => {
                s.copy_from_slice(buffer);
                Ok(())
            }
            None => Err("sector out of range"),
        }
    }
}

#[test]
fn install_pipeline_verifies_the_probe_sector() {
    let disk = MemDisk::new(4);
    let report = run_install_pipeline(&disk);
    assert_eq!(report.capacity_sectors, 4);
    assert_eq!(report.capacity_bytes, 2048);
    assert!(matches!(report.sector0, Sector0Report::Read { head: (0xEB, 0x3C, 0x90, 0x4D), signature: 0xAA55 }));
    assert!(matches!(report.probe, ProbeReport::Verified { signature: 0xAA55 }));
    assert_eq!(&disk.sectors.borrow()[1][..16], b"TUFF-RADICAL-CHK");
    assert_eq!(*disk.calls.borrow(), vec![("read", 0), ("write", 1), ("read", 1)]);
    assert_eq!(disk.sectors.borrow()[0][0], 0xEB);
}

#[test]
fn install_pipeline_reads_back_only_after_a_write() {
    let mut refusing = MemDisk::new(2);
    refusing.refuse_writes = true;
    let _ = run_install_pipeline(&refusing);
    assert_eq!(*refusing.calls.borrow(), vec![("read", 0), ("write", 1)]);
}

#[test]
fn install_stages_ask_in_order() {
    let s0 = InstallStage::ReadBootSector;
    assert!(matches!(install_request(&s0), DiskRequest::Read { sector: 0 }));
    let mut boot = [0u8; 512];
    boot[0] = 0xEB;
    boot[510] = 0x55;
    boot[511] = 0xAA;
    let s1 = install_after_read(s0, Ok(()), &boot);
    match install_request(&s1) {
        DiskRequest::Write { sector, data } => {
            assert_eq!(sector, 1);
            assert_eq!(data, write_probe_sector());
        }
        other => panic!("expected the probe write, got {:?}", other),
    }
    let failed = install_after_write(s1, Err("io error"));
    assert!(matches!(install_request(&failed), DiskRequest::Finish));
    assert!(matches!(failed, InstallStage::Done { probe: ProbeReport::WriteFailed("io error"), .. }));
    let s2 = install_after_write(s1, Ok(()));
    assert!(matches!(install_request(&s2), DiskRequest::Read { sector: 1 }));
    let s3 = install_after_read(s2, Ok(()), &write_probe_sector());
    assert!(matches!(
        s3,
        InstallStage::Done {
            sector0: Sector0Report::Read { head: (0xEB, 0, 0, 0), signature: 0xAA55 },
            probe: ProbeReport::Verified { signature: 0xAA55 },
        }
    ));
    assert!(matches!(install_request(&s3), DiskRequest::Finish));
    let s4 = install_after_read(s2, Err("timeout"), &[0u8; 512]);
    assert!(matches!(s4, InstallStage::Done { probe: ProbeReport::ReadbackFailed("timeout"), .. }));
}

#[test]
fn install_pipeline_reports_failures() {
    let mut refusing = MemDisk::new(2);
    refusing.refuse_writes = true;
    assert!(matches!(run_install_pipeline(&refusing).probe, ProbeReport::WriteFailed("write refused")));

    let mut forgetful = MemDisk::new(2);
    forgetful.forget_writes = true;
    assert!(matches!(run_install_pipeline(&forgetful).probe, ProbeReport::Mismatch));

    let tiny = MemDisk::new(1);
    let report = run_install_pipeline(&tiny);
    assert!(matches!(report.probe, ProbeReport::WriteFailed("sector out of range")));
    assert!(matches!(report.sector0, Sector0Report::Read { .. }));

    let empty = MemDisk { sectors: RefCell::new(vec![]), refuse_writes: false, forget_writes: false, calls: RefCell::new(vec![]) };
    assert!(matches!(run_install_pipeline(&empty).sector0, Sector0Report::Failed("sector out of range")));
}

#[test]
fn probe_sector_layout() {
    let p = write_probe_sector();
    assert_eq!(&p[..16], b"TUFF-RADICAL-CHK");
    assert!(p[16..510].iter().all(|&b| b == 0));
    assert_eq!(boot_signature(&p), 0xAA55);
}

#[test]
fn sector_counts_to_bytes_saturate() {
    assert_eq!(sectors_to_bytes(4), 2048);
    assert_eq!(sectors_to_bytes(0), 0);
    assert_eq!(sectors_to_bytes(u64::MAX / 512), (u64::MAX / 512) * 512);
    assert_eq!(sectors_to_bytes(u64::MAX / 512 + 1), u64::MAX);
    assert_eq!(MemDisk::new(3).capacity_bytes(), 1536);
}

#[test]
fn virtio_request_plan() {
    let plan = blk::prepare_request(blk::VIRTIO_BLK_T_IN, 7, true, false, 0x10000).unwrap();
    assert_eq!(plan.header, blk::VirtioBlkReqHeader { req_type: 0, reserved: 0, sector: 7 });
    assert_eq!(plan.descriptors, blk::request_descriptors(0x10000, true));
    assert_eq!(plan.initial_status, 0xFF);
    assert!(matches!(blk::prepare_request(1, 7, false, false, 0), Err("request buffer direction is invalid")));
}
