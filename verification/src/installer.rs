//! The install pipeline's probe of a target disk: read the boot sector, write a marked probe
//! sector to sector 1 and read it back.
use vstd::prelude::*;
use crate::drivers::block::{sectors_to_bytes_spec, BlockDevice};

verus! {

/// The marker "TUFF-RADICAL-CHK" that opens the probe sector.
pub open spec fn probe_marker() -> Seq<u8> {
    seq![
        0x54u8, 0x55, 0x46, 0x46, 0x2D, 0x52, 0x41, 0x44, 0x49, 0x43, 0x41, 0x4C, 0x2D, 0x43,
        0x48, 0x4B,
    ]
}

/// The probe sector: the marker, zeros, and the boot signature 0x55 0xAA in the last two bytes.
pub open spec fn probe_sector() -> Seq<u8> {
    Seq::new(
        512,
        |i: int|
            if i < 16 {
                probe_marker()[i]
            } else if i == 510 {
                0x55u8
            } else if i == 511 {
                0xAAu8
            } else {
                0u8
            },
    )
}

pub fn write_probe_sector() -> (r: [u8; 512])
    ensures
        r@ == probe_sector(),
{
    let mut probe = [0u8; 512];
    let marker: [u8; 16] = [
        0x54u8, 0x55, 0x46, 0x46, 0x2D, 0x52, 0x41, 0x44, 0x49, 0x43, 0x41, 0x4C, 0x2D, 0x43,
        0x48, 0x4B,
    ];
    assert(marker@ == probe_marker());
    let mut i: usize = 0;
    while i < 16
        invariant
            i <= 16,
            marker@ == probe_marker(),
            forall|j: int| 0 <= j < i ==> probe@[j] == probe_marker()[j],
            forall|j: int| i <= j < 512 ==> probe@[j] == 0,
        decreases 16 - i,
    {
        probe.set(i, marker[i]);
        i = i + 1;
    }
    probe.set(510, 0x55);
    probe.set(511, 0xAA);
    assert(probe@ =~= probe_sector());
    probe
}

/// The little-endian boot signature in the last two bytes of a sector.
pub fn boot_signature(sector: &[u8; 512]) -> (r: u16)
    ensures
        r == sector@[510] + 256 * sector@[511],
{
    sector[510] as u16 + 256 * sector[511] as u16
}

/// Whether two sectors hold the same bytes.
pub fn sectors_equal(a: &[u8; 512], b: &[u8; 512]) -> (r: bool)
    ensures
        r == (a@ == b@),
{
    let mut i: usize = 0;
    while i < 512
        invariant
            i <= 512,
            forall|j: int| 0 <= j < i ==> a@[j] == b@[j],
        decreases 512 - i,
    {
        if a[i] != b[i] {
            return false;
        }
        i = i + 1;
    }
    assert(a@ =~= b@);
    true
}

/// What the read of sector 0 showed.
#[derive(Clone, Copy, Debug)]
pub enum Sector0Report {
    Read { head: (u8, u8, u8, u8), signature: u16 },
    Failed(&'static str),
}

/// What the write and readback of the probe sector showed.
#[derive(Clone, Copy, Debug)]
pub enum ProbeReport {
    Verified { signature: u16 },
    Mismatch,
    ReadbackFailed(&'static str),
    WriteFailed(&'static str),
}

/// The pipeline's findings on a disk.
#[derive(Clone, Copy, Debug)]
pub struct InstallReport {
    pub capacity_sectors: u64,
    pub capacity_bytes: u64,
    pub sector0: Sector0Report,
    pub probe: ProbeReport,
}

/// The report on sector 0 from the read's outcome and the bytes it filled in.
pub open spec fn sector0_report_spec(read: Result<(), &'static str>, sector: Seq<u8>) -> Sector0Report {
    match read {
        Err(e) => Sector0Report::Failed(e),
        Ok(()) => Sector0Report::Read {
            head: (sector[0], sector[1], sector[2], sector[3]),
            signature: (sector[510] + 256 * sector[511]) as u16,
        },
    }
}

/// The report on the probe from the write's outcome, the readback's outcome, the bytes written
/// and the bytes read back.
pub open spec fn probe_report_spec(
    write: Result<(), &'static str>,
    readback: Result<(), &'static str>,
    written: Seq<u8>,
    read: Seq<u8>,
) -> ProbeReport {
    match write {
        Err(e) => ProbeReport::WriteFailed(e),
        Ok(()) => match readback {
            Err(e) => ProbeReport::ReadbackFailed(e),
            Ok(()) => if read == written {
                ProbeReport::Verified { signature: (read[510] + 256 * read[511]) as u16 }
            } else {
                ProbeReport::Mismatch
            },
        },
    }
}

pub fn sector0_report(read: Result<(), &'static str>, sector: &[u8; 512]) -> (r: Sector0Report)
    ensures
        r == sector0_report_spec(read, sector@),
{
    match read {
        Ok(()) => Sector0Report::Read {
            head: (sector[0], sector[1], sector[2], sector[3]),
            signature: boot_signature(sector),
        },
        Err(e) => Sector0Report::Failed(e),
    }
}

pub fn probe_report(
    write: Result<(), &'static str>,
    readback: Result<(), &'static str>,
    written: &[u8; 512],
    read: &[u8; 512],
) -> (r: ProbeReport)
    ensures
        r == probe_report_spec(write, readback, written@, read@),
{
    match write {
        Err(e) => ProbeReport::WriteFailed(e),
        Ok(()) => match readback {
            Err(e) => ProbeReport::ReadbackFailed(e),
            Ok(()) => {
                if sectors_equal(read, written) {
                    ProbeReport::Verified { signature: boot_signature(read) }
                } else {
                    ProbeReport::Mismatch
                }
            },
        },
    }
}

/// Where the pipeline stands between two disk operations.
#[derive(Clone, Copy, Debug)]
pub enum InstallStage {
    /// Sector 0 is to be read.
    ReadBootSector,
    /// The probe sector is to be written to sector 1.
    WriteProbe { sector0: Sector0Report },
    /// Sector 1 is to be read back after the write succeeded.
    ReadBack { sector0: Sector0Report },
    /// Nothing more is asked of the disk.
    Done { sector0: Sector0Report, probe: ProbeReport },
}

/// What the pipeline asks of the disk next.
#[derive(Clone, Copy, Debug)]
pub enum DiskRequest {
    Read { sector: u64 },
    Write { sector: u64, data: [u8; 512] },
    Finish,
}

/// The operation a stage asks for: whether it writes, and the sector; none when done.
pub open spec fn stage_request(stage: InstallStage) -> Option<(bool, u64)> {
    match stage {
        InstallStage::ReadBootSector => Some((false, 0)),
        InstallStage::WriteProbe { .. } => Some((true, 1)),
        InstallStage::ReadBack { .. } => Some((false, 1)),
        InstallStage::Done { .. } => None,
    }
}

/// The stage after a read answered `result` with the bytes `data`.
pub open spec fn after_read(stage: InstallStage, result: Result<(), &'static str>, data: Seq<u8>) -> InstallStage {
    match stage {
        InstallStage::ReadBootSector => InstallStage::WriteProbe {
            sector0: sector0_report_spec(result, data),
        },
        InstallStage::ReadBack { sector0 } => InstallStage::Done {
            sector0,
            probe: probe_report_spec(Ok(()), result, probe_sector(), data),
        },
        _ => stage,
    }
}

/// The stage after the write answered `result`: the readback where it succeeded, else done.
pub open spec fn after_write(stage: InstallStage, result: Result<(), &'static str>) -> InstallStage {
    match stage {
        InstallStage::WriteProbe { sector0 } => match result {
            Ok(()) => InstallStage::ReadBack { sector0 },
            Err(e) => InstallStage::Done { sector0, probe: ProbeReport::WriteFailed(e) },
        },
        _ => stage,
    }
}

/// The disk operation that `stage` asks for; the write is always the probe sector.
pub fn install_request(stage: &InstallStage) -> (r: DiskRequest)
    ensures
        r matches DiskRequest::Read { sector } ==> stage_request(*stage) == Some((false, sector)),
        r matches DiskRequest::Write { sector, data } ==> stage_request(*stage) == Some((true, sector))
            && data@ == probe_sector(),
        r is Finish ==> stage_request(*stage) is None,
{
    match stage {
        InstallStage::ReadBootSector => DiskRequest::Read { sector: 0 },
        InstallStage::WriteProbe { .. } => DiskRequest::Write { sector: 1, data: write_probe_sector() },
        InstallStage::ReadBack { .. } => DiskRequest::Read { sector: 1 },
        InstallStage::Done { .. } => DiskRequest::Finish,
    }
}

pub fn install_after_read(stage: InstallStage, result: Result<(), &'static str>, data: &[u8; 512]) -> (r: InstallStage)
    ensures
        r == after_read(stage, result, data@),
{
    match stage {
        InstallStage::ReadBootSector => InstallStage::WriteProbe { sector0: sector0_report(result, data) },
        InstallStage::ReadBack { sector0 } => {
            let probe = write_probe_sector();
            InstallStage::Done { sector0, probe: probe_report(Ok(()), result, &probe, data) }
        },
        _ => stage,
    }
}

pub fn install_after_write(stage: InstallStage, result: Result<(), &'static str>) -> (r: InstallStage)
    ensures
        r == after_write(stage, result),
{
    match stage {
        InstallStage::WriteProbe { sector0 } => match result {
            Ok(()) => InstallStage::ReadBack { sector0 },
            Err(e) => InstallStage::Done { sector0, probe: ProbeReport::WriteFailed(e) },
        },
        _ => stage,
    }
}

/// The pipeline's course over any answers of the disk: it reads sector 0 first, then writes
/// the probe sector to sector 1, reads sector 1 back only where that write succeeded, and then
/// asks for nothing more. It never writes a sector other than 1, so sector 0 is never written.
pub proof fn lemma_install_course(
    read0: Result<(), &'static str>,
    data0: Seq<u8>,
    write: Result<(), &'static str>,
    read1: Result<(), &'static str>,
    data1: Seq<u8>,
    stage: InstallStage,
)
    ensures
        stage_request(InstallStage::ReadBootSector) == Some((false, 0u64)),
        ({
            let s1 = after_read(InstallStage::ReadBootSector, read0, data0);
            let s2 = after_write(s1, write);
            &&& stage_request(s1) == Some((true, 1u64))
            &&& write is Ok ==> stage_request(s2) == Some((false, 1u64)) && stage_request(
                after_read(s2, read1, data1),
            ) is None
            &&& write is Err ==> stage_request(s2) is None
        }),
        stage_request(stage) matches Some((w, sector)) ==> (w ==> sector == 1),
{
}

/// The findings of a run over the answers `read0`/`data0` for sector 0, `write` for the probe,
/// and `read1`/`data1` for the readback (looked at only where the write succeeded).
pub open spec fn install_findings(
    read0: Result<(), &'static str>,
    data0: Seq<u8>,
    write: Result<(), &'static str>,
    read1: Result<(), &'static str>,
    data1: Seq<u8>,
) -> (Sector0Report, ProbeReport) {
    (sector0_report_spec(read0, data0), probe_report_spec(write, read1, probe_sector(), data1))
}

/// How many more operations a stage asks for.
pub open spec fn stage_rank(stage: InstallStage) -> nat {
    match stage {
        InstallStage::ReadBootSector => 3,
        InstallStage::WriteProbe { .. } => 2,
        InstallStage::ReadBack { .. } => 1,
        InstallStage::Done { .. } => 0,
    }
}

/// Probes the target disk by carrying out what the stages ask, in turn: reports its capacity,
/// reads sector 0, writes the probe sector to sector 1, and reads it back when the write
/// succeeded. The reports are the findings on what the device answered. A verified probe
/// always reports the signature 0xAA55.
pub fn run_install_pipeline<D: BlockDevice>(disk: &D) -> (r: InstallReport)
    ensures
        r.capacity_sectors == disk.sectors(),
        r.capacity_bytes == sectors_to_bytes_spec(disk.sectors()),
        exists|
            read0: Result<(), &'static str>,
            data0: Seq<u8>,
            write: Result<(), &'static str>,
            read1: Result<(), &'static str>,
            data1: Seq<u8>,
        | (r.sector0, r.probe) == install_findings(read0, data0, write, read1, data1),
        r.probe matches ProbeReport::Verified { signature } ==> signature == 0xAA55,
{
    let capacity_sectors = disk.capacity_sectors();
    let capacity_bytes = disk.capacity_bytes();
    let mut stage = InstallStage::ReadBootSector;
    let ghost mut read0: Result<(), &'static str> = Ok(());
    let ghost mut data0: Seq<u8> = Seq::empty();
    let ghost mut write: Result<(), &'static str> = Ok(());
    let ghost mut read1: Result<(), &'static str> = Ok(());
    let ghost mut data1: Seq<u8> = Seq::empty();
    loop
        invariant
            match stage {
                InstallStage::ReadBootSector => true,
                InstallStage::WriteProbe { sector0 } => sector0 == sector0_report_spec(read0, data0),
                InstallStage::ReadBack { sector0 } => sector0 == sector0_report_spec(read0, data0)
                    && write is Ok,
                InstallStage::Done { sector0, probe } => (sector0, probe) == install_findings(
                    read0,
                    data0,
                    write,
                    read1,
                    data1,
                ),
            },
        ensures
            stage matches InstallStage::Done { sector0, probe } && (sector0, probe)
                == install_findings(read0, data0, write, read1, data1),
        decreases stage_rank(stage),
    {
        match install_request(&stage) {
            DiskRequest::Read { sector } => {
                let mut buffer = [0u8; 512];
                let result = disk.read_sector(sector, &mut buffer);
                proof {
                    if stage is ReadBootSector {
                        read0 = result;
                        data0 = buffer@;
                    } else {
                        read1 = result;
                        data1 = buffer@;
                    }
                }
                stage = install_after_read(stage, result, &buffer);
            },
            DiskRequest::Write { sector, data } => {
                let result = disk.write_sector(sector, &data);
                proof {
                    write = result;
                }
                stage = install_after_write(stage, result);
            },
            DiskRequest::Finish => {
                break ;
            },
        }
    }
    match stage {
        InstallStage::Done { sector0, probe } => {
            proof {
                if probe is Verified {
                    assert(data1 == probe_sector());
                    assert(probe_sector()[510] == 0x55u8 && probe_sector()[511] == 0xAAu8);
                }
            }
            InstallReport { capacity_sectors, capacity_bytes, sector0, probe }
        },
        _ => {
            proof {
                assert(false);
            }
            InstallReport {
                capacity_sectors,
                capacity_bytes,
                sector0: Sector0Report::Failed("unreachable"),
                probe: ProbeReport::Mismatch,
            }
        },
    }
}

} // verus!
