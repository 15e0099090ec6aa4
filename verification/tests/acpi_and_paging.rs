use tuff_radical::arch::x86_64::apic::{
    check_apic_support, checksum_ok, discover_topology, end_of_interrupt, find_madt, init_timer,
    root_sdt_entries, validate_rsdp, ApicMode, EoiAction, TimerProgram,
};
use tuff_radical::arch::x86_64::cpu::CpuidRegs;
use tuff_radical::arch::x86_64::paging::{
    descriptor_range, efer_with_nxe, kind_of, mapping_ranges, paging_plan, leaf_flags, pd_entry_plan, pe_image_ranges, section_kind, table_entry,
    table_indices, MappedRange, MappingKind, PdEntryPlan,
};
use tuff_radical::memory::MemoryDescriptor;

/// Sets the byte at `at` so that the first `len` bytes sum to zero.
fn fix_checksum(bytes: &mut [u8], len: usize, at: usize) {
    bytes[at] = 0;
    let sum: u32 = bytes[..len].iter().map(|&b| b as u32).sum();
    bytes[at] = ((256 - (sum % 256)) % 256) as u8;
}

fn rsdp_v1(rsdt: u32) -> Vec<u8> {
    let mut r = vec![0u8; 20];
    r[..8].copy_from_slice(b"RSD PTR ");
    r[16..20].copy_from_slice(&rsdt.to_le_bytes());
    fix_checksum(&mut r, 20, 8);
    r
}

fn rsdp_v2(xsdt: u64) -> Vec<u8> {
    let mut r = vec![0u8; 36];
    r[..8].copy_from_slice(b"RSD PTR ");
    r[15] = 2;
    r[20..24].copy_from_slice(&36u32.to_le_bytes());
    r[24..32].copy_from_slice(&xsdt.to_le_bytes());
    fix_checksum(&mut r, 20, 8);
    fix_checksum(&mut r, 36, 32);
    r
}

fn sdt(signature: &[u8; 4], body: &[u8]) -> Vec<u8> {
    let len = 36 + body.len();
    let mut t = vec![0u8; 36];
    t[..4].copy_from_slice(signature);
    t[4..8].copy_from_slice(&(len as u32).to_le_bytes());
    t.extend_from_slice(body);
    fix_checksum(&mut t, len, 9);
    t
}

fn madt(lapic: u32, flags: u32, entries: &[(u8, u8)]) -> Vec<u8> {
    let mut body = Vec::new();
    body.extend_from_slice(&lapic.to_le_bytes());
    body.extend_from_slice(&flags.to_le_bytes());
    for &(ty, len) in entries {
        body.push(ty);
        body.push(len);
        for _ in 2..len {
            body.push(0);
        }
    }
    sdt(b"APIC", &body)
}

#[test]
fn checksums_sum_to_zero() {
    assert!(checksum_ok(&[]));
    assert!(checksum_ok(&[0x80, 0x80]));
    assert!(!checksum_ok(&[1]));
}

#[test]
fn rsdp_revisions_and_errors() {
    let v1 = validate_rsdp(&rsdp_v1(0xE000)).unwrap();
    assert_eq!((v1.address, v1.entry_size), (0xE000, 4));
    let v2 = validate_rsdp(&rsdp_v2(0x1_0000_F000)).unwrap();
    assert_eq!((v2.address, v2.entry_size), (0x1_0000_F000, 8));

    let mut bad_sig = rsdp_v1(0xE000);
    bad_sig[0] = b'X';
    assert!(matches!(validate_rsdp(&bad_sig), Err("RSDP signature mismatch")));
    let mut bad_sum = rsdp_v1(0xE000);
    bad_sum[8] = bad_sum[8].wrapping_add(1);
    assert!(matches!(validate_rsdp(&bad_sum), Err("RSDP v1 checksum mismatch")));
    assert!(matches!(validate_rsdp(&rsdp_v1(0)), Err("RSDT address is null")));
    assert!(matches!(validate_rsdp(&rsdp_v2(0)), Err("XSDT address is null")));
    let mut bad_v2 = rsdp_v2(0x1000);
    bad_v2[32] = bad_v2[32].wrapping_add(1);
    assert!(matches!(validate_rsdp(&bad_v2), Err("RSDP v2 checksum mismatch")));
}

#[test]
fn root_tables_list_addresses() {
    let mut body = Vec::new();
    body.extend_from_slice(&0x1000u32.to_le_bytes());
    body.extend_from_slice(&0x2000u32.to_le_bytes());
    let rsdt = sdt(b"RSDT", &body);
    assert_eq!(root_sdt_entries(&rsdt, 4), Ok(vec![0x1000, 0x2000]));
    let xsdt = sdt(b"XSDT", &0x3_0000_0000u64.to_le_bytes());
    assert_eq!(root_sdt_entries(&xsdt, 8), Ok(vec![0x3_0000_0000]));

    let mut broken = rsdt.clone();
    broken[20] = broken[20].wrapping_add(1);
    assert_eq!(root_sdt_entries(&broken, 4), Err("Root SDT checksum mismatch"));
    let mut short = rsdt.clone();
    short[4..8].copy_from_slice(&10u32.to_le_bytes());
    assert_eq!(root_sdt_entries(&short, 4), Err("Root SDT length is invalid"));
}

#[test]
fn madt_is_found_among_listed_tables() {
    let facp = sdt(b"FACP", &[0u8; 8]);
    let apic = madt(0xFEE0_0000, 1, &[(0, 8)]);
    let entries = vec![0, 0x1000, 0x2000];
    let tables = vec![Vec::new(), facp.clone(), apic.clone()];
    assert_eq!(find_madt(&entries, &tables), Ok(0x2000));
    assert_eq!(find_madt(&[0x1000], &[facp.clone()]), Err("MADT not found via RSDT/XSDT"));
    let mut bad = apic.clone();
    bad[40] = bad[40].wrapping_add(1);
    assert_eq!(find_madt(&[0x2000], &[bad]), Err("MADT checksum mismatch"));
    let mut short = sdt(b"APIC", &[]);
    short[4..8].copy_from_slice(&40u32.to_le_bytes());
    assert_eq!(find_madt(&[0x2000], &[short]), Err("MADT length is invalid"));
}

#[test]
fn topology_counts_madt_entries() {
    let mut m = madt(0xFEE0_0000, 1, &[(0, 8), (0, 8), (1, 12), (2, 10), (9, 16), (4, 6)]);
    m.push(0);
    let t = discover_topology(0xFEE0_0900, true, &m).unwrap();
    assert_eq!(t.local_apic_address, 0xFEE0_0000);
    assert_eq!((t.local_apic_count, t.io_apic_count, t.interrupt_override_count, t.x2apic_count), (2, 1, 1, 1));
    assert!(t.legacy_pic_present && t.x2apic_capable && t.controller_enabled);
    assert_eq!(t.mode, ApicMode::XApic);

    let mut zero_base = madt(0, 0, &[]);
    zero_base.push(0);
    let t2 = discover_topology(0xFEE0_0C00, false, &zero_base).unwrap();
    assert_eq!(t2.local_apic_address, 0xFEE0_0000);
    assert_eq!(t2.mode, ApicMode::X2Apic);
    assert!(!t2.legacy_pic_present);

    let mut bad = madt(0xFEE0_0000, 0, &[(0, 1)]);
    bad.push(0);
    assert_eq!(discover_topology(0, false, &bad), Err("MADT entry length is invalid"));
    let mut short = madt(0xFEE0_0000, 0, &[]);
    short[4..8].copy_from_slice(&40u32.to_le_bytes());
    short.push(0);
    assert_eq!(discover_topology(0, false, &short), Err("MADT length is smaller than its header"));
}

#[test]
fn apic_support_timer_and_eoi() {
    assert_eq!(check_apic_support(CpuidRegs { eax: 0, ebx: 0, ecx: 1 << 21, edx: 1 << 9 }), Ok(true));
    assert_eq!(check_apic_support(CpuidRegs { eax: 0, ebx: 0, ecx: 0, edx: 1 << 9 }), Ok(false));
    assert_eq!(check_apic_support(CpuidRegs::default()), Err("CPUID reports no local APIC support"));

    let mut m = madt(0xFEE0_0000, 0, &[]);
    m.push(0);
    let xapic = discover_topology(0xFEE0_0800, false, &m).unwrap();
    assert_eq!(
        init_timer(&xapic),
        TimerProgram::Mmio { divide: 0xFEE0_03E0, lvt: 0xFEE0_0320, initial_count: 0xFEE0_0380 }
    );
    assert_eq!(end_of_interrupt(Some(xapic)), EoiAction::Mmio(0xFEE0_00B0));
    let x2 = discover_topology(0xFEE0_0C00, true, &m).unwrap();
    assert_eq!(init_timer(&x2), TimerProgram::Msr);
    assert_eq!(end_of_interrupt(Some(x2)), EoiAction::Msr(0x80B));
    let off = discover_topology(0xFEE0_0000, true, &m).unwrap();
    assert_eq!(init_timer(&off), TimerProgram::Disabled);
    assert_eq!(end_of_interrupt(Some(off)), EoiAction::Nothing);
    assert_eq!(end_of_interrupt(None), EoiAction::Nothing);
}

#[test]
fn mapping_follows_section_protection() {
    let ranges = [
        MappedRange { start: 0x20_0000, end: 0x20_3000, kind: MappingKind::Text },
        MappedRange { start: 0x20_3000, end: 0x20_5000, kind: MappingKind::Rodata },
        MappedRange { start: 0x20_5000, end: 0x40_0000, kind: MappingKind::Data },
        MappedRange { start: 0x40_0000, end: 0x80_0000, kind: MappingKind::Heap },
        MappedRange { start: 0xFEC0_0000, end: 0xFF00_0000, kind: MappingKind::Mmio },
    ];
    assert_eq!(leaf_flags(MappingKind::Text), 0x1);
    assert_eq!(leaf_flags(MappingKind::Rodata), 0x8000_0000_0000_0001);
    assert_eq!(leaf_flags(MappingKind::Data), 0x8000_0000_0000_0003);
    assert_eq!(leaf_flags(MappingKind::Heap), 0x8000_0000_0000_0003);
    assert_eq!(leaf_flags(MappingKind::Mmio), 0x8000_0000_0000_001B);
    assert!(matches!(pd_entry_plan(0, &ranges), PdEntryPlan::Unmapped));
    assert!(matches!(pd_entry_plan(0x40_0000, &ranges), PdEntryPlan::Huge(0x8000_0000_0040_0083)));
    assert!(matches!(pd_entry_plan(0xFEE0_0000, &ranges), PdEntryPlan::Huge(0x8000_0000_FEE0_009B)));
    match pd_entry_plan(0x20_0000, &ranges) {
        PdEntryPlan::Split(v) => {
            assert_eq!(v.len(), 512);
            assert_eq!(v[0], 0x20_0001);
            assert_eq!(v[2], 0x20_2001);
            assert_eq!(v[3], 0x8000_0000_0020_3001);
            assert_eq!(v[5], 0x8000_0000_0020_5003);
            assert_eq!(v[511], 0x8000_0000_003F_F003);
        }
        other => panic!("expected a split entry, got {:?}", other),
    }
    assert_eq!(kind_of(&ranges, 0x20_4FFF), Some(MappingKind::Rodata));
    assert_eq!(kind_of(&ranges, 0x80_0000), None);
    assert_eq!(section_kind(0x6000_0020), MappingKind::Text);
    assert_eq!(section_kind(0xC000_0040), MappingKind::Data);
    assert_eq!(section_kind(0x4000_0040), MappingKind::Rodata);
    assert_eq!(table_entry(0x5000, 3), 0x5003);
    assert_eq!(efer_with_nxe(0x501), 0xD01);
    assert_eq!(table_indices(0x80_4060_0000), (1, 1, 3));
}

#[test]
fn memory_map_regions_map_by_type() {
    let d = |ty: u32, start: u64, pages: u64| MemoryDescriptor { ty, phys_start: start, virt_start: 0, page_count: pages, att: 0 };
    assert_eq!(
        descriptor_range(&d(7, 0x10_0000, 16)),
        Some(MappedRange { start: 0x10_0000, end: 0x11_0000, kind: MappingKind::Heap })
    );
    assert_eq!(
        descriptor_range(&d(9, 0x7F00_0000, 1)),
        Some(MappedRange { start: 0x7F00_0000, end: 0x7F00_1000, kind: MappingKind::Rodata })
    );
    assert_eq!(
        descriptor_range(&d(11, 0xFEC0_0000, 1)),
        Some(MappedRange { start: 0xFEC0_0000, end: 0xFEC0_1000, kind: MappingKind::Mmio })
    );
    assert_eq!(descriptor_range(&d(0, 0, 16)), None);
    assert_eq!(descriptor_range(&d(7, 0, 0)), None);
    assert_eq!(descriptor_range(&d(7, u64::MAX - 0xFFF, 2)), None);
}

#[test]
fn pe_headers_give_section_ranges() {
    let mut h = vec![0u8; 0x200];
    h[0x3C] = 0x80;
    h[0x80..0x84].copy_from_slice(b"PE\0\0");
    h[0x86] = 2; // two sections
    h[0x94] = 0x10; // optional header of 16 bytes
    let table = 0x80 + 24 + 0x10;
    // .text: 0x1000 bytes at 0x1000, code, execute, read
    h[table + 8..table + 12].copy_from_slice(&0x1000u32.to_le_bytes());
    h[table + 12..table + 16].copy_from_slice(&0x1000u32.to_le_bytes());
    h[table + 36..table + 40].copy_from_slice(&0x6000_0020u32.to_le_bytes());
    // .data: 0x800 bytes at 0x3000, read, write
    h[table + 48..table + 52].copy_from_slice(&0x800u32.to_le_bytes());
    h[table + 52..table + 56].copy_from_slice(&0x3000u32.to_le_bytes());
    h[table + 76..table + 80].copy_from_slice(&0xC000_0040u32.to_le_bytes());
    assert_eq!(
        pe_image_ranges(&h, 0x40_0000),
        Some(vec![
            MappedRange { start: 0x40_1000, end: 0x40_2000, kind: MappingKind::Text },
            MappedRange { start: 0x40_3000, end: 0x40_3800, kind: MappingKind::Data },
        ])
    );
    assert_eq!(pe_image_ranges(&h, u64::MAX - 0x1000), None);
    let mut bad = h.clone();
    bad[0x80] = b'X';
    assert_eq!(pe_image_ranges(&bad, 0), None);
    assert_eq!(pe_image_ranges(&h[..0xF0], 0), None);
    assert_eq!(pe_image_ranges(&[0u8; 0x20], 0), None);
}

#[test]
fn paging_plan_covers_every_two_mib_page_up_to_the_last_range() {
    let image = [MappedRange { start: 0x1000, end: 0x2000, kind: MappingKind::Text }];
    let map = [MemoryDescriptor { ty: 7, phys_start: 0x20_0000, virt_start: 0, page_count: 512, att: 0 }];
    let ranges = mapping_ranges(&image, &map);
    assert_eq!(
        ranges,
        vec![
            MappedRange { start: 0x1000, end: 0x2000, kind: MappingKind::Text },
            MappedRange { start: 0x20_0000, end: 0x40_0000, kind: MappingKind::Heap },
            MappedRange { start: 0xC000_0000, end: 0x1_0000_0000, kind: MappingKind::Mmio },
        ]
    );
    let plan = paging_plan(&ranges);
    assert_eq!(plan.len(), 2048);
    assert_eq!(plan[0].0, 0);
    match &plan[0].1 {
        PdEntryPlan::Split(v) => {
            assert_eq!(v[0], 0);
            assert_eq!(v[1], 0x1001);
            assert_eq!(v[2], 0);
        }
        other => panic!("expected a split entry, got {:?}", other),
    }
    assert!(matches!(plan[1], (0x20_0000, PdEntryPlan::Huge(0x8000_0000_0020_0083))));
    assert!(matches!(plan[2], (0x40_0000, PdEntryPlan::Unmapped)));
    assert!(matches!(plan[1536], (0xC000_0000, PdEntryPlan::Huge(0x8000_0000_C000_009B))));
    assert!(matches!(plan[2047], (0xFFE0_0000, PdEntryPlan::Huge(0x8000_0000_FFE0_009B))));
    assert_eq!(paging_plan(&[]).len(), 0);
}
