use tuff_radical::arch::x86_64::cpu::{
    check_simd_support, detect_features, detect_logical_threads, enable_xcr0_state,
    simd_control_bits, topology_threads_from_leaf, CpuFeatures, CpuidRegs, CpuidSnapshot,
};
use tuff_radical::cpu as first_probe;

fn regs(eax: u32, ebx: u32, ecx: u32, edx: u32) -> CpuidRegs {
    CpuidRegs { eax, ebx, ecx, edx }
}

#[test]
fn topology_leaf_counts_threads() {
    // SMT level: 2 threads; core level: 16 threads; then the terminating subleaf.
    let leaf = [(2, 0x100), (16, 0x201), (0, 0)];
    assert_eq!(topology_threads_from_leaf(&leaf), 16);
    assert_eq!(topology_threads_from_leaf(&[]), 1);
    assert_eq!(topology_threads_from_leaf(&[(0, 0x100)]), 1);
    assert_eq!(topology_threads_from_leaf(&[(4, 0x300), (0, 0)]), 1);
}

#[test]
fn logical_threads_prefer_newest_topology_leaf() {
    let l1f = [(2, 0x100), (24, 0x201), (0, 0)];
    let l0b = [(2, 0x100), (8, 0x201), (0, 0)];
    assert_eq!(detect_logical_threads(0x20, 0x0004_0000, &l1f, &l0b), 24);
    assert_eq!(detect_logical_threads(0x10, 0x0004_0000, &l1f, &l0b), 8);
    assert_eq!(detect_logical_threads(0x0A, 0x0004_0000, &l1f, &l0b), 4);
    assert_eq!(detect_logical_threads(0x0A, 0, &l1f, &l0b), 1);
}

#[test]
fn features_from_a_snapshot() {
    let snap = CpuidSnapshot {
        max_leaf: 0x0D,
        leaf1: regs(0, 0x0010_0000, (1 << 28) | (1 << 26) | (1 << 27) | (1 << 30), 1 << 25),
        leaf7: regs(0, (1 << 5) | (1 << 16), 1 << 9, 0),
        xsave_leaf: regs(0, 0x340, 0, 0),
        topology_1f: vec![],
        topology_0b: vec![(2, 0x100), (12, 0x201), (0, 0)],
    };
    let f = detect_features(&snap);
    assert!(f.has_sse && f.has_avx && f.has_avx2 && f.has_avx512f && f.has_vaes);
    assert!(f.has_rdrand && f.has_xsave && f.has_osxsave);
    assert_eq!(f.logical_threads, 12);
    assert_eq!(f.recommended_workers, 8);
    assert_eq!(f.xsave_size, 0x340);
    assert!(!f.simd_enabled && !f.avx_enabled && !f.avx512_enabled);
    assert_eq!(f.xcr0, 0);

    let old = CpuidSnapshot { max_leaf: 1, leaf1: regs(0, 0x0003_0000, 0, 0), ..Default::default() };
    let g = detect_features(&old);
    assert!(!g.has_avx2 && !g.has_sse && !g.has_xsave);
    assert_eq!((g.logical_threads, g.recommended_workers, g.xsave_size), (3, 3, 0));
}

#[test]
fn simd_support_checks_in_order() {
    let mut f = CpuFeatures::default();
    assert_eq!(check_simd_support(&f), Err("SSE not supported"));
    f.has_sse = true;
    assert_eq!(check_simd_support(&f), Err("XSAVE not supported"));
    f.has_xsave = true;
    assert_eq!(check_simd_support(&f), Err("OSXSAVE not supported"));
    f.has_osxsave = true;
    assert_eq!(check_simd_support(&f), Ok(()));
}

#[test]
fn control_bits_and_xcr0() {
    assert_eq!(simd_control_bits(0x8000_0015, 0x20), (0x8000_0013, 0x4_0620));
    let mut f = CpuFeatures::default();
    f.has_avx = true;
    f.has_avx512f = true;
    assert_eq!(enable_xcr0_state(&mut f, 0), 0xE7);
    assert!(f.avx_enabled && f.avx512_enabled);
    let mut g = CpuFeatures::default();
    g.has_avx512f = true;
    assert_eq!(enable_xcr0_state(&mut g, 0x100), 0x103);
    assert!(!g.avx_enabled && !g.avx512_enabled);
}

#[test]
fn first_probe_features_and_xcr0() {
    let f = first_probe::detect_features(regs(0, 0, (1 << 28) | (1 << 26), 0), regs(0, 1 << 16, 0, 0));
    assert!(f.has_avx && f.has_xsave && f.has_avx512f && !f.has_avx2 && !f.has_rdrand);
    assert_eq!(f.logical_threads, 1);
    assert_eq!(first_probe::enable_simd_hardware(&f), Some((0xE7, 0xE7, 0)));
    assert_eq!(first_probe::osxsave_cr4(0x20), 0x4_0020);
    let none = first_probe::detect_features(regs(0, 0x0002_0000, 0, 0), regs(0, 0, 0, 0));
    assert_eq!(none.logical_threads, 2);
    assert_eq!(first_probe::enable_simd_hardware(&none), None);
}
