//! What the CPU reports through `cpuid`, and how SIMD state is switched on.
use vstd::prelude::*;

verus! {

/// The four registers that one `cpuid` query returns.
#[derive(Clone, Copy, Debug, Default, PartialEq, Eq)]
pub struct CpuidRegs {
    pub eax: u32,
    pub ebx: u32,
    pub ecx: u32,
    pub edx: u32,
}

/// The `cpuid` results that feature detection reads: leaf 0's highest leaf, leaf 1, leaf 7
/// subleaf 0 (read when the highest leaf reaches 7), leaf 0xD subleaf 0 (read when XSAVE is
/// reported), and the subleaves of the topology leaves 0x1F and 0x0B (up to the first with a
/// zero EBX), each as EBX and ECX.
#[derive(Clone, Debug, Default)]
pub struct CpuidSnapshot {
    pub max_leaf: u32,
    pub leaf1: CpuidRegs,
    pub leaf7: CpuidRegs,
    pub xsave_leaf: CpuidRegs,
    pub topology_1f: Vec<(u32, u32)>,
    pub topology_0b: Vec<(u32, u32)>,
}

#[derive(Debug, Default, Clone, Copy)]
pub struct CpuFeatures {
    pub has_sse: bool,
    pub has_avx: bool,
    pub has_avx2: bool,
    pub has_avx512f: bool,
    pub has_vaes: bool,
    pub has_rdrand: bool,
    pub has_xsave: bool,
    pub has_osxsave: bool,
    pub logical_threads: u32,
    pub recommended_workers: u32,
    pub simd_enabled: bool,
    pub avx_enabled: bool,
    pub avx512_enabled: bool,
    pub xcr0: u64,
    pub xsave_size: u32,
}

/// Whether bit `n` of `x` is set.
pub open spec fn bit_set(x: u32, n: u32) -> bool {
    x & (1u32 << n) != 0
}

fn test_bit(x: u32, n: u32) -> (r: bool)
    requires
        n < 32,
    ensures
        r == bit_set(x, n),
{
    x & (1u32 << n) != 0
}

/// The logical processor count that a topology leaf reports from subleaf `i` on: the count of
/// the last SMT or core level seen (level type 1 or 2 in ECX bits 8..16, count in EBX bits
/// 0..16), up to the first subleaf whose EBX is zero.
pub open spec fn topology_scan(s: Seq<(u32, u32)>, i: int, threads: u32) -> u32
    decreases s.len() - i,
{
    if i < 0 || i >= s.len() || s[i].0 == 0 {
        threads
    } else {
        let level_type = (s[i].1 / 256) % 256;
        topology_scan(
            s,
            i + 1,
            if level_type == 1 || level_type == 2 {
                (s[i].0 % 65536) as u32
            } else {
                threads
            },
        )
    }
}

/// A topology leaf's logical processor count, at least one.
pub open spec fn topology_threads(s: Seq<(u32, u32)>) -> u32 {
    let t = topology_scan(s, 0, 0);
    if t >= 1 {
        t
    } else {
        1
    }
}

/// The logical processor count of a topology leaf, from its subleaves' EBX and ECX.
pub fn topology_threads_from_leaf(subleaves: &[(u32, u32)]) -> (r: u32)
    ensures
        r == topology_threads(subleaves@),
        r >= 1,
{
    let mut subleaf = 0usize;
    let mut threads = 0u32;
    while subleaf < subleaves.len() && subleaves[subleaf].0 != 0
        invariant
            subleaf <= subleaves@.len(),
            topology_scan(subleaves@, 0, 0) == topology_scan(subleaves@, subleaf as int, threads),
        decreases subleaves.len() - subleaf,
    {
        let (ebx, ecx) = subleaves[subleaf];
        let level_type = (ecx >> 8) & 0xFF;
        let count = ebx & 0xFFFF;
        assert(level_type == (ecx / 256) % 256 && count == ebx % 65536) by (bit_vector)
            requires
                level_type == (ecx >> 8) & 0xFF,
                count == ebx & 0xFFFF,
        ;
        if level_type == 1 || level_type == 2 {
            threads = count;
        }
        subleaf += 1;
    }
    if threads >= 1 {
        threads
    } else {
        1
    }
}

/// The logical processor count: from leaf 0x1F when the CPU has it, else from leaf 0x0B when
/// it has that, else from leaf 1's EBX bits 16..24 (at least one).
pub open spec fn logical_threads_spec(max_leaf: u32, fallback_ebx: u32, leaf_1f: Seq<(u32, u32)>, leaf_0b: Seq<(u32, u32)>) -> u32 {
    if max_leaf >= 0x1F {
        topology_threads(leaf_1f)
    } else if max_leaf >= 0x0B {
        topology_threads(leaf_0b)
    } else {
        let legacy = (fallback_ebx / 65536) % 256;
        if legacy >= 1 {
            legacy as u32
        } else {
            1
        }
    }
}

pub fn detect_logical_threads(max_leaf: u32, fallback_ebx: u32, leaf_1f: &[(u32, u32)], leaf_0b: &[(u32, u32)]) -> (r: u32)
    ensures
        r == logical_threads_spec(max_leaf, fallback_ebx, leaf_1f@, leaf_0b@),
{
    if max_leaf >= 0x1F {
        let threads = topology_threads_from_leaf(leaf_1f);
        if threads != 0 {
            return threads;
        }
    }
    if max_leaf >= 0x0B {
        let threads = topology_threads_from_leaf(leaf_0b);
        if threads != 0 {
            return threads;
        }
    }
    let legacy = (fallback_ebx >> 16) & 0xFF;
    assert(legacy == (fallback_ebx / 65536) % 256) by (bit_vector)
        requires
            legacy == (fallback_ebx >> 16) & 0xFF,
    ;
    if legacy >= 1 {
        legacy
    } else {
        1
    }
}

/// The features that a `cpuid` snapshot reports, before any is switched on.
pub open spec fn features_spec(snap: CpuidSnapshot) -> CpuFeatures {
    let has_xsave = bit_set(snap.leaf1.ecx, 26);
    let threads = logical_threads_spec(snap.max_leaf, snap.leaf1.ebx, snap.topology_1f@, snap.topology_0b@);
    CpuFeatures {
        has_sse: bit_set(snap.leaf1.edx, 25),
        has_avx: bit_set(snap.leaf1.ecx, 28),
        has_avx2: snap.max_leaf >= 7 && bit_set(snap.leaf7.ebx, 5),
        has_avx512f: snap.max_leaf >= 7 && bit_set(snap.leaf7.ebx, 16),
        has_vaes: snap.max_leaf >= 7 && bit_set(snap.leaf7.ecx, 9),
        has_rdrand: bit_set(snap.leaf1.ecx, 30),
        has_xsave,
        has_osxsave: bit_set(snap.leaf1.ecx, 27),
        logical_threads: threads,
        recommended_workers: if threads < 1 {
            1
        } else if threads > 8 {
            8
        } else {
            threads
        },
        simd_enabled: false,
        avx_enabled: false,
        avx512_enabled: false,
        xcr0: 0,
        xsave_size: if has_xsave {
            snap.xsave_leaf.ebx
        } else {
            0
        },
    }
}

/// Reads the feature flags, the XSAVE area size and the thread count out of `snap`; the
/// worker target is the thread count clamped to 1..=8.
pub fn detect_features(snap: &CpuidSnapshot) -> (f: CpuFeatures)
    ensures
        f == features_spec(*snap),
{
    let max_leaf = snap.max_leaf;
    let has_xsave = test_bit(snap.leaf1.ecx, 26);
    let logical_threads = detect_logical_threads(
        max_leaf,
        snap.leaf1.ebx,
        snap.topology_1f.as_slice(),
        snap.topology_0b.as_slice(),
    );
    let mut features = CpuFeatures {
        has_sse: test_bit(snap.leaf1.edx, 25),
        has_avx: test_bit(snap.leaf1.ecx, 28),
        has_avx2: false,
        has_avx512f: false,
        has_vaes: false,
        has_rdrand: test_bit(snap.leaf1.ecx, 30),
        has_xsave,
        has_osxsave: test_bit(snap.leaf1.ecx, 27),
        logical_threads,
        recommended_workers: 0,
        simd_enabled: false,
        avx_enabled: false,
        avx512_enabled: false,
        xcr0: 0,
        xsave_size: 0,
    };
    if features.has_xsave {
        features.xsave_size = snap.xsave_leaf.ebx;
    }
    if max_leaf >= 7 {
        features.has_avx2 = test_bit(snap.leaf7.ebx, 5);
        features.has_avx512f = test_bit(snap.leaf7.ebx, 16);
        features.has_vaes = test_bit(snap.leaf7.ecx, 9);
    }
    features.recommended_workers = if logical_threads < 1 {
        1
    } else if logical_threads > 8 {
        8
    } else {
        logical_threads
    };
    features
}

/// Why SIMD state cannot be switched on: SSE, XSAVE and OS XSAVE support are checked in that
/// order.
pub fn check_simd_support(features: &CpuFeatures) -> (r: Result<(), &'static str>)
    ensures
        r == (if !features.has_sse {
            Err::<(), &'static str>("SSE not supported")
        } else if !features.has_xsave {
            Err("XSAVE not supported")
        } else if !features.has_osxsave {
            Err("OSXSAVE not supported")
        } else {
            Ok(())
        }),
{
    if !features.has_sse {
        return Err("SSE not supported");
    }
    if !features.has_xsave {
        return Err("XSAVE not supported");
    }
    if !features.has_osxsave {
        return Err("OSXSAVE not supported");
    }
    Ok(())
}

/// CR0 and CR4 with SIMD switched on: CR0.MP set, CR0.EM cleared, CR4.OSFXSR, OSXMMEXCPT and
/// OSXSAVE set; no other bit changes.
pub fn simd_control_bits(cr0: u64, cr4: u64) -> (r: (u64, u64))
    ensures
        r.0 == (cr0 | 2) & !4u64,
        r.1 == cr4 | 0x4_0600,
        forall|i: u64| i < 64 && i != 1 && i != 2 ==> (r.0 >> i) & 1 == (cr0 >> i) & 1,
        forall|i: u64| i < 64 && i != 9 && i != 10 && i != 18 ==> (r.1 >> i) & 1 == (cr4 >> i) & 1,
{
    let mut c0 = cr0;
    let mut c4 = cr4;
    c0 |= 1 << 1;
    c0 &= !(1u64 << 2);
    c4 |= (1 << 9) | (1 << 10) | (1 << 18);
    assert(c0 == (cr0 | 2) & !4u64 && c4 == cr4 | 0x4_0600) by (bit_vector)
        requires
            c0 == (cr0 | (1u64 << 1u64)) & !(1u64 << 2u64),
            c4 == cr4 | ((1u64 << 9u64) | (1u64 << 10u64) | (1u64 << 18u64)),
    ;
    assert forall|i: u64| i < 64 && i != 1 && i != 2 implies (c0 >> i) & 1 == (cr0 >> i) & 1 by {
        lemma_other_control_bits(cr0, cr4, i);
    }
    assert forall|i: u64| i < 64 && i != 9 && i != 10 && i != 18 implies (c4 >> i) & 1 == (cr4 >> i)
        & 1 by {
        lemma_other_control_bits(cr0, cr4, i);
    }
    (c0, c4)
}

/// Setting MP, clearing EM and setting the SIMD bits of CR4 leave every other bit alone.
proof fn lemma_other_control_bits(cr0: u64, cr4: u64, i: u64)
    by (bit_vector)
    ensures
        i < 64 && i != 1 && i != 2 ==> (((cr0 | 2) & !4u64) >> i) & 1 == (cr0 >> i) & 1,
        i < 64 && i != 9 && i != 10 && i != 18 ==> ((cr4 | 0x4_0600) >> i) & 1 == (cr4 >> i) & 1,
{
}

/// The XCR0 value to write given the current one: x87 and SSE state always, AVX state when
/// AVX is reported, AVX-512 state (opmask, ZMM high halves, high ZMM registers) when AVX is
/// being enabled and AVX-512F is reported; records which of them were enabled.
pub fn enable_xcr0_state(features: &mut CpuFeatures, xcr0: u64) -> (r: u64)
    ensures
        final(features).avx_enabled == (old(features).avx_enabled || old(features).has_avx),
        final(features).avx512_enabled == (old(features).avx512_enabled || (
        final(features).avx_enabled && old(features).has_avx512f)),
        r == xcr0 | 3 | (if old(features).has_avx {
            4u64
        } else {
            0u64
        }) | (if final(features).avx_enabled && old(features).has_avx512f {
            0xE0u64
        } else {
            0u64
        }),
        final(features).has_sse == old(features).has_sse,
        final(features).has_avx == old(features).has_avx,
        final(features).has_avx2 == old(features).has_avx2,
        final(features).has_avx512f == old(features).has_avx512f,
        final(features).has_vaes == old(features).has_vaes,
        final(features).has_rdrand == old(features).has_rdrand,
        final(features).has_xsave == old(features).has_xsave,
        final(features).has_osxsave == old(features).has_osxsave,
        final(features).logical_threads == old(features).logical_threads,
        final(features).recommended_workers == old(features).recommended_workers,
        final(features).simd_enabled == old(features).simd_enabled,
        final(features).xcr0 == old(features).xcr0,
        final(features).xsave_size == old(features).xsave_size,
{
    let mut x = xcr0 | 0x1 | 0x2;
    let ghost x0 = x;
    if features.has_avx {
        x |= 0x4;
        features.avx_enabled = true;
    }
    let ghost a = features.has_avx;
    assert(x == xcr0 | 3 | (if a { 4u64 } else { 0u64 })) by (bit_vector)
        requires
            x0 == xcr0 | 0x1 | 0x2,
            a ==> x == x0 | 0x4u64,
            !a ==> x == x0,
    ;
    let ghost x1 = x;
    if features.avx_enabled && features.has_avx512f {
        x |= 0x20 | 0x40 | 0x80;
        features.avx512_enabled = true;
    }
    let ghost b = features.avx_enabled && features.has_avx512f;
    assert(x == x1 | (if b { 0xE0u64 } else { 0u64 })) by (bit_vector)
        requires
            b ==> x == x1 | (0x20u64 | 0x40u64 | 0x80u64),
            !b ==> x == x1,
    ;
    x
}

/// The value shown on one line of the feature log.
#[derive(Clone, Copy, Debug)]
pub enum FeatureValue {
    Count(u32),
    Text(&'static str),
}

/// One line of the feature log: its label, padding included, and its value.
#[derive(Clone, Copy, Debug)]
pub struct FeatureLine {
    pub label: &'static str,
    pub value: FeatureValue,
}

/// How a CPUID feature flag is shown.
pub open spec fn support_word(b: bool) -> &'static str {
    if b {
        "SUPPORTED"
    } else {
        "MISSING"
    }
}

/// How a runtime switch is shown.
pub open spec fn switch_word(b: bool) -> &'static str {
    if b {
        "YES"
    } else {
        "NO"
    }
}

pub fn support_text(b: bool) -> (r: &'static str)
    ensures
        r == support_word(b),
{
    if b {
        "SUPPORTED"
    } else {
        "MISSING"
    }
}

fn switch_text(b: bool) -> (r: &'static str)
    ensures
        r == switch_word(b),
{
    if b {
        "YES"
    } else {
        "NO"
    }
}

/// The feature log, line by line: thread count and worker target, the CPUID flags (a missing
/// AVX is flagged as sub-optimal), and the three runtime switches.
pub open spec fn feature_log(f: CpuFeatures) -> Seq<FeatureLine> {
    seq![
        FeatureLine { label: "  LOGICAL THREADS: ", value: FeatureValue::Count(f.logical_threads) },
        FeatureLine { label: "  WORKER TARGET: ", value: FeatureValue::Count(f.recommended_workers) },
        FeatureLine { label: "  SSE:      ", value: FeatureValue::Text(support_word(f.has_sse)) },
        FeatureLine {
            label: "  AVX:      ",
            value: FeatureValue::Text(
                if f.has_avx {
                    "SUPPORTED"
                } else {
                    "MISSING (Sub-optimal SIMD)"
                },
            ),
        },
        FeatureLine { label: "  AVX2:     ", value: FeatureValue::Text(support_word(f.has_avx2)) },
        FeatureLine { label: "  AVX-512F: ", value: FeatureValue::Text(support_word(f.has_avx512f)) },
        FeatureLine { label: "  VAES:     ", value: FeatureValue::Text(support_word(f.has_vaes)) },
        FeatureLine { label: "  RDRAND:   ", value: FeatureValue::Text(support_word(f.has_rdrand)) },
        FeatureLine { label: "  XSAVE:    ", value: FeatureValue::Text(support_word(f.has_xsave)) },
        FeatureLine { label: "  OSXSAVE:  ", value: FeatureValue::Text(support_word(f.has_osxsave)) },
        FeatureLine { label: "  SIMD ON:  ", value: FeatureValue::Text(switch_word(f.simd_enabled)) },
        FeatureLine { label: "  AVX ON:   ", value: FeatureValue::Text(switch_word(f.avx_enabled)) },
        FeatureLine { label: "  AVX512 ON:", value: FeatureValue::Text(switch_word(f.avx512_enabled)) },
    ]
}

/// The lines of the feature log for `f`.
pub fn log_features(f: &CpuFeatures) -> (r: Vec<FeatureLine>)
    ensures
        r@ == feature_log(*f),
{
    vec![
        FeatureLine { label: "  LOGICAL THREADS: ", value: FeatureValue::Count(f.logical_threads) },
        FeatureLine { label: "  WORKER TARGET: ", value: FeatureValue::Count(f.recommended_workers) },
        FeatureLine { label: "  SSE:      ", value: FeatureValue::Text(support_text(f.has_sse)) },
        FeatureLine {
            label: "  AVX:      ",
            value: FeatureValue::Text(
                if f.has_avx {
                    "SUPPORTED"
                } else {
                    "MISSING (Sub-optimal SIMD)"
                },
            ),
        },
        FeatureLine { label: "  AVX2:     ", value: FeatureValue::Text(support_text(f.has_avx2)) },
        FeatureLine { label: "  AVX-512F: ", value: FeatureValue::Text(support_text(f.has_avx512f)) },
        FeatureLine { label: "  VAES:     ", value: FeatureValue::Text(support_text(f.has_vaes)) },
        FeatureLine { label: "  RDRAND:   ", value: FeatureValue::Text(support_text(f.has_rdrand)) },
        FeatureLine { label: "  XSAVE:    ", value: FeatureValue::Text(support_text(f.has_xsave)) },
        FeatureLine { label: "  OSXSAVE:  ", value: FeatureValue::Text(support_text(f.has_osxsave)) },
        FeatureLine { label: "  SIMD ON:  ", value: FeatureValue::Text(switch_text(f.simd_enabled)) },
        FeatureLine { label: "  AVX ON:   ", value: FeatureValue::Text(switch_text(f.avx_enabled)) },
        FeatureLine { label: "  AVX512 ON:", value: FeatureValue::Text(switch_text(f.avx512_enabled)) },
    ]
}

/// The XSAVE area of one task's SIMD registers.
pub struct SimdState {
    pub buffer: [u8; 4096],
}

impl SimdState {
    /// A zeroed save area.
    pub fn new() -> (r: Self)
        ensures
            forall|i: int| 0 <= i < 4096 ==> r.buffer@[i] == 0,
    {
        SimdState { buffer: [0u8; 4096] }
    }
}

} // verus!
