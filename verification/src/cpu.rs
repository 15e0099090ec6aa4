//! The first feature probe: leaf 1 and leaf 7 of `cpuid`, and the XCR0 value for SIMD.
use vstd::prelude::*;
use crate::arch::x86_64::cpu::{bit_set, support_text, support_word, CpuidRegs, FeatureLine, FeatureValue};
use crate::arch::x86_64::registers::split_halves;

verus! {

#[derive(Debug, Default)]
pub struct CpuFeatures {
    pub has_avx: bool,
    pub has_avx2: bool,
    pub has_avx512f: bool,
    pub has_vaes: bool,
    pub has_rdrand: bool,
    pub has_xsave: bool,
    pub logical_threads: u32,
}

fn bit(x: u32, n: u32) -> (r: bool)
    requires
        n < 32,
    ensures
        r == bit_set(x, n),
{
    x & (1u32 << n) != 0
}

/// The features that leaf 1 and leaf 7 (subleaf 0) report; the thread count is leaf 1's
/// EBX bits 16..24, at least one.
pub fn detect_features(leaf1: CpuidRegs, leaf7: CpuidRegs) -> (f: CpuFeatures)
    ensures
        f.has_avx == bit_set(leaf1.ecx, 28),
        f.has_xsave == bit_set(leaf1.ecx, 26),
        f.has_rdrand == bit_set(leaf1.ecx, 30),
        f.logical_threads == (if (leaf1.ebx / 65536) % 256 == 0 {
            1
        } else {
            (leaf1.ebx / 65536) % 256
        }),
        f.has_avx2 == bit_set(leaf7.ebx, 5),
        f.has_avx512f == bit_set(leaf7.ebx, 16),
        f.has_vaes == bit_set(leaf7.ecx, 9),
{
    let ebx = leaf1.ebx;
    let mut logical_threads = (ebx >> 16) & 0xFF;
    assert(logical_threads == (ebx / 65536) % 256) by (bit_vector)
        requires
            logical_threads == (ebx >> 16) & 0xFF,
    ;
    if logical_threads == 0 {
        logical_threads = 1;
    }
    CpuFeatures {
        has_avx: bit(leaf1.ecx, 28),
        has_avx2: bit(leaf7.ebx, 5),
        has_avx512f: bit(leaf7.ebx, 16),
        has_vaes: bit(leaf7.ecx, 9),
        has_rdrand: bit(leaf1.ecx, 30),
        has_xsave: bit(leaf1.ecx, 26),
        logical_threads,
    }
}

/// CR4 with OSXSAVE (bit 18) set.
pub fn osxsave_cr4(cr4: u64) -> (r: u64)
    ensures
        r == cr4 | 0x4_0000,
{
    let r = cr4 | (1u64 << 18u64);
    assert(r == cr4 | 0x4_0000) by (bit_vector)
        requires
            r == cr4 | (1u64 << 18u64),
    ;
    r
}

/// The XCR0 value that switches on x87, SSE and AVX state, and the AVX-512 state too when
/// AVX-512F is reported; `None` without XSAVE, when nothing is switched on. Also its halves
/// for EAX and EDX.
pub fn enable_simd_hardware(features: &CpuFeatures) -> (r: Option<(u64, u32, u32)>)
    ensures
        !features.has_xsave ==> r is None,
        features.has_xsave ==> (r matches Some((x, eax, edx)) && x == (if features.has_avx512f {
            0xE7u64
        } else {
            7u64
        }) && eax == x && edx == 0),
{
    if !features.has_xsave {
        return None;
    }
    assert(0x1u64 | 0x2u64 | 0x4u64 == 7u64 && 7u64 | (0x20u64 | 0x40u64 | 0x80u64) == 0xE7u64)
        by (bit_vector);
    let mut xcr0: u64 = 0x1 | 0x2 | 0x4;
    if features.has_avx512f {
        xcr0 |= 0x20 | 0x40 | 0x80;
    }
    let (eax, edx) = split_halves(xcr0);
    Some((xcr0, eax, edx))
}

/// The feature log of the first probe, line by line.
pub open spec fn feature_log(f: CpuFeatures) -> Seq<FeatureLine> {
    seq![
        FeatureLine { label: "  LOGICAL THREADS: ", value: FeatureValue::Count(f.logical_threads) },
        FeatureLine {
            label: "  AVX:      ",
            value: FeatureValue::Text(
                if f.has_avx {
                    "SUPPORTED"
                } else {
                    "MISSING (Sub-optimal SIMD)"
                },
            ),
        },
        FeatureLine { label: "  AVX2:     ", value: FeatureValue::Text(support_word(f.has_avx2)) },
        FeatureLine { label: "  AVX-512F: ", value: FeatureValue::Text(support_word(f.has_avx512f)) },
        FeatureLine { label: "  VAES:     ", value: FeatureValue::Text(support_word(f.has_vaes)) },
        FeatureLine { label: "  RDRAND:   ", value: FeatureValue::Text(support_word(f.has_rdrand)) },
    ]
}

/// The lines of the feature log for `f`.
pub fn log_features(f: &CpuFeatures) -> (r: Vec<FeatureLine>)
    ensures
        r@ == feature_log(*f),
{
    vec![
        FeatureLine { label: "  LOGICAL THREADS: ", value: FeatureValue::Count(f.logical_threads) },
        FeatureLine {
            label: "  AVX:      ",
            value: FeatureValue::Text(
                if f.has_avx {
                    "SUPPORTED"
                } else {
                    "MISSING (Sub-optimal SIMD)"
                },
            ),
        },
        FeatureLine { label: "  AVX2:     ", value: FeatureValue::Text(support_text(f.has_avx2)) },
        FeatureLine { label: "  AVX-512F: ", value: FeatureValue::Text(support_text(f.has_avx512f)) },
        FeatureLine { label: "  VAES:     ", value: FeatureValue::Text(support_text(f.has_vaes)) },
        FeatureLine { label: "  RDRAND:   ", value: FeatureValue::Text(support_text(f.has_rdrand)) },
    ]
}

} // verus!
