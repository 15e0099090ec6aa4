//! ACPI tables as bytes: the RSDP, the root table's entries, the MADT and what it says about
//! the interrupt controllers; and the local APIC timer and end-of-interrupt programming.
use vstd::prelude::*;
use crate::arch::x86_64::cpu::{bit_set, CpuidRegs};
use crate::compression::snappy::{le_value, pow256, lemma_pow256_mono, lemma_pow256_values};

verus! {

pub const IA32_APIC_BASE_MSR: u32 = 0x1B;
pub const IA32_X2APIC_EOI_MSR: u32 = 0x80B;
pub const LOCAL_APIC_EOI_OFFSET: usize = 0xB0;
pub const APIC_BASE_ADDRESS_MASK: u64 = 0xFFFF_F000;
pub const LVT_TIMER_OFFSET: usize = 0x320;
pub const TIMER_INITIAL_COUNT_OFFSET: usize = 0x380;
pub const TIMER_DIVIDE_CONFIG_OFFSET: usize = 0x3E0;
/// Bytes of an ACPI table header.
pub const SDT_HEADER_LEN: usize = 36;
/// Bytes of the MADT header: the table header, the local APIC address and the flags.
pub const MADT_HEADER_LEN: usize = 44;
/// Bytes of an ACPI 1.0 RSDP.
pub const RSDP_V1_LEN: usize = 20;
/// Bytes of an ACPI 2.0 RSDP.
pub const RSDP_V2_LEN: usize = 36;

#[derive(Debug, Clone, Copy, PartialEq, Eq, Structural)]
pub enum ApicMode {
    XApic,
    X2Apic,
}

#[derive(Debug, Clone, Copy, PartialEq, Eq, Structural)]
pub struct ApicTopology {
    pub local_apic_address: u64,
    pub local_apic_count: usize,
    pub io_apic_count: usize,
    pub x2apic_count: usize,
    pub interrupt_override_count: usize,
    pub legacy_pic_present: bool,
    pub x2apic_capable: bool,
    pub controller_enabled: bool,
    pub mode: ApicMode,
}

/// The sum of the bytes of `s`.
pub open spec fn byte_sum(s: Seq<u8>) -> nat
    decreases s.len(),
{
    if s.len() == 0 {
        0
    } else {
        byte_sum(s.drop_last()) + s.last() as nat
    }
}

/// Whether the bytes of `s` add up to zero modulo 256, as ACPI checksums require.
pub fn checksum_ok(bytes: &[u8]) -> (r: bool)
    ensures
        r == (byte_sum(bytes@) % 256 == 0),
{
    let mut acc: u8 = 0;
    let mut i = 0usize;
    while i < bytes.len()
        invariant
            i <= bytes@.len(),
            acc == byte_sum(bytes@.take(i as int)) % 256,
        decreases bytes.len() - i,
    {
        assert(bytes@.take(i + 1).drop_last() =~= bytes@.take(i as int));
        let b = bytes[i];
        let next = acc.wrapping_add(b);
        assert(next == (acc + b) % 256);
        proof {
            vstd::arithmetic::div_mod::lemma_add_mod_noop(
                byte_sum(bytes@.take(i as int)) as int,
                b as int,
                256,
            );
            vstd::arithmetic::div_mod::lemma_small_mod(b as nat, 256);
        }
        acc = next;
        i += 1;
    }
    assert(bytes@.take(i as int) =~= bytes@);
    acc == 0
}

/// The little-endian `u32` at `at`.
pub open spec fn le32(s: Seq<u8>, at: int) -> nat {
    le_value(s, at, 4)
}

/// The little-endian `u64` at `at`.
pub open spec fn le64(s: Seq<u8>, at: int) -> nat {
    le_value(s, at, 8)
}

pub(crate) proof fn lemma_le_value_bound(s: Seq<u8>, at: int, n: nat)
    ensures
        le_value(s, at, n) < pow256(n),
    decreases n,
{
    if n > 0 {
        lemma_le_value_bound(s, at + 1, (n - 1) as nat);
        let r = le_value(s, at + 1, (n - 1) as nat);
        let p = pow256((n - 1) as nat);
        assert(s[at] as nat + 256 * r < 256 * p) by (nonlinear_arith)
            requires
                r < p,
                s[at] < 256,
        ;
    }
}

/// A four-byte little-endian field is below 2^32.
pub(crate) proof fn lemma_le32_bound(s: Seq<u8>, at: int)
    ensures
        le32(s, at) < 0x1_0000_0000,
{
    lemma_le_value_bound(s, at, 4);
    lemma_pow256_values();
}

/// Reads `n` (at most eight) little-endian bytes at `at`.
pub(crate) fn read_le(bytes: &[u8], at: usize, n: usize) -> (r: u64)
    requires
        n <= 8,
        at + n <= bytes@.len(),
        at + n <= usize::MAX,
    ensures
        r == le_value(bytes@, at as int, n as nat),
    decreases n,
{
    if n == 0 {
        return 0;
    }
    let rest = read_le(bytes, at + 1, n - 1);
    proof {
        lemma_le_value_bound(bytes@, at + 1, (n - 1) as nat);
        lemma_pow256_le7((n - 1) as nat);
    }
    bytes[at] as u64 + 256 * rest
}

proof fn lemma_pow256_le7(n: nat)
    requires
        n <= 7,
    ensures
        pow256(n) <= 0x100_0000_0000_0000,
{
    lemma_pow256_mono(n, 7);
    lemma_pow256_values();
    assert(pow256(5) == 256 * pow256(4));
    assert(pow256(6) == 256 * pow256(5));
    assert(pow256(7) == 256 * pow256(6));
}

/// Where the RSDP says the root table is: the XSDT (eight-byte entries) for revision 2 and
/// later, else the RSDT (four-byte entries).
#[derive(Debug, Clone, Copy, PartialEq, Eq, Structural)]
pub struct RootTable {
    pub address: u64,
    pub entry_size: usize,
}

/// The checks of an RSDP, in order: its signature `RSD PTR `, the checksum of its first 20
/// bytes; for revision 2 and later the checksum over its length and a non-null XSDT address,
/// otherwise a non-null RSDT address.
pub open spec fn rsdp_spec(r: Seq<u8>) -> Result<RootTable, &'static str> {
    if r.take(8) != "RSD PTR "@.map_values(|c: char| c as u8) {
        Err("RSDP signature mismatch")
    } else if byte_sum(r.take(20)) % 256 != 0 {
        Err("RSDP v1 checksum mismatch")
    } else if r[15] >= 2 {
        if byte_sum(r.take(le32(r, 20) as int)) % 256 != 0 {
            Err("RSDP v2 checksum mismatch")
        } else if le64(r, 24) == 0 {
            Err("XSDT address is null")
        } else {
            Ok(RootTable { address: le64(r, 24) as u64, entry_size: 8 })
        }
    } else if le32(r, 16) == 0 {
        Err("RSDT address is null")
    } else {
        Ok(RootTable { address: le32(r, 16) as u64, entry_size: 4 })
    }
}

/// The bytes of an RSDP that `validate_rsdp` reads: 20, and for revision 2 and later also
/// the 36 of the extended structure and as many as its length field gives.
pub open spec fn rsdp_readable(r: Seq<u8>) -> bool {
    &&& r.len() >= RSDP_V1_LEN
    &&& r[15] >= 2 ==> r.len() >= RSDP_V2_LEN && r.len() >= le32(r, 20)
}

fn bytes_match(bytes: &[u8], lit: &[u8]) -> (r: bool)
    requires
        lit@.len() <= bytes@.len(),
    ensures
        r == (bytes@.take(lit@.len() as int) == lit@),
{
    let mut i = 0usize;
    while i < lit.len()
        invariant
            lit@.len() <= bytes@.len(),
            i <= lit@.len(),
            bytes@.take(i as int) == lit@.take(i as int),
        decreases lit.len() - i,
    {
        if bytes[i] != lit[i] {
            assert(bytes@.take(lit@.len() as int)[i as int] != lit@[i as int]);
            return false;
        }
        assert(bytes@.take(i + 1) =~= lit@.take(i + 1));
        i += 1;
    }
    assert(lit@.take(i as int) =~= lit@);
    true
}

fn ascii_bytes(s: &str) -> (r: &[u8])
    requires
        vstd::string::is_ascii(s),
    ensures
        r@ == s@.map_values(|c: char| c as u8),
{
    proof {
        vstd::string::is_ascii_spec_bytes(s);
    }
    let r = s.as_bytes();
    assert(r@ =~= s@.map_values(|c: char| c as u8));
    r
}

/// Validates an RSDP and returns the root table it points to.
pub fn validate_rsdp(rsdp: &[u8]) -> (r: Result<RootTable, &'static str>)
    requires
        rsdp_readable(rsdp@),
    ensures
        r == rsdp_spec(rsdp@),
{
    proof {
        reveal_strlit("RSD PTR ");
    }
    let sig = ascii_bytes("RSD PTR ");
    assert(sig@.len() == 8);
    if !bytes_match(rsdp, sig) {
        return Err("RSDP signature mismatch");
    }
    if !checksum_ok(vstd::slice::slice_subrange(rsdp, 0, RSDP_V1_LEN)) {
        return Err("RSDP v1 checksum mismatch");
    }
    if rsdp[15] >= 2 {
        proof {
            lemma_le32_bound(rsdp@, 20);
        }
        let length = read_le(rsdp, 20, 4) as usize;
        if !checksum_ok(vstd::slice::slice_subrange(rsdp, 0, length)) {
            return Err("RSDP v2 checksum mismatch");
        }
        let xsdt = read_le(rsdp, 24, 8);
        if xsdt == 0 {
            return Err("XSDT address is null");
        }
        Ok(RootTable { address: xsdt, entry_size: 8 })
    } else {
        let rsdt = read_le(rsdp, 16, 4);
        if rsdt == 0 {
            return Err("RSDT address is null");
        }
        Ok(RootTable { address: rsdt, entry_size: 4 })
    }
}

/// The table addresses in a root table of `len` bytes: `(len - 36) / entry_size` entries
/// after the header, each `entry_size` little-endian bytes.
pub open spec fn root_entries_spec(t: Seq<u8>, entry_size: nat) -> Seq<u64> {
    Seq::new(
        ((le32(t, 4) - SDT_HEADER_LEN) / entry_size as int) as nat,
        |k: int| le_value(t, SDT_HEADER_LEN + k * entry_size, entry_size) as u64,
    )
}

/// Checks a root table (RSDT or XSDT) and returns the table addresses it lists: its length
/// must cover the header and its bytes must sum to zero.
pub fn root_sdt_entries(root: &[u8], entry_size: usize) -> (r: Result<Vec<u64>, &'static str>)
    requires
        entry_size == 4 || entry_size == 8,
        root@.len() >= SDT_HEADER_LEN,
        root@.len() >= le32(root@, 4),
    ensures
        le32(root@, 4) < SDT_HEADER_LEN ==> r == Err::<Vec<u64>, &'static str>(
            "Root SDT length is invalid",
        ),
        le32(root@, 4) >= SDT_HEADER_LEN && byte_sum(root@.take(le32(root@, 4) as int)) % 256 != 0
            ==> r == Err::<Vec<u64>, &'static str>("Root SDT checksum mismatch"),
        le32(root@, 4) >= SDT_HEADER_LEN && byte_sum(root@.take(le32(root@, 4) as int)) % 256 == 0
            ==> (r matches Ok(v) && v@ == root_entries_spec(root@, entry_size as nat)),
{
    proof {
        lemma_le32_bound(root@, 4);
    }
    let root_len = read_le(root, 4, 4) as usize;
    if root_len < SDT_HEADER_LEN {
        return Err("Root SDT length is invalid");
    }
    if !checksum_ok(vstd::slice::slice_subrange(root, 0, root_len)) {
        return Err("Root SDT checksum mismatch");
    }
    let entry_count = (root_len - SDT_HEADER_LEN) / entry_size;
    let mut entries: Vec<u64> = Vec::new();
    let mut index = 0usize;
    while index < entry_count
        invariant
            entry_size == 4 || entry_size == 8,
            root_len == le32(root@, 4),
            root_len <= root@.len(),
            root_len >= SDT_HEADER_LEN,
            entry_count == (root_len - SDT_HEADER_LEN) / entry_size as int,
            index <= entry_count,
            entries@ == root_entries_spec(root@, entry_size as nat).take(index as int),
        decreases entry_count - index,
    {
        proof {
            assert(index * entry_size + entry_size <= root_len - SDT_HEADER_LEN) by (nonlinear_arith)
                requires
                    index < entry_count,
                    entry_count == (root_len - SDT_HEADER_LEN) / entry_size as int,
                    entry_size > 0,
                    root_len >= SDT_HEADER_LEN,
            ;
        }
        let address = read_le(root, SDT_HEADER_LEN + index * entry_size, entry_size);
        entries.push(address);
        assert(entries@ =~= root_entries_spec(root@, entry_size as nat).take(index + 1));
        index += 1;
    }
    assert(entries@ =~= root_entries_spec(root@, entry_size as nat));
    Ok(entries)
}

/// Whether a table's header names it the MADT (signature `APIC`).
pub open spec fn is_madt(t: Seq<u8>) -> bool {
    t.take(4) == "APIC"@.map_values(|c: char| c as u8)
}

/// The first listed table that is the MADT, checked: among the non-null addresses in order,
/// the first whose table has the MADT signature must be long enough for the MADT header and
/// sum to zero; its position in the list.
pub open spec fn select_madt_from(entries: Seq<u64>, tables: Seq<Seq<u8>>, k: int) -> Result<int, &'static str>
    decreases entries.len() - k,
{
    if k < 0 || k >= entries.len() {
        Err("MADT not found via RSDT/XSDT")
    } else if entries[k] == 0 || !is_madt(tables[k]) {
        select_madt_from(entries, tables, k + 1)
    } else if le32(tables[k], 4) < MADT_HEADER_LEN {
        Err("MADT length is invalid")
    } else if byte_sum(tables[k].take(le32(tables[k], 4) as int)) % 256 != 0 {
        Err("MADT checksum mismatch")
    } else {
        Ok(k)
    }
}

/// The bytes that `find_madt` reads of each listed table: none at a null address; else the
/// header, and for an MADT as long as its header claims.
pub open spec fn tables_readable(entries: Seq<u64>, tables: Seq<Seq<u8>>) -> bool {
    &&& tables.len() == entries.len()
    &&& forall|k: int|
        0 <= k < entries.len() && entries[k] != 0 ==> {
            &&& #[trigger] tables[k].len() >= SDT_HEADER_LEN
            &&& is_madt(tables[k]) && le32(tables[k], 4) >= MADT_HEADER_LEN ==> tables[k].len()
                >= le32(tables[k], 4)
        }
}

/// Finds the MADT among the tables that the root table lists (`tables[k]` holds the bytes of
/// the table at `entries[k]`) and returns its address.
pub fn find_madt(entries: &[u64], tables: &[Vec<u8>]) -> (r: Result<u64, &'static str>)
    requires
        tables_readable(entries@, tables@.map_values(|t: Vec<u8>| t@)),
    ensures
        match select_madt_from(entries@, tables@.map_values(|t: Vec<u8>| t@), 0) {
            Ok(k) => r == Ok::<u64, &'static str>(entries@[k]),
            Err(e) => r == Err::<u64, &'static str>(e),
        },
{
    let ghost tv = tables@.map_values(|t: Vec<u8>| t@);
    proof {
        reveal_strlit("APIC");
    }
    let sig = ascii_bytes("APIC");
    assert(sig@.len() == 4);
    let mut index = 0usize;
    while index < entries.len()
        invariant
            tv == tables@.map_values(|t: Vec<u8>| t@),
            tables_readable(entries@, tv),
            sig@ == "APIC"@.map_values(|c: char| c as u8),
            sig@.len() == 4,
            index <= entries@.len(),
            select_madt_from(entries@, tv, 0) == select_madt_from(entries@, tv, index as int),
        decreases entries.len() - index,
    {
        let table_address = entries[index];
        if table_address == 0 {
            index += 1;
            continue;
        }
        let table = tables[index].as_slice();
        assert(table@ == tv[index as int]);
        assert(tv[index as int].len() >= SDT_HEADER_LEN);
        proof {
            lemma_le32_bound(table@, 4);
        }
        if !bytes_match(table, sig) {
            index += 1;
            continue;
        }
        let length = read_le(table, 4, 4) as usize;
        if length < MADT_HEADER_LEN {
            return Err("MADT length is invalid");
        }
        if !checksum_ok(vstd::slice::slice_subrange(table, 0, length)) {
            return Err("MADT checksum mismatch");
        }
        return Ok(table_address);
    }
    Err("MADT not found via RSDT/XSDT")
}

/// The counts of MADT entries by type: local APICs (0), I/O APICs (1), interrupt source
/// overrides (2) and local x2APICs (9).
pub type MadtCounts = (nat, nat, nat, nat);

/// The MADT's entries from `cursor` to `end` counted onto `c`; an entry shorter than its
/// two-byte header stops the walk with an error.
pub open spec fn madt_walk(m: Seq<u8>, cursor: int, end: int, c: MadtCounts) -> Result<MadtCounts, &'static str>
    decreases end + 256 - cursor,
{
    if cursor >= end {
        Ok(c)
    } else if m[cursor + 1] < 2 {
        Err("MADT entry length is invalid")
    } else {
        let t = m[cursor];
        let next = if t == 0 {
            (c.0 + 1, c.1, c.2, c.3)
        } else if t == 1 {
            (c.0, c.1 + 1, c.2, c.3)
        } else if t == 2 {
            (c.0, c.1, c.2 + 1, c.3)
        } else if t == 9 {
            (c.0, c.1, c.2, c.3 + 1)
        } else {
            c
        };
        madt_walk(m, cursor + m[cursor + 1], end, next)
    }
}

/// What the CPU says about its local APIC: `Err` without one, else whether it can run in
/// x2APIC mode.
pub fn check_apic_support(leaf1: CpuidRegs) -> (r: Result<bool, &'static str>)
    ensures
        !bit_set(leaf1.edx, 9) ==> r == Err::<bool, &'static str>("CPUID reports no local APIC support"),
        bit_set(leaf1.edx, 9) ==> r == Ok::<bool, &'static str>(bit_set(leaf1.ecx, 21)),
{
    let has_apic = (leaf1.edx & (1u32 << 9u32)) != 0;
    let has_x2apic = (leaf1.ecx & (1u32 << 21u32)) != 0;
    if !has_apic {
        return Err("CPUID reports no local APIC support");
    }
    Ok(has_x2apic)
}

/// The topology read off the APIC base MSR and the MADT: the MADT's local APIC address (the
/// MSR's base when it is zero), its legacy-PIC flag, the controller's enable bit (11) and
/// x2APIC bit (10) from the MSR, and the entry counts.
pub open spec fn topology_spec(apic_base: u64, x2apic_capable: bool, m: Seq<u8>, c: MadtCounts) -> ApicTopology {
    ApicTopology {
        local_apic_address: if le32(m, 36) != 0 {
            le32(m, 36) as u64
        } else {
            apic_base & APIC_BASE_ADDRESS_MASK
        },
        local_apic_count: c.0 as usize,
        io_apic_count: c.1 as usize,
        x2apic_count: c.3 as usize,
        interrupt_override_count: c.2 as usize,
        legacy_pic_present: le32(m, 40) % 2 == 1,
        x2apic_capable,
        controller_enabled: apic_base & 0x800 != 0,
        mode: if apic_base & 0x400 != 0 {
            ApicMode::X2Apic
        } else {
            ApicMode::XApic
        },
    }
}

/// Builds the topology from the APIC base MSR and the MADT's bytes (as many as its length
/// field gives, and one more for the last entry header that the walk may read). Fails when
/// the length does not cover the MADT header or an entry is shorter than two bytes.
pub fn discover_topology(apic_base: u64, x2apic_capable: bool, madt: &[u8]) -> (r: Result<ApicTopology, &'static str>)
    requires
        madt@.len() >= MADT_HEADER_LEN,
        madt@.len() > le32(madt@, 4),
        madt@.len() + 256 <= usize::MAX,
    ensures
        le32(madt@, 4) < MADT_HEADER_LEN ==> r == Err::<ApicTopology, &'static str>(
            "MADT length is smaller than its header",
        ),
        le32(madt@, 4) >= MADT_HEADER_LEN ==> match madt_walk(madt@, MADT_HEADER_LEN as int, le32(madt@, 4) as int, (0, 0, 0, 0)) {
            Ok(c) => r == Ok::<ApicTopology, &'static str>(topology_spec(apic_base, x2apic_capable, madt@, c)),
            Err(e) => r == Err::<ApicTopology, &'static str>(e),
        },
{
    let controller_enabled = (apic_base & (1u64 << 11u64)) != 0;
    let x2apic_enabled = (apic_base & (1u64 << 10u64)) != 0;
    assert((apic_base & (1u64 << 11u64)) == apic_base & 0x800 && (apic_base & (1u64 << 10u64))
        == apic_base & 0x400) by (bit_vector);
    let lapic = read_le(madt, 36, 4);
    let flags = read_le(madt, 40, 4);
    let legacy = (flags & 1) != 0;
    assert((flags & 1 != 0) == (flags % 2 == 1)) by (bit_vector);
    let mut topology = ApicTopology {
        local_apic_address: if lapic != 0 {
            lapic
        } else {
            apic_base & APIC_BASE_ADDRESS_MASK
        },
        local_apic_count: 0,
        io_apic_count: 0,
        x2apic_count: 0,
        interrupt_override_count: 0,
        legacy_pic_present: legacy,
        x2apic_capable,
        controller_enabled,
        mode: if x2apic_enabled {
            ApicMode::X2Apic
        } else {
            ApicMode::XApic
        },
    };
    proof {
        lemma_le32_bound(madt@, 4);
    }
    let madt_len = read_le(madt, 4, 4) as usize;
    if madt_len < MADT_HEADER_LEN {
        return Err("MADT length is smaller than its header");
    }
    let mut cursor = MADT_HEADER_LEN;
    let ghost mut c: MadtCounts = (0, 0, 0, 0);
    while cursor < madt_len
        invariant
            madt_len == le32(madt@, 4),
            madt_len < madt@.len(),
            MADT_HEADER_LEN <= cursor,
            cursor < madt_len + 256,
            madt_walk(madt@, MADT_HEADER_LEN as int, madt_len as int, (0, 0, 0, 0)) == madt_walk(
                madt@,
                cursor as int,
                madt_len as int,
                c,
            ),
            topology.local_apic_count == c.0,
            topology.io_apic_count == c.1,
            topology.interrupt_override_count == c.2,
            topology.x2apic_count == c.3,
            c.0 + c.1 + c.2 + c.3 <= cursor,
            madt@.len() + 256 <= usize::MAX,
            topology.local_apic_address == (if le32(madt@, 36) != 0 {
                le32(madt@, 36) as u64
            } else {
                apic_base & APIC_BASE_ADDRESS_MASK
            }),
            topology.legacy_pic_present == (le32(madt@, 40) % 2 == 1),
            topology.x2apic_capable == x2apic_capable,
            topology.controller_enabled == (apic_base & 0x800 != 0),
            topology.mode == (if apic_base & 0x400 != 0 {
                ApicMode::X2Apic
            } else {
                ApicMode::XApic
            }),
        decreases madt_len + 256 - cursor,
    {
        let entry_type = madt[cursor];
        let entry_length = madt[cursor + 1];
        if entry_length < 2 {
            return Err("MADT entry length is invalid");
        }
        if entry_type == 0 {
            topology.local_apic_count += 1;
            proof {
                c = (c.0 + 1, c.1, c.2, c.3);
            }
        } else if entry_type == 1 {
            topology.io_apic_count += 1;
            proof {
                c = (c.0, c.1 + 1, c.2, c.3);
            }
        } else if entry_type == 2 {
            topology.interrupt_override_count += 1;
            proof {
                c = (c.0, c.1, c.2 + 1, c.3);
            }
        } else if entry_type == 9 {
            topology.x2apic_count += 1;
            proof {
                c = (c.0, c.1, c.2, c.3 + 1);
            }
        }
        cursor = cursor + entry_length as usize;
    }
    Ok(topology)
}

/// How the local APIC timer is programmed: nothing for a disabled controller; in xAPIC mode
/// three memory-mapped registers, in x2APIC mode three MSRs; divide by 16, periodic on vector
/// 32, initial count `0x100_0000`.
#[derive(Debug, Clone, Copy, PartialEq, Eq, Structural)]
pub enum TimerProgram {
    Disabled,
    Mmio { divide: usize, lvt: usize, initial_count: usize },
    Msr,
}

pub const TIMER_DIVIDE_VALUE: u32 = 0x03;
pub const TIMER_LVT_VALUE: u32 = 0x2_0020;
pub const TIMER_INITIAL_COUNT: u32 = 0x100_0000;
pub const X2APIC_DIVIDE_MSR: u32 = 0x83E;
pub const X2APIC_LVT_TIMER_MSR: u32 = 0x832;
pub const X2APIC_INITIAL_COUNT_MSR: u32 = 0x838;

/// The timer programming for a topology.
pub fn init_timer(topology: &ApicTopology) -> (r: TimerProgram)
    requires
        topology.local_apic_address + TIMER_DIVIDE_CONFIG_OFFSET <= usize::MAX,
    ensures
        !topology.controller_enabled ==> r == TimerProgram::Disabled,
        topology.controller_enabled && topology.mode == ApicMode::XApic ==> r == (TimerProgram::Mmio {
            divide: (topology.local_apic_address + TIMER_DIVIDE_CONFIG_OFFSET) as usize,
            lvt: (topology.local_apic_address + LVT_TIMER_OFFSET) as usize,
            initial_count: (topology.local_apic_address + TIMER_INITIAL_COUNT_OFFSET) as usize,
        }),
        topology.controller_enabled && topology.mode == ApicMode::X2Apic ==> r == TimerProgram::Msr,
{
    if !topology.controller_enabled {
        return TimerProgram::Disabled;
    }
    match topology.mode {
        ApicMode::XApic => {
            let base = topology.local_apic_address as usize;
            TimerProgram::Mmio {
                divide: base + TIMER_DIVIDE_CONFIG_OFFSET,
                lvt: base + LVT_TIMER_OFFSET,
                initial_count: base + TIMER_INITIAL_COUNT_OFFSET,
            }
        },
        ApicMode::X2Apic => TimerProgram::Msr,
    }
}

/// How an end of interrupt is signalled.
#[derive(Debug, Clone, Copy, PartialEq, Eq, Structural)]
pub enum EoiAction {
    Nothing,
    Mmio(usize),
    Msr(u32),
}

/// Nothing without a discovered, enabled controller; otherwise a write of zero to the EOI
/// register: memory-mapped in xAPIC mode, the EOI MSR in x2APIC mode.
pub fn end_of_interrupt(topology: Option<ApicTopology>) -> (r: EoiAction)
    requires
        topology matches Some(t) ==> t.local_apic_address + LOCAL_APIC_EOI_OFFSET <= usize::MAX,
    ensures
        match topology {
            None => r == EoiAction::Nothing,
            Some(t) => if !t.controller_enabled {
                r == EoiAction::Nothing
            } else if t.mode == ApicMode::XApic {
                r == EoiAction::Mmio((t.local_apic_address + LOCAL_APIC_EOI_OFFSET) as usize)
            } else {
                r == EoiAction::Msr(IA32_X2APIC_EOI_MSR)
            },
        },
{
    let topology = match topology {
        Some(t) => t,
        None => {
            return EoiAction::Nothing;
        },
    };
    if !topology.controller_enabled {
        return EoiAction::Nothing;
    }
    match topology.mode {
        ApicMode::XApic => EoiAction::Mmio(topology.local_apic_address as usize + LOCAL_APIC_EOI_OFFSET),
        ApicMode::X2Apic => EoiAction::Msr(IA32_X2APIC_EOI_MSR),
    }
}

} // verus!
