//! A pool of compressed blocks behind one `Compressor` backend.
use vstd::prelude::*;
use crate::compression::{Compressor, SnappyCompressor};

verus! {

/// One stored block: its compressed bytes and the length of the data they encode.
struct ZramBlock {
    data: Vec<u8>,
    uncompressed_len: usize,
}

/// Compressed blocks, numbered in the order they were stored, with running byte totals.
pub struct ZramPool<C: Compressor> {
    backend: C,
    blocks: Vec<ZramBlock>,
    total_uncompressed_bytes: usize,
    total_compressed_bytes: usize,
    stored: Ghost<Seq<Seq<u8>>>,
}

impl<C: Compressor> ZramPool<C> {
    /// The data of each stored block, by block number.
    pub closed spec fn view(&self) -> Seq<Seq<u8>> {
        self.stored@
    }

    /// The backend that the pool compresses with.
    pub closed spec fn compressor(&self) -> C {
        self.backend
    }

    /// Sum of the stored data lengths.
    pub closed spec fn uncompressed_total(&self) -> nat {
        self.total_uncompressed_bytes as nat
    }

    /// Sum of the stored compressed lengths.
    pub closed spec fn compressed_total(&self) -> nat {
        self.total_compressed_bytes as nat
    }

    /// Every block encodes the data recorded for it, under the pool's backend.
    pub closed spec fn wf(&self) -> bool {
        &&& self.blocks@.len() == self.stored@.len()
        &&& forall|i: int|
            0 <= i < self.blocks@.len() ==> {
                &&& self.backend.encodes(#[trigger] self.stored@[i], self.blocks@[i].data@)
                &&& self.blocks@[i].uncompressed_len == self.stored@[i].len()
            }
    }

    /// The backend's name and the pool's counters: blocks, uncompressed and compressed bytes.
    pub fn stats(&self) -> (r: (&'static str, usize, usize, usize))
        requires
            self.wf(),
        ensures
            r.0 == self.compressor().backend_name(),
            r.1 == self@.len(),
            r.2 == self.uncompressed_total(),
            r.3 == self.compressed_total(),
    {
        (self.backend.name(), self.blocks.len(), self.total_uncompressed_bytes, self.total_compressed_bytes)
    }
}

/// The bytes that the self-test compresses and decompresses.
pub open spec fn self_test_pattern() -> Seq<u8> {
    "TUFF-RADICAL-ZRAM-SELF-TEST-PATTERN-BASE-0123456789ABCDEF"@.map_values(|c: char| c as u8)
}

/// An empty pool with the Snappy backend, and whether the backend passed its self-test: the
/// test pattern compressed into a buffer of `max_compressed_len` bytes, decompressed and
/// compared equal. It passes exactly when the encoder takes the pattern and its encoding fits
/// that buffer.
pub fn init() -> (r: (ZramPool<SnappyCompressor>, bool))
    ensures
        r.0.wf(),
        r.0@ == Seq::<Seq<u8>>::empty(),
        r.0.uncompressed_total() == 0,
        r.0.compressed_total() == 0,
        r.1 == (crate::compression::snappy::snappy_compressible(self_test_pattern())
            && crate::compression::snappy::compress_spec(self_test_pattern()).len() <= 98),
{
    let pool = ZramPool {
        backend: SnappyCompressor,
        blocks: Vec::new(),
        total_uncompressed_bytes: 0,
        total_compressed_bytes: 0,
        stored: Ghost(Seq::empty()),
    };
    let pattern = "TUFF-RADICAL-ZRAM-SELF-TEST-PATTERN-BASE-0123456789ABCDEF";
    proof {
        reveal_strlit("TUFF-RADICAL-ZRAM-SELF-TEST-PATTERN-BASE-0123456789ABCDEF");
        assert(vstd::string::is_ascii(pattern));
        vstd::string::is_ascii_spec_bytes(pattern);
    }
    let test_data: &[u8] = pattern.as_bytes();
    assert(test_data@ =~= self_test_pattern());
    assert(test_data@.len() == 57);
    let mut verified = false;
    let mut compressed = vec![0u8; pool.backend.max_compressed_len(test_data.len())];
    assert(compressed@.len() == 98);
    if let Ok(c_len) = pool.backend.compress(test_data, compressed.as_mut_slice()) {
        let mut decompressed = vec![0u8; test_data.len()];
        let c = vstd::slice::slice_subrange(compressed.as_slice(), 0, c_len);
        proof {
            assert(c@ == crate::compression::snappy::compress_spec(test_data@));
            crate::compression::snappy::lemma_snappy_roundtrip(test_data@);
        }
        if let Ok(d_len) = pool.backend.decompress(c, decompressed.as_mut_slice()) {
            if d_len <= decompressed.len() {
                verified = bytes_equal(vstd::slice::slice_subrange(decompressed.as_slice(), 0, d_len), test_data);
            }
        }
    }
    (pool, verified)
}

/// The figures of the pool's stats line (backend name, blocks, uncompressed and compressed
/// bytes); `None` before the pool is initialised.
pub fn log_stats<C: Compressor>(pool: &Option<ZramPool<C>>) -> (r: Option<(&'static str, usize, usize, usize)>)
    requires
        pool matches Some(p) ==> p.wf(),
    ensures
        pool is None ==> r is None,
        pool matches Some(p) ==> (r matches Some(st) && st.0 == p.compressor().backend_name()
            && st.1 == p@.len() && st.2
            == p.uncompressed_total() && st.3 == p.compressed_total()),
{
    match pool {
        Some(p) => Some(p.stats()),
        None => None,
    }
}

/// Whether two byte slices are equal.
pub fn bytes_equal(a: &[u8], b: &[u8]) -> (r: bool)
    ensures
        r == (a@ == b@),
{
    if a.len() != b.len() {
        return false;
    }
    let mut i = 0usize;
    while i < a.len()
        invariant
            a@.len() == b@.len(),
            i <= a@.len(),
            a@.take(i as int) == b@.take(i as int),
        decreases a.len() - i,
    {
        if a[i] != b[i] {
            assert(a@[i as int] != b@[i as int]);
            return false;
        }
        assert(a@.take(i + 1) =~= b@.take(i + 1));
        i += 1;
    }
    assert(a@ =~= a@.take(i as int));
    assert(b@ =~= b@.take(i as int));
    true
}

/// Compresses `data` into a new block of the pool and returns the block's number.
pub fn store<C: Compressor>(pool: &mut Option<ZramPool<C>>, data: &[u8]) -> (r: Result<usize, &'static str>)
    requires
        *old(pool) matches Some(p) ==> p.wf() && data@.len() <= usize::MAX / 2 && p.uncompressed_total()
            + data@.len() <= usize::MAX && p.compressed_total() + p.compressor().compressed_len_bound(
            data@.len(),
        ) <= usize::MAX,
    ensures
        *old(pool) is None ==> r == Err::<usize, &'static str>("ZRAM not initialized") && *final(pool)
            is None,
        *old(pool) matches Some(p) ==> *final(pool) matches Some(q) && q.wf() && q.compressor()
            == p.compressor() && match p.compressor().compress_outcome(
            data@,
            p.compressor().compressed_len_bound(data@.len()),
        ) {
            Ok(n) => {
                &&& r == Ok::<usize, &'static str>(p@.len() as usize)
                &&& q@ == p@.push(data@)
                &&& q.uncompressed_total() == p.uncompressed_total() + data@.len()
                &&& q.compressed_total() == p.compressed_total() + n
                &&& n <= p.compressor().compressed_len_bound(data@.len())
            },
            Err(e) => r == Err::<usize, &'static str>(e) && q@ == p@ && q.uncompressed_total()
                == p.uncompressed_total() && q.compressed_total() == p.compressed_total(),
        },
{
    match pool {
        None => Err("ZRAM not initialized"),
        Some(p) => {
            let mut compressed = vec![0u8; p.backend.max_compressed_len(data.len())];
            let c_len = match p.backend.compress(data, compressed.as_mut_slice()) {
                Ok(n) => n,
                Err(e) => {
                    return Err(e);
                },
            };
            compressed.truncate(c_len);
            let id = p.blocks.len();
            let ghost before = p.stored@;
            p.blocks.push(ZramBlock { data: compressed, uncompressed_len: data.len() });
            p.total_uncompressed_bytes = p.total_uncompressed_bytes + data.len();
            p.total_compressed_bytes = p.total_compressed_bytes + c_len;
            p.stored = Ghost(before.push(data@));
            assert forall|i: int| 0 <= i < p.blocks@.len() implies {
                &&& p.backend.encodes(#[trigger] p.stored@[i], p.blocks@[i].data@)
                &&& p.blocks@[i].uncompressed_len == p.stored@[i].len()
            } by {
                if i < before.len() {
                    assert(p.stored@[i] == before[i]);
                }
            }
            Ok(id)
        },
    }
}

/// Decompresses block `id` into the front of `buffer` and returns its length.
pub fn load<C: Compressor>(pool: &Option<ZramPool<C>>, id: usize, buffer: &mut [u8]) -> (r: Result<usize, &'static str>)
    requires
        pool matches Some(p) ==> p.wf(),
    ensures
        final(buffer)@.len() == old(buffer)@.len(),
        pool is None ==> r == Err::<usize, &'static str>("ZRAM not initialized"),
        pool matches Some(p) ==> {
            &&& id >= p@.len() ==> r == Err::<usize, &'static str>("Invalid block ID")
            &&& id < p@.len() && p@[id as int].len() <= old(buffer)@.len() ==> r == Ok::<
                usize,
                &'static str,
            >(p@[id as int].len() as usize) && final(buffer)@.take(p@[id as int].len() as int)
                == p@[id as int]
        },
{
    match pool {
        None => Err("ZRAM not initialized"),
        Some(p) => {
            if id >= p.blocks.len() {
                return Err("Invalid block ID");
            }
            let block = &p.blocks[id];
            assert(p.backend.encodes(p.stored@[id as int], block.data@));
            p.backend.decompress(block.data.as_slice(), buffer)
        },
    }
}

} // verus!
