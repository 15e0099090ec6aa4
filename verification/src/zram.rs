//! The in-memory compression pool: blocks compressed with Snappy (the default) or LZ4.
use vstd::prelude::*;
use crate::compression::snappy;

verus! {

/// `lz4_flex`'s error type for a block that does not decode.
#[verifier::external_type_specification]
#[verifier::external_body]
pub struct ExLz4DecompressError(lz4_flex::block::DecompressError);

/// What `lz4_flex::block::compress_prepend_size` returns for given bytes.
pub uninterp spec fn lz4_compressed(data: Seq<u8>) -> Seq<u8>;

/// What `lz4_flex::block::decompress_size_prepended` returns for given bytes: the decoded
/// data, or `None` where it returns an error.
pub uninterp spec fn lz4_decompressed(data: Seq<u8>) -> Option<Seq<u8>>;

/// Calls `lz4_flex::block::compress_prepend_size`: the LZ4 block of `data` behind its length
/// as a little-endian `u32`. The crate sizes its buffer as `24 + len * 110 / 100` and truncates
/// to the four header bytes plus what it wrote, so the result is no longer and holds at least
/// the header; the multiplication needs `len * 110` to fit.
#[verifier::external_body]
fn lz4_compress_prepend_size(data: &[u8]) -> (r: Vec<u8>)
    requires
        data@.len() <= usize::MAX / 110,
    ensures
        r@ == lz4_compressed(data@),
        r@.len() <= 24 + data@.len() * 110 / 100,
        r@.len() >= 4,
{
    lz4_flex::block::compress_prepend_size(data)
}

/// Inputs of this many bytes or more are handed to the LZ4 decoder only when they are the
/// encoder's own output. The decoder sums the bytes of a literal or match length as a `u32`
/// while they read 0xFF; a run of more than 16_843_009 such bytes overflows that sum, which
/// panics where overflow checks are on. The encoder never writes such a run: the lengths it
/// encodes are at most its input's length.
pub const LZ4_DECODE_INPUT_LIMIT: usize = 16_843_009;

/// Calls `lz4_flex::block::decompress_size_prepended` on an input that is short enough never
/// to overflow the decoder's length sums, or that `compress_prepend_size` wrote for data whose
/// length fits the `u32` header. As the crate documents, it gives back the data that
/// `compress_prepend_size` compressed in the latter case; the call allocates the length that
/// the header announces.
#[verifier::external_body]
fn lz4_decompress_size_prepended(data: &[u8]) -> (r: Result<Vec<u8>, lz4_flex::block::DecompressError>)
    requires
        data@.len() < LZ4_DECODE_INPUT_LIMIT || exists|x: Seq<u8>|
            x.len() <= u32::MAX && #[trigger] lz4_compressed(x) == data@,
    ensures
        r is Ok <==> lz4_decompressed(data@) is Some,
        r matches Ok(v) ==> lz4_decompressed(data@) == Some(v@),
        r is Err ==> forall|x: Seq<u8>|
            x.len() <= u32::MAX ==> #[trigger] lz4_compressed(x) != data@,
        r matches Ok(v) ==> forall|x: Seq<u8>|
            x.len() <= u32::MAX && #[trigger] lz4_compressed(x) == data@ ==> v@ == x,
{
    lz4_flex::block::decompress_size_prepended(data)
}

/// The codecs a block can be stored with.
#[derive(Clone, Copy, Debug, PartialEq, Eq, Structural)]
pub enum CompressionBackend {
    Snappy,
    Lz4,
}

/// The name of a backend.
pub open spec fn backend_name(b: CompressionBackend) -> &'static str {
    match b {
        CompressionBackend::Snappy => "snappy",
        CompressionBackend::Lz4 => "lz4",
    }
}

impl CompressionBackend {
    pub fn as_str(self) -> (r: &'static str)
        ensures
            r == backend_name(self),
    {
        match self {
            CompressionBackend::Snappy => "snappy",
            CompressionBackend::Lz4 => "lz4",
        }
    }
}

/// What `compress_block` returns.
pub open spec fn compress_block_spec(backend: CompressionBackend, data: Seq<u8>) -> Seq<u8> {
    match backend {
        CompressionBackend::Snappy => snappy::compress_spec(data),
        CompressionBackend::Lz4 => lz4_compressed(data),
    }
}

/// What `decompress_block` returns.
pub open spec fn decompress_block_spec(backend: CompressionBackend, data: Seq<u8>) -> Result<Seq<u8>, &'static str> {
    match backend {
        CompressionBackend::Snappy => match snappy::decompress_spec(data) {
            Ok(d) => Ok(d),
            Err(_) => Err("snappy decode failed"),
        },
        CompressionBackend::Lz4 => match lz4_decompressed(data) {
            Some(d) => Ok(d),
            None => Err("lz4 decode failed"),
        },
    }
}

/// The inputs that may be handed to the LZ4 decoder: short ones, and blocks that the encoder
/// wrote for data whose length fits the header.
pub open spec fn lz4_decodable(data: Seq<u8>) -> bool {
    data.len() < LZ4_DECODE_INPUT_LIMIT || exists|x: Seq<u8>|
        x.len() <= u32::MAX && #[trigger] lz4_compressed(x) == data
}

/// The data that `compress_block` accepts for a backend: what the Snappy encoder can write,
/// and for LZ4 a length whose size estimate does not overflow.
pub open spec fn block_compressible(backend: CompressionBackend, data: Seq<u8>) -> bool {
    match backend {
        CompressionBackend::Snappy => snappy::snappy_compressible(data),
        CompressionBackend::Lz4 => data.len() <= usize::MAX / 110,
    }
}

/// Compresses `data` with `backend`.
pub fn compress_block(backend: CompressionBackend, data: &[u8]) -> (r: Vec<u8>)
    requires
        block_compressible(backend, data@),
    ensures
        r@ == compress_block_spec(backend, data@),
        r@.len() <= 6 * data@.len() + 24,
        r@.len() >= 1,
        backend == CompressionBackend::Lz4 ==> r@.len() <= 24 + data@.len() * 110 / 100,
{
    match backend {
        CompressionBackend::Snappy => {
            proof {
                snappy::lemma_compress_spec_bound(data@);
                snappy::lemma_varint_bytes_len(data@.len() as u32);
            }
            snappy::compress(data)
        },
        CompressionBackend::Lz4 => lz4_compress_prepend_size(data),
    }
}

/// Decompresses a block written with `backend`. A block that `compress_block` wrote decodes
/// to its data when that data's length fits the header. LZ4 input must be short or the
/// encoder's own output (the decoder panics on some long runs of 0xFF bytes).
pub fn decompress_block(backend: CompressionBackend, data: &[u8]) -> (r: Result<Vec<u8>, &'static str>)
    requires
        backend == CompressionBackend::Lz4 ==> lz4_decodable(data@),
    ensures
        snappy::bytes_result(r) == decompress_block_spec(backend, data@),
        forall|x: Seq<u8>|
            #![trigger compress_block_spec(backend, x)]
            x.len() <= u32::MAX && block_compressible(backend, x) && compress_block_spec(backend, x)
                == data@ ==> (r matches Ok(v) && v@ == x),
{
    proof {
        assert forall|x: Seq<u8>|
            #![trigger compress_block_spec(backend, x)]
            x.len() <= u32::MAX && block_compressible(backend, x) && backend
                == CompressionBackend::Snappy && compress_block_spec(backend, x) == data@ implies snappy::decompress_spec(data@) == Ok::<Seq<u8>, &'static str>(x) by {
            snappy::lemma_snappy_roundtrip(x);
        }
    }
    match backend {
        CompressionBackend::Snappy => match snappy::decompress(data) {
            Ok(v) => Ok(v),
            Err(_) => Err("snappy decode failed"),
        },
        CompressionBackend::Lz4 => match lz4_decompress_size_prepended(data) {
            Ok(v) => Ok(v),
            Err(_) => Err("lz4 decode failed"),
        },
    }
}

/// A block round trip's sizes and cycle counts.
#[derive(Clone, Copy)]
pub struct BackendBenchmark {
    pub input_bytes: usize,
    pub compressed_bytes: usize,
    pub compress_cycles: u64,
    pub decompress_cycles: u64,
}

/// The verdict on a measured round trip of `sample`: the decoder's error, a mismatch, or the
/// sizes and the cycle counts that were measured.
pub fn benchmark_outcome(
    sample: &[u8],
    compressed: &Vec<u8>,
    decompressed: Result<Vec<u8>, &'static str>,
    compress_cycles: u64,
    decompress_cycles: u64,
) -> (r: Result<BackendBenchmark, &'static str>)
    ensures
        match decompressed {
            Err(e) => r == Err::<BackendBenchmark, &'static str>(e),
            Ok(d) => if d@ != sample@ {
                r == Err::<BackendBenchmark, &'static str>("roundtrip mismatch")
            } else {
                r matches Ok(b) && b.input_bytes == sample@.len() && b.compressed_bytes
                    == compressed@.len() && b.compress_cycles == compress_cycles
                    && b.decompress_cycles == decompress_cycles
            },
        },
{
    let d = match decompressed {
        Ok(d) => d,
        Err(e) => {
            return Err(e);
        },
    };
    if !crate::compression::zram::bytes_equal(d.as_slice(), sample) {
        return Err("roundtrip mismatch");
    }
    Ok(BackendBenchmark {
        input_bytes: sample.len(),
        compressed_bytes: compressed.len(),
        compress_cycles,
        decompress_cycles,
    })
}

/// One stored block.
#[derive(Clone)]
struct CompressedBlock {
    backend: CompressionBackend,
    data: Vec<u8>,
    uncompressed_len: usize,
}

/// In-memory compression pool: Snappy by default, LZ4 for comparison.
pub struct TRadZram {
    default_backend: CompressionBackend,
    total_uncompressed_bytes: usize,
    total_compressed_bytes: usize,
    blocks: Vec<CompressedBlock>,
    stored: Ghost<Seq<Seq<u8>>>,
}

impl TRadZram {
    /// The data of each stored block, by block number.
    pub closed spec fn view(&self) -> Seq<Seq<u8>> {
        self.stored@
    }

    /// The backend of each stored block.
    pub closed spec fn backends(&self) -> Seq<CompressionBackend> {
        self.blocks@.map_values(|b: CompressedBlock| b.backend)
    }

    /// The compressed bytes of each stored block.
    pub closed spec fn compressed_blocks(&self) -> Seq<Seq<u8>> {
        self.blocks@.map_values(|b: CompressedBlock| b.data@)
    }

    pub closed spec fn default_backend_spec(&self) -> CompressionBackend {
        self.default_backend
    }

    pub closed spec fn uncompressed_total(&self) -> nat {
        self.total_uncompressed_bytes as nat
    }

    pub closed spec fn compressed_total(&self) -> nat {
        self.total_compressed_bytes as nat
    }

    /// Each block holds its backend's encoding of the data recorded for it, and once any data
    /// is stored some compressed bytes are too: every encoding holds at least one byte.
    pub closed spec fn wf(&self) -> bool {
        &&& self.blocks@.len() == self.stored@.len()
        &&& self.total_uncompressed_bytes > 0 ==> self.total_compressed_bytes > 0
        &&& forall|i: int|
            0 <= i < self.blocks@.len() ==> {
                &&& #[trigger] self.blocks@[i].data@ == compress_block_spec(
                    self.blocks@[i].backend,
                    self.stored@[i],
                )
                &&& block_compressible(self.blocks@[i].backend, self.stored@[i])
                &&& self.blocks@[i].uncompressed_len == self.stored@[i].len()
            }
    }

    /// An empty pool that stores with `default_backend`.
    pub fn new(default_backend: CompressionBackend) -> (r: Self)
        ensures
            r.wf(),
            r@ == Seq::<Seq<u8>>::empty(),
            r.default_backend_spec() == default_backend,
            r.uncompressed_total() == 0,
            r.compressed_total() == 0,
    {
        TRadZram {
            default_backend,
            total_uncompressed_bytes: 0,
            total_compressed_bytes: 0,
            blocks: Vec::new(),
            stored: Ghost(Seq::empty()),
        }
    }

    pub fn default_backend(&self) -> (r: CompressionBackend)
        ensures
            r == self.default_backend_spec(),
    {
        self.default_backend
    }

    pub fn set_default_backend(&mut self, backend: CompressionBackend)
        ensures
            final(self).default_backend_spec() == backend,
            final(self)@ == old(self)@,
            final(self).backends() == old(self).backends(),
            final(self).compressed_blocks() == old(self).compressed_blocks(),
            final(self).uncompressed_total() == old(self).uncompressed_total(),
            final(self).compressed_total() == old(self).compressed_total(),
            old(self).wf() ==> final(self).wf(),
    {
        self.default_backend = backend;
    }

    /// Number of stored blocks.
    pub fn block_count(&self) -> (r: usize)
        requires
            self.wf(),
        ensures
            r == self@.len(),
    {
        self.blocks.len()
    }

    /// Bytes stored before and after compression.
    pub fn totals(&self) -> (r: (usize, usize))
        ensures
            r.0 == self.uncompressed_total(),
            r.1 == self.compressed_total(),
    {
        (self.total_uncompressed_bytes, self.total_compressed_bytes)
    }

    /// Compresses `data` with the default backend, stores it, and returns its block number.
    pub fn store(&mut self, data: &[u8]) -> (id: usize)
        requires
            old(self).wf(),
            block_compressible(old(self).default_backend_spec(), data@),
            old(self).uncompressed_total() + data@.len() <= usize::MAX,
            old(self).compressed_total() + 6 * data@.len() + 24 <= usize::MAX,
        ensures
            final(self).wf(),
            id == old(self)@.len(),
            final(self)@ == old(self)@.push(data@),
            final(self).backends() == old(self).backends().push(old(self).default_backend_spec()),
            final(self).compressed_blocks() == old(self).compressed_blocks().push(
                compress_block_spec(old(self).default_backend_spec(), data@),
            ),
            final(self).default_backend_spec() == old(self).default_backend_spec(),
            final(self).uncompressed_total() == old(self).uncompressed_total() + data@.len(),
            final(self).compressed_total() == old(self).compressed_total() + compress_block_spec(
                old(self).default_backend_spec(),
                data@,
            ).len(),
    {
        let backend = self.default_backend;
        self.store_with_backend(data, backend)
    }

    /// Compresses `data` with `backend`, stores it, and returns its block number.
    pub fn store_with_backend(&mut self, data: &[u8], backend: CompressionBackend) -> (id: usize)
        requires
            old(self).wf(),
            block_compressible(backend, data@),
            old(self).uncompressed_total() + data@.len() <= usize::MAX,
            old(self).compressed_total() + 6 * data@.len() + 24 <= usize::MAX,
        ensures
            final(self).wf(),
            id == old(self)@.len(),
            final(self)@ == old(self)@.push(data@),
            final(self).backends() == old(self).backends().push(backend),
            final(self).compressed_blocks() == old(self).compressed_blocks().push(
                compress_block_spec(backend, data@),
            ),
            final(self).default_backend_spec() == old(self).default_backend_spec(),
            final(self).uncompressed_total() == old(self).uncompressed_total() + data@.len(),
            final(self).compressed_total() == old(self).compressed_total() + compress_block_spec(
                backend,
                data@,
            ).len(),
    {
        let compressed = compress_block(backend, data);
        self.total_uncompressed_bytes = self.total_uncompressed_bytes + data.len();
        self.total_compressed_bytes = self.total_compressed_bytes + compressed.len();
        let id = self.blocks.len();
        let ghost before = self.stored@;
        let ghost old_blocks = self.blocks@;
        let ghost written = compressed@;
        self.blocks.push(CompressedBlock { backend, data: compressed, uncompressed_len: data.len() });
        self.stored = Ghost(before.push(data@));
        assert forall|i: int| 0 <= i < self.blocks@.len() implies {
            &&& #[trigger] self.blocks@[i].data@ == compress_block_spec(
                self.blocks@[i].backend,
                self.stored@[i],
            )
            &&& block_compressible(self.blocks@[i].backend, self.stored@[i])
            &&& self.blocks@[i].uncompressed_len == self.stored@[i].len()
        } by {
            if i < before.len() {
                assert(self.blocks@[i] == old_blocks[i]);
                assert(self.stored@[i] == before[i]);
                assert(old_blocks[i].data@ == compress_block_spec(old_blocks[i].backend, before[i]));
            } else {
                assert(self.blocks@[i].data@ == written);
                assert(self.stored@[i] == data@);
            }
        }
        assert(self.backends() =~= old(self).backends().push(backend));
        assert(self.compressed_blocks() =~= old(self).compressed_blocks().push(
            compress_block_spec(backend, data@),
        ));
        id
    }

    /// The data of block `id`, decompressed: `None` for a block number that was never given
    /// out. A block whose data's length fits the `u32` header always reads back equal; an LZ4
    /// block of data past that length is decoded only when it is short (the decoder may
    /// panic on other long input), and is `None` otherwise.
    pub fn load(&self, id: usize) -> (r: Option<Vec<u8>>)
        requires
            self.wf(),
        ensures
            id >= self@.len() ==> r is None,
            id < self@.len() && self@[id as int].len() <= u32::MAX ==> (r matches Some(v) && v@
                == self@[id as int]),
            id < self@.len() ==> if self.backends()[id as int] == CompressionBackend::Snappy
                || self.compressed_blocks()[id as int].len() < LZ4_DECODE_INPUT_LIMIT
                || self@[id as int].len() <= u32::MAX {
                match decompress_block_spec(
                    self.backends()[id as int],
                    self.compressed_blocks()[id as int],
                ) {
                    Ok(d) => r matches Some(v) && v@ == d,
                    Err(_) => r is None,
                }
            } else {
                r is None
            },
    {
        if id >= self.blocks.len() {
            return None;
        }
        let block = &self.blocks[id];
        let ghost stored = self.stored@[id as int];
        assert(block.data@ == compress_block_spec(block.backend, stored));
        assert(self.backends()[id as int] == block.backend);
        assert(self.compressed_blocks()[id as int] == block.data@);
        if block.backend == CompressionBackend::Lz4 && block.data.len() >= LZ4_DECODE_INPUT_LIMIT
            && block.uncompressed_len > 0xFFFF_FFFF {
            return None;
        }
        proof {
            if block.backend == CompressionBackend::Lz4 && block.data@.len() >= LZ4_DECODE_INPUT_LIMIT {
                assert(lz4_compressed(stored) == block.data@);
            }
        }
        match decompress_block(block.backend, block.data.as_slice()) {
            Ok(decompressed) => Some(decompressed),
            Err(_) => None,
        }
    }
}

/// What `print_stats` reports of a pool that holds data.
#[derive(Clone, Copy, Debug)]
pub struct ZramStats {
    pub backend: CompressionBackend,
    pub blocks: usize,
    pub uncompressed_bytes: usize,
    pub compressed_bytes: usize,
}

impl TRadZram {
    /// The figures of the pool's stats line: the default backend, the block count and the two
    /// byte totals; `None` while nothing has been stored (the pool reports itself empty). A pool
    /// that holds data has a positive compressed total, so its ratio is always defined.
    pub fn print_stats(&self) -> (r: Option<ZramStats>)
        requires
            self.wf(),
        ensures
            self.uncompressed_total() > 0 ==> self.compressed_total() > 0,
            self.uncompressed_total() == 0 ==> r is None,
            self.uncompressed_total() != 0 ==> r == Some(
                (ZramStats {
                    backend: self.default_backend_spec(),
                    blocks: self@.len() as usize,
                    uncompressed_bytes: self.uncompressed_total() as usize,
                    compressed_bytes: self.compressed_total() as usize,
                }),
            ),
    {
        if self.total_uncompressed_bytes == 0 {
            return None;
        }
        Some(
            ZramStats {
                backend: self.default_backend,
                blocks: self.blocks.len(),
                uncompressed_bytes: self.total_uncompressed_bytes,
                compressed_bytes: self.total_compressed_bytes,
            },
        )
    }
}

/// The self-test block: a page of 0xAA bytes.
pub open spec fn self_test_block() -> Seq<u8> {
    Seq::new(4096, |i: int| 0xAAu8)
}

/// The patterned benchmark sample: a page counting up modulo 251.
pub open spec fn patterned_sample_spec() -> Seq<u8> {
    Seq::new(4096, |i: int| (i % 251) as u8)
}

pub fn patterned_sample() -> (r: Vec<u8>)
    ensures
        r@ == patterned_sample_spec(),
{
    let mut v: Vec<u8> = Vec::new();
    let mut i: usize = 0;
    while i < 4096
        invariant
            i <= 4096,
            v@.len() == i,
            forall|j: int| 0 <= j < i ==> v@[j] == (j % 251) as u8,
        decreases 4096 - i,
    {
        v.push((i % 251) as u8);
        i = i + 1;
    }
    assert(v@ =~= patterned_sample_spec());
    v
}

/// How the pool's start-up check went.
#[derive(Clone, Copy, Debug)]
pub enum ZramInit {
    /// The pool was already active; nothing was done.
    AlreadyActive,
    /// The self-test block was stored under this number and read back equal.
    SelfTestStored { id: usize },
}

/// The pool's start-up: on the first call marks the pool active, stores the self-test block
/// with the default backend and reads it back equal; later calls change nothing.
pub fn init(active: &mut bool, pool: &mut TRadZram) -> (r: ZramInit)
    requires
        old(pool).wf(),
        old(pool).uncompressed_total() + 4096 <= usize::MAX,
        old(pool).compressed_total() + 6 * 4096 + 24 <= usize::MAX,
    ensures
        *final(active),
        final(pool).wf(),
        *old(active) ==> r is AlreadyActive && final(pool)@ == old(pool)@,
        !*old(active) ==> r == (ZramInit::SelfTestStored { id: old(pool)@.len() as usize })
            && final(pool)@ == old(pool)@.push(self_test_block()),
{
    if *active {
        return ZramInit::AlreadyActive;
    }
    *active = true;
    let block = vec![0xAAu8; 4096];
    assert(block@ =~= self_test_block());
    proof {
        lemma_self_test_block_compressible();
    }
    let id = pool.store(block.as_slice());
    let loaded = pool.load(id);
    assert(loaded matches Some(v) && v@ == self_test_block());
    ZramInit::SelfTestStored { id }
}

/// A stored block gives back the data it was stored with: decoding what `compress_block`
/// wrote with Snappy returns the data, for every input that the encoder accepts and whose
/// length fits the header.
pub proof fn lemma_snappy_block_roundtrip(data: Seq<u8>)
    requires
        block_compressible(CompressionBackend::Snappy, data),
        data.len() <= u32::MAX,
    ensures
        decompress_block_spec(
            CompressionBackend::Snappy,
            compress_block_spec(CompressionBackend::Snappy, data),
        ) == Ok::<Seq<u8>, &'static str>(data),
{
    snappy::lemma_snappy_roundtrip(data);
}

/// In a run of equal bytes, a match from an earlier position extends as far as it may: 256
/// bytes, or to the end of the run.
proof fn lemma_run_extend(s: Seq<u8>, pos: int, cursor: int, len: nat)
    requires
        forall|i: int| 0 <= i < s.len() ==> #[trigger] s[i] == s[0],
        0 <= pos < cursor <= s.len(),
        len <= 256,
        cursor + len <= s.len(),
    ensures
        snappy::extend_match(s, pos, cursor, len) == if s.len() - cursor < 256 {
            (s.len() - cursor) as nat
        } else {
            256nat
        },
    decreases 256 - len,
{
    if len < 256 && cursor + len < s.len() {
        vstd::arithmetic::div_mod::lemma_mod_pos_bound(len as int, cursor - pos);
        assert(s[pos + (len as int) % (cursor - pos)] == s[cursor + len]);
        lemma_run_extend(s, pos, cursor, len + 1);
    }
}

/// In a run of equal bytes, the search keeps the first candidate of its window, each match
/// being as long as the run allows.
proof fn lemma_run_best(s: Seq<u8>, cursor: int, pos: int, best: Option<(int, nat)>, first: int)
    requires
        forall|i: int| 0 <= i < s.len() ==> #[trigger] s[i] == s[0],
        snappy::window_start(cursor) <= pos <= cursor,
        cursor + snappy::MIN_MATCH <= s.len(),
        best is None ==> first == pos,
        best matches Some((p, l)) ==> p == first && l == (if s.len() - cursor < 256 {
            (s.len() - cursor) as nat
        } else {
            256nat
        }),
        first < cursor,
    ensures
        snappy::best_match_from(s, cursor, pos, best) == Some((first, if s.len() - cursor < 256 {
            (s.len() - cursor) as nat
        } else {
            256nat
        })),
    decreases cursor - pos,
{
    if pos < cursor {
        assert(cursor - pos <= snappy::SEARCH_WINDOW);
        lemma_run_extend(s, pos, cursor, 0);
        let len = snappy::candidate_length(s, pos, cursor);
        let next = if len >= snappy::MIN_MATCH && (best is None || len > snappy::match_len_of(best)) {
            Some((pos, len))
        } else {
            best
        };
        lemma_run_best(s, cursor, pos + 1, next, first);
    }
}

/// The greedy parse of the self-test page: from byte `1 + 256 * k` on, every copy is 256
/// bytes long, but the last, of 255.
proof fn lemma_self_test_from(k: int)
    requires
        0 <= k <= 15,
    ensures
        snappy::compressible_from(self_test_block(), 1 + 256 * k),
    decreases 15 - k,
{
    let s = self_test_block();
    let c = 1 + 256 * k;
    assert forall|i: int| 0 <= i < s.len() implies #[trigger] s[i] == s[0] by {}
    lemma_run_best(s, c, snappy::window_start(c), None, snappy::window_start(c));
    assert(s.len() == 4096);
    if k < 15 {
        assert(snappy::find_match_spec(s, c) == Some((snappy::window_start(c), 256nat)));
        lemma_self_test_from(k + 1);
        assert(snappy::copy_length_ok(256));
        assert(c + 256 == 1 + 256 * (k + 1));
    } else {
        assert(snappy::find_match_spec(s, c) == Some((snappy::window_start(c), 255nat)));
        assert(snappy::copy_length_ok(255));
        assert(snappy::compressible_from(s, 4096));
    }
}

/// The self-test page of 0xAA bytes is accepted by both encoders, so the pool's start-up
/// stores it whatever the default backend.
pub proof fn lemma_self_test_block_compressible()
    ensures
        block_compressible(CompressionBackend::Snappy, self_test_block()),
        block_compressible(CompressionBackend::Lz4, self_test_block()),
{
    lemma_self_test_from(0);
    let s = self_test_block();
    assert(snappy::find_match_spec(s, 0) is None);
}

} // verus!
