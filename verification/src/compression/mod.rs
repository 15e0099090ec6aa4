//! Compression backends behind one interface, and the pool that stores compressed blocks.
pub mod snappy;
pub mod zram;

use vstd::prelude::*;

verus! {

/// A block compressor that writes into caller-provided buffers.
pub trait Compressor {
    /// Whether `compressed` is this backend's encoding of `data`.
    spec fn encodes(&self, data: Seq<u8>, compressed: Seq<u8>) -> bool;

    /// The bound that `max_compressed_len` returns for `n` input bytes.
    spec fn compressed_len_bound(&self, n: nat) -> nat;

    /// What `compress` answers for `input` and an output buffer of `capacity` bytes: the
    /// number of bytes it writes, or its error.
    spec fn compress_outcome(&self, input: Seq<u8>, capacity: nat) -> Result<nat, &'static str>;

    /// The name that `name` returns.
    spec fn backend_name(&self) -> &'static str;

    /// The backend's short name.
    fn name(&self) -> (r: &'static str)
        ensures
            r == self.backend_name(),
    ;

    /// Compresses `input` into the front of `output` and returns the number of bytes written;
    /// what it wrote encodes `input`.
    fn compress(&self, input: &[u8], output: &mut [u8]) -> (r: Result<usize, &'static str>)
        ensures
            final(output)@.len() == old(output)@.len(),
            match r {
                Ok(n) => self.compress_outcome(input@, old(output)@.len()) == Ok::<nat, &'static str>(n as nat),
                Err(e) => self.compress_outcome(input@, old(output)@.len()) == Err::<nat, &'static str>(e),
            },
            r matches Ok(n) ==> n <= old(output)@.len() && self.encodes(
                input@,
                final(output)@.take(n as int),
            ),
    ;

    /// Decompresses `input` into the front of `output` and returns the number of bytes
    /// written. Input that encodes data that fits the buffer gives that data back.
    fn decompress(&self, input: &[u8], output: &mut [u8]) -> (r: Result<usize, &'static str>)
        ensures
            final(output)@.len() == old(output)@.len(),
            r matches Ok(n) ==> n <= old(output)@.len(),
            forall|d: Seq<u8>|
                #![trigger self.encodes(d, input@)]
                self.encodes(d, input@) && d.len() <= old(output)@.len() ==> r == Ok::<
                    usize,
                    &'static str,
                >(d.len() as usize) && final(output)@.take(d.len() as int) == d,
    ;

    /// The size of output buffer that `compress` is given for `input_len` bytes.
    fn max_compressed_len(&self, input_len: usize) -> (r: usize)
        requires
            input_len <= usize::MAX / 2,
        ensures
            r == self.compressed_len_bound(input_len as nat),
    ;
}

/// The Snappy-style block codec of `snappy`.
pub struct SnappyCompressor;

/// A data block of at most `u32::MAX` bytes that the Snappy encoder accepts, and its encoding.
pub open spec fn snappy_encodes(data: Seq<u8>, compressed: Seq<u8>) -> bool {
    &&& data.len() <= u32::MAX
    &&& snappy::snappy_compressible(data)
    &&& compressed == snappy::compress_spec(data)
}

/// Writes `bytes` into the front of `output`.
fn copy_into(bytes: &Vec<u8>, output: &mut [u8])
    requires
        bytes@.len() <= old(output)@.len(),
    ensures
        final(output)@.len() == old(output)@.len(),
        final(output)@.take(bytes@.len() as int) == bytes@,
        final(output)@.skip(bytes@.len() as int) == old(output)@.skip(bytes@.len() as int),
{
    let mut i = 0usize;
    while i < bytes.len()
        invariant
            bytes@.len() <= output@.len(),
            output@.len() == old(output)@.len(),
            i <= bytes@.len(),
            output@.take(i as int) == bytes@.take(i as int),
            forall|k: int| i <= k < output@.len() ==> output@[k] == old(output)@[k],
        decreases bytes.len() - i,
    {
        output[i] = bytes[i];
        assert(output@.take(i + 1) =~= bytes@.take(i + 1));
        i += 1;
    }
    assert(bytes@.take(i as int) =~= bytes@);
    assert(output@.skip(i as int) =~= old(output)@.skip(i as int));
}

impl Compressor for SnappyCompressor {
    open spec fn encodes(&self, data: Seq<u8>, compressed: Seq<u8>) -> bool {
        snappy_encodes(data, compressed)
    }

    open spec fn compressed_len_bound(&self, n: nat) -> nat {
        n + n / 6 + 32
    }

    open spec fn compress_outcome(&self, input: Seq<u8>, capacity: nat) -> Result<nat, &'static str> {
        if input.len() > u32::MAX {
            Err("snappy input too large")
        } else if !snappy::snappy_compressible(input) {
            Err("snappy copy length not encodable")
        } else if snappy::compress_spec(input).len() > capacity {
            Err("output buffer too small")
        } else {
            Ok(snappy::compress_spec(input).len())
        }
    }

    open spec fn backend_name(&self) -> &'static str {
        "snappy"
    }

    fn name(&self) -> (r: &'static str)
        ensures
            r == "snappy",
    {
        "snappy"
    }

    /// Fails when the encoder cannot take `input`, when its length does not fit the header,
    /// or when the encoding does not fit `output`.
    fn compress(&self, input: &[u8], output: &mut [u8]) -> (r: Result<usize, &'static str>)
        ensures
            r is Ok <==> input@.len() <= u32::MAX && snappy::snappy_compressible(input@)
                && snappy::compress_spec(input@).len() <= old(output)@.len(),
            r matches Ok(n) ==> n == snappy::compress_spec(input@).len(),
    {
        if input.len() > 0xFFFF_FFFF {
            return Err("snappy input too large");
        }
        if !snappy::is_compressible(input) {
            return Err("snappy copy length not encodable");
        }
        let compressed = snappy::compress(input);
        if compressed.len() > output.len() {
            return Err("output buffer too small");
        }
        copy_into(&compressed, output);
        Ok(compressed.len())
    }

    /// Fails with the decoder's error, or when the decoded data does not fit `output`.
    fn decompress(&self, input: &[u8], output: &mut [u8]) -> (r: Result<usize, &'static str>)
        ensures
            match snappy::decompress_spec(input@) {
                Ok(d) => if d.len() <= old(output)@.len() {
                    r == Ok::<usize, &'static str>(d.len() as usize) && final(output)@.take(
                        d.len() as int,
                    ) == d
                } else {
                    r == Err::<usize, &'static str>("output buffer too small")
                },
                Err(e) => r == Err::<usize, &'static str>(e),
            },
    {
        proof {
            assert forall|d: Seq<u8>| #[trigger]
                snappy_encodes(d, input@) implies snappy::decompress_spec(input@) == Ok::<
                Seq<u8>,
                &'static str,
            >(d) by {
                snappy::lemma_snappy_roundtrip(d);
            }
        }
        match snappy::decompress(input) {
            Ok(v) => {
                if v.len() > output.len() {
                    return Err("output buffer too small");
                }
                copy_into(&v, output);
                Ok(v.len())
            },
            Err(e) => Err(e),
        }
    }

    fn max_compressed_len(&self, input_len: usize) -> (r: usize) {
        input_len + input_len / 6 + 32
    }
}

/// The LZ4 backend, which does not yet work through caller-provided buffers.
pub struct Lz4Compressor;

impl Compressor for Lz4Compressor {
    open spec fn encodes(&self, data: Seq<u8>, compressed: Seq<u8>) -> bool {
        false
    }

    open spec fn compressed_len_bound(&self, n: nat) -> nat {
        n + n / 255 + 16
    }

    open spec fn compress_outcome(&self, input: Seq<u8>, capacity: nat) -> Result<nat, &'static str> {
        Err("lz4 not yet decoupled")
    }

    open spec fn backend_name(&self) -> &'static str {
        "lz4"
    }

    fn name(&self) -> (r: &'static str)
        ensures
            r == "lz4",
    {
        "lz4"
    }

    fn compress(&self, input: &[u8], output: &mut [u8]) -> (r: Result<usize, &'static str>)
        ensures
            r == Err::<usize, &'static str>("lz4 not yet decoupled"),
    {
        Err("lz4 not yet decoupled")
    }

    fn decompress(&self, input: &[u8], output: &mut [u8]) -> (r: Result<usize, &'static str>)
        ensures
            r == Err::<usize, &'static str>("lz4 not yet decoupled"),
    {
        Err("lz4 not yet decoupled")
    }

    fn max_compressed_len(&self, input_len: usize) -> (r: usize) {
        input_len + (input_len / 255) + 16
    }
}

} // verus!
