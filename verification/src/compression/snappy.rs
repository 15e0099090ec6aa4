//! A Snappy-style block codec: a varint length header followed by literal and copy elements.
//!
//! Element tags keep their kind in the low two bits: `0` literal, `1` copy with a one-byte
//! offset, `2` copy with a two-byte offset, `3` copy with a four-byte offset.
use vstd::prelude::*;

verus! {

pub const TAG_LITERAL: u8 = 0x00;
pub const TAG_COPY_1: u8 = 0x01;
pub const TAG_COPY_2: u8 = 0x02;
pub const MIN_MATCH: usize = 4;
pub const MAX_OFFSET: usize = 65_535;
pub const SEARCH_WINDOW: usize = 2_048;
pub const MAX_COPY_LEN: usize = 64;
pub const MAX_LITERAL_CHUNK: usize = 16_777_275;

// ---------------------------------------------------------------------------------------------
// The format, as the decoder reads it.
// ---------------------------------------------------------------------------------------------

/// Bytes of the little-endian base-128 encoding that `write_varint` appends.
pub open spec fn varint_bytes(v: u32) -> Seq<u8>
    decreases v,
{
    if v < 0x80 {
        seq![v as u8]
    } else {
        seq![((v % 128) + 128) as u8] + varint_bytes(v / 128)
    }
}

/// The varint header as the decoder reads it from `at`: at most five bytes, seven bits each,
/// accumulated into a `u32` (bits beyond 32 are dropped).
pub open spec fn varint_from(s: Seq<u8>, at: int, shift: u32, value: u32) -> Result<(u32, int), &'static str>
    decreases 35 - shift,
{
    if 0 <= at < s.len() && shift <= 28 {
        let byte = s[at];
        let v = value | (((byte & 0x7F) as u32) << shift);
        if byte & 0x80 == 0 {
            Ok((v, at + 1))
        } else {
            varint_from(s, at + 1, (shift + 7) as u32, v)
        }
    } else {
        Err("invalid varint")
    }
}

/// The `count` bytes of `m` in little-endian order (higher bytes are dropped).
pub open spec fn le_bytes(m: nat, count: nat) -> Seq<u8>
    decreases count,
{
    if count == 0 {
        Seq::empty()
    } else {
        seq![(m % 256) as u8] + le_bytes(m / 256, (count - 1) as nat)
    }
}

/// The little-endian value of the `count` bytes of `s` that start at `at`.
pub open spec fn le_value(s: Seq<u8>, at: int, count: nat) -> nat
    decreases count,
{
    if count == 0 {
        0
    } else {
        s[at] as nat + 256 * le_value(s, at + 1, (count - 1) as nat)
    }
}

/// Length of a literal and the position of its first data byte: short lengths sit in the tag,
/// longer ones in one to four little-endian bytes after it (the stored value is the length
/// minus one).
pub open spec fn literal_length(tag: u8, s: Seq<u8>, at: int) -> Result<(nat, int), &'static str> {
    let code = tag / 4;
    if code < 60 {
        Ok(((code + 1) as nat, at))
    } else {
        let n = (code - 59) as nat;
        if at + n > s.len() {
            Err("literal length truncated")
        } else {
            Ok((le_value(s, at, n) + 1, at + n))
        }
    }
}

/// Appending `len` bytes copied from `offset` bytes back; the source may overlap what is
/// being written, so the copied pattern repeats with period `offset`.
pub open spec fn copy_back(out: Seq<u8>, offset: nat, len: nat) -> Result<Seq<u8>, &'static str> {
    if offset == 0 || offset > out.len() {
        Err("invalid copy offset")
    } else {
        Ok(out + Seq::new(len, |i: int| out[out.len() - offset + i % (offset as int)]))
    }
}

/// One element read at `at` (the tag's position) and applied to the output so far.
pub open spec fn element_step(s: Seq<u8>, at: int, out: Seq<u8>) -> Result<(int, Seq<u8>), &'static str>
    recommends
        0 <= at < s.len(),
{
    let tag = s[at];
    let c = at + 1;
    if tag % 4 == 0 {
        match literal_length(tag, s, c) {
            Err(e) => Err(e),
            Ok((len, c2)) => if c2 + len > s.len() {
                Err("literal exceeds input")
            } else {
                Ok((c2 + len, out + s.subrange(c2, c2 + len)))
            },
        }
    } else if tag % 4 == 1 {
        if c >= s.len() {
            Err("copy1 truncated")
        } else {
            match copy_back(out, ((tag / 32) as nat) * 256 + s[c] as nat, (4 + (tag / 4) % 8) as nat) {
                Err(e) => Err(e),
                Ok(o) => Ok((c + 1, o)),
            }
        }
    } else if tag % 4 == 2 {
        if c + 2 > s.len() {
            Err("copy2 truncated")
        } else {
            match copy_back(out, le_value(s, c, 2), (1 + tag / 4) as nat) {
                Err(e) => Err(e),
                Ok(o) => Ok((c + 2, o)),
            }
        }
    } else {
        if c + 4 > s.len() {
            Err("copy4 truncated")
        } else {
            match copy_back(out, le_value(s, c, 4), (1 + tag / 4) as nat) {
                Err(e) => Err(e),
                Ok(o) => Ok((c + 4, o)),
            }
        }
    }
}

pub proof fn lemma_element_step_advances(s: Seq<u8>, at: int, out: Seq<u8>)
    requires
        0 <= at < s.len(),
    ensures
        element_step(s, at, out) matches Ok((next, _)) ==> at < next <= s.len(),
{
}

/// Elements are read from `at` while input remains and fewer than `expected` bytes have been
/// produced; the result must then be exactly `expected` bytes long.
pub open spec fn decode_elements(s: Seq<u8>, at: int, out: Seq<u8>, expected: nat) -> Result<Seq<u8>, &'static str>
    decreases s.len() - at,
{
    if 0 <= at < s.len() && out.len() < expected {
        proof {
            lemma_element_step_advances(s, at, out);
        }
        match element_step(s, at, out) {
            Err(e) => Err(e),
            Ok((next, o)) => decode_elements(s, next, o, expected),
        }
    } else if out.len() == expected {
        Ok(out)
    } else {
        Err("decompressed length mismatch")
    }
}

/// What `decompress` returns for `s`: the header gives the expected length, the elements
/// that follow produce the data.
pub open spec fn decompress_spec(s: Seq<u8>) -> Result<Seq<u8>, &'static str> {
    match varint_from(s, 0, 0, 0) {
        Err(e) => Err(e),
        Ok((n, at)) => decode_elements(s, at, Seq::empty(), n as nat),
    }
}

/// A decoded vector taken by its contents.
pub open spec fn bytes_result(r: Result<Vec<u8>, &'static str>) -> Result<Seq<u8>, &'static str> {
    match r {
        Ok(v) => Ok(v@),
        Err(e) => Err(e),
    }
}

// ---------------------------------------------------------------------------------------------
// Decoder
// ---------------------------------------------------------------------------------------------

fn write_varint(value: u32, out: &mut Vec<u8>)
    ensures
        final(out)@ == old(out)@ + varint_bytes(value),
{
    let mut value = value;
    let ghost v0 = value;
    while value >= 0x80
        invariant
            old(out)@ + varint_bytes(v0) == out@ + varint_bytes(value),
        decreases value,
    {
        let b = (value as u8) | 0x80;
        let nv = value >> 7;
        assert(b == ((value % 128) + 128) as u8 && nv == value / 128) by (bit_vector)
            requires
                b == (value as u8) | 0x80,
                nv == value >> 7,
        ;
        let ghost before = out@;
        out.push(b);
        assert(varint_bytes(value) == seq![b] + varint_bytes(value / 128));
        assert(before + varint_bytes(value) =~= out@ + varint_bytes(nv));
        value = nv;
    }
    out.push(value as u8);
    assert(varint_bytes(value) =~= seq![value as u8]);
}

fn read_varint(input: &[u8], cursor: &mut usize) -> (r: Result<u32, &'static str>)
    requires
        *old(cursor) <= input@.len(),
    ensures
        r is Ok ==> varint_from(input@, *old(cursor) as int, 0, 0) == Ok::<(u32, int), &'static str>(
            (r->Ok_0, *final(cursor) as int),
        ),
        r is Err ==> varint_from(input@, *old(cursor) as int, 0, 0) == Err::<(u32, int), &'static str>(
            r->Err_0,
        ),
        *final(cursor) <= input@.len(),
{
    let mut shift = 0u32;
    let mut value = 0u32;
    while *cursor < input.len() && shift <= 28
        invariant
            *cursor <= input@.len(),
            shift <= 35,
            varint_from(input@, *old(cursor) as int, 0, 0) == varint_from(
                input@,
                *cursor as int,
                shift,
                value,
            ),
        decreases 35 - shift,
    {
        let byte = input[*cursor];
        *cursor += 1;
        value = value | (((byte & 0x7F) as u32) << shift);
        if (byte & 0x80) == 0 {
            return Ok(value);
        }
        shift += 7;
    }
    Err("invalid varint")
}

fn decode_literal_len(tag: u8, input: &[u8], cursor: &mut usize) -> (r: Result<u64, &'static str>)
    requires
        *old(cursor) <= input@.len(),
    ensures
        match literal_length(tag, input@, *old(cursor) as int) {
            Ok((len, c2)) => r == Ok::<u64, &'static str>(len as u64) && *final(cursor) == c2
                && len <= 0x1_0000_0000,
            Err(e) => r == Err::<u64, &'static str>(e),
        },
        *final(cursor) <= input@.len(),
{
    let len_code = tag >> 2;
    proof {
        lemma_tag_fields(tag, 0);
    }
    if len_code < 60 {
        return Ok(len_code as u64 + 1);
    }
    let bytes = (len_code - 59) as usize;
    if bytes > input.len() - *cursor {
        return Err("literal length truncated");
    }
    let mut len_minus_one = 0u64;
    let mut i = 0usize;
    while i < bytes
        invariant
            1 <= bytes <= 4,
            i <= bytes,
            *cursor + bytes <= input.len(),
            len_minus_one == le_value(input@, *cursor as int, i as nat),
            len_minus_one < pow256(i as nat),
        decreases bytes - i,
    {
        let b = input[*cursor + i];
        let sh = (i as u64) * 8;
        proof {
            lemma_le_value_extend(input@, *cursor as int, i as nat);
            lemma_or_shift_add(len_minus_one, b, i as nat, sh);
        }
        len_minus_one = len_minus_one | ((b as u64) << sh);
        i += 1;
    }
    *cursor += bytes;
    proof {
        lemma_pow256_values();
        lemma_pow256_mono(bytes as nat, 4);
    }
    Ok(len_minus_one + 1)
}

/// 256 to the power `n`.
pub open spec fn pow256(n: nat) -> nat
    decreases n,
{
    if n == 0 {
        1
    } else {
        256 * pow256((n - 1) as nat)
    }
}

pub proof fn lemma_pow256_values()
    ensures
        pow256(0) == 1,
        pow256(1) == 256,
        pow256(2) == 65536,
        pow256(3) == 16777216,
        pow256(4) == 0x1_0000_0000,
{
    assert(pow256(0) == 1);
    assert(pow256(1) == 256);
    assert(pow256(2) == 65536);
    assert(pow256(3) == 16777216);
    assert(pow256(4) == 0x1_0000_0000);
}

proof fn lemma_pow256_pos(n: nat)
    ensures
        pow256(n) > 0,
    decreases n,
{
    if n > 0 {
        lemma_pow256_pos((n - 1) as nat);
    }
}

pub proof fn lemma_pow256_mono(a: nat, b: nat)
    requires
        a <= b,
    ensures
        pow256(a) <= pow256(b),
    decreases b,
{
    if a < b {
        lemma_pow256_mono(a, (b - 1) as nat);
    }
}

proof fn lemma_le_value_extend(s: Seq<u8>, at: int, k: nat)
    ensures
        le_value(s, at, k + 1) == le_value(s, at, k) + s[at + k] as nat * pow256(k),
    decreases k,
{
    if k == 0 {
        assert(le_value(s, at + 1, 0) == 0);
        assert(le_value(s, at, 0) == 0);
        assert(pow256(0) == 1);
        assert(le_value(s, at, 1) == s[at] as nat + 256 * le_value(s, at + 1, 0));
        assert(s[at] as nat * pow256(0) == s[at] as nat);
    } else {
        let km = (k - 1) as nat;
        lemma_le_value_extend(s, at + 1, km);
        let a = le_value(s, at + 1, km);
        let b = s[at + k] as nat;
        let p = pow256(km);
        let h = s[at] as nat;
        assert(at + 1 + km == at + k);
        assert(le_value(s, at + 1, k) == a + b * p);
        assert(le_value(s, at, k + 1) == h + 256 * le_value(s, at + 1, k));
        assert(le_value(s, at, k) == h + 256 * a);
        assert(pow256(k) == 256 * p);
        assert(h + 256 * (a + b * p) == (h + 256 * a) + b * (256 * p)) by (nonlinear_arith);
    }
}

proof fn lemma_or_shift_add(x: u64, b: u8, i: nat, sh: u64)
    requires
        i < 4,
        sh == i * 8,
        x < pow256(i),
    ensures
        x | ((b as u64) << sh) == x + b as nat * pow256(i),
        x + b as nat * pow256(i) < pow256(i + 1),
{
    lemma_pow256_values();
    assert({
        &&& (sh == 0 && x < 1 ==> x | ((b as u64) << sh) == x + b as u64)
        &&& (sh == 8 && x < 256 ==> x | ((b as u64) << sh) == x + (b as u64) * 256)
        &&& (sh == 16 && x < 65536 ==> x | ((b as u64) << sh) == x + (b as u64) * 65536)
        &&& (sh == 24 && x < 16777216 ==> x | ((b as u64) << sh) == x + (b as u64) * 16777216)
    }) by (bit_vector);
}

/// The fields of a tag byte: the element kind (low two bits), the length code (the rest), the
/// copy-1 length bits and the copy-1 offset with its low byte `b`.
proof fn lemma_tag_fields(tag: u8, b: u8)
    by (bit_vector)
    ensures
        tag & 0x03 == tag % 4,
        tag >> 2 == tag / 4,
        (tag >> 2) & 0x07 == (tag / 4) % 8,
        (((tag as usize) & 0xE0) << 3) | b as usize == (tag / 32) as usize * 256 + b as usize,
{
}

/// A tag byte whose length code fits six bits.
proof fn lemma_small_shl2(k: u8)
    by (bit_vector)
    requires
        k < 64,
    ensures
        (k << 2) | 0u8 == k * 4,
{
}

fn copy_from_output(out: &mut Vec<u8>, offset: usize, len: usize) -> (r: Result<(), &'static str>)
    ensures
        match copy_back(old(out)@, offset as nat, len as nat) {
            Ok(o) => r is Ok && final(out)@ == o,
            Err(e) => r == Err::<(), &'static str>(e) && final(out)@ == old(out)@,
        },
{
    if offset == 0 || offset > out.len() {
        return Err("invalid copy offset");
    }
    let start = out.len() - offset;
    let ghost orig = out@;
    assert(orig.len() <= usize::MAX);
    for i in 0..len
        invariant
            orig == old(out)@,
            start == orig.len() - offset,
            0 < offset <= orig.len(),
            orig.len() <= usize::MAX,
            out@ == orig + Seq::new(i as nat, |j: int| orig[orig.len() - offset + j % (offset as int)]),
    {
        proof {
            vstd::arithmetic::div_mod::lemma_mod_pos_bound(i as int, offset as int);
        }
        let byte = out[start + (i % offset)];
        out.push(byte);
        assert(out@ =~= orig + Seq::new((i + 1) as nat, |j: int| orig[orig.len() - offset + j % (offset as int)]));
    }
    assert(out@ =~= orig + Seq::new(len as nat, |j: int| orig[orig.len() - offset + j % (offset as int)]));
    Ok(())
}

/// Decodes a block produced by `compress`: the header gives the expected length, elements are
/// applied while input remains and the output is shorter than that, and the result must have
/// exactly the expected length.
pub fn decompress(input: &[u8]) -> (r: Result<Vec<u8>, &'static str>)
    ensures
        bytes_result(r) == decompress_spec(input@),
{
    let mut cursor = 0usize;
    let header = read_varint(input, &mut cursor);
    let expected_len = match header {
        Ok(v) => v as usize,
        Err(e) => {
            return Err(e);
        },
    };
    let mut out: Vec<u8> = Vec::new();
    while cursor < input.len() && out.len() < expected_len
        invariant
            cursor <= input.len(),
            decompress_spec(input@) == decode_elements(
                input@,
                cursor as int,
                out@,
                expected_len as nat,
            ),
        decreases input.len() - cursor,
    {
        let ghost at = cursor as int;
        let ghost before = out@;
        let tag = input[cursor];
        cursor += 1;
        let kind = tag & 0x03;
        proof {
            lemma_tag_fields(tag, 0);
        }
        if kind == TAG_LITERAL {
            let len64 = match decode_literal_len(tag, input, &mut cursor) {
                Ok(l) => l,
                Err(e) => {
                    return Err(e);
                },
            };
            if len64 > (input.len() - cursor) as u64 {
                return Err("literal exceeds input");
            }
            let len = len64 as usize;
            let start = cursor;
            let mut j = 0usize;
            while j < len
                invariant
                    start + len <= input.len(),
                    j <= len,
                    out@ == before + input@.subrange(start as int, start + j),
                decreases len - j,
            {
                out.push(input[start + j]);
                assert(out@ =~= before + input@.subrange(start as int, start + j + 1));
                j += 1;
            }
            cursor = start + len;
            assert(element_step(input@, at, before) == Ok::<(int, Seq<u8>), &'static str>(
                (cursor as int, out@),
            ));
        } else if kind == TAG_COPY_1 {
            if cursor >= input.len() {
                return Err("copy1 truncated");
            }
            let len = 4 + ((tag >> 2) & 0x07) as usize;
            let b = input[cursor];
            let offset = (((tag as usize) & 0xE0) << 3) | b as usize;
            proof {
                lemma_tag_fields(tag, b);
            }
            cursor += 1;
            match copy_from_output(&mut out, offset, len) {
                Ok(()) => {},
                Err(e) => {
                    return Err(e);
                },
            }
        } else if kind == TAG_COPY_2 {
            if 2 > input.len() - cursor {
                return Err("copy2 truncated");
            }
            let len = 1 + (tag >> 2) as usize;
            let b0 = input[cursor];
            let b1 = input[cursor + 1];
            let offset = (b0 as usize) | ((b1 as usize) << 8);
            proof {
                lemma_le2(input@, cursor as int, b0, b1, offset);
            }
            cursor += 2;
            match copy_from_output(&mut out, offset, len) {
                Ok(()) => {},
                Err(e) => {
                    return Err(e);
                },
            }
        } else {
            if 4 > input.len() - cursor {
                return Err("copy4 truncated");
            }
            let len = 1 + (tag >> 2) as usize;
            let b0 = input[cursor];
            let b1 = input[cursor + 1];
            let b2 = input[cursor + 2];
            let b3 = input[cursor + 3];
            let offset32 = (b0 as u32) | ((b1 as u32) << 8) | ((b2 as u32) << 16) | ((b3 as u32) << 24);
            proof {
                lemma_le4(input@, cursor as int, b0, b1, b2, b3, offset32);
            }
            let offset = offset32 as usize;
            cursor += 4;
            match copy_from_output(&mut out, offset, len) {
                Ok(()) => {},
                Err(e) => {
                    return Err(e);
                },
            }
        }
    }
    if out.len() != expected_len {
        return Err("decompressed length mismatch");
    }
    Ok(out)
}

proof fn lemma_le2(s: Seq<u8>, at: int, b0: u8, b1: u8, v: usize)
    requires
        0 <= at,
        at + 2 <= s.len(),
        b0 == s[at],
        b1 == s[at + 1],
        v == (b0 as usize) | ((b1 as usize) << 8),
    ensures
        v == le_value(s, at, 2),
{
    assert(le_value(s, at + 2, 0) == 0);
    assert(le_value(s, at + 1, 1) == b1 as nat);
    assert(le_value(s, at, 2) == b0 as nat + 256 * b1 as nat);
    assert(v == b0 as usize + 256 * b1 as usize) by (bit_vector)
        requires
            v == (b0 as usize) | ((b1 as usize) << 8),
    ;
}

proof fn lemma_le4(s: Seq<u8>, at: int, b0: u8, b1: u8, b2: u8, b3: u8, v: u32)
    requires
        0 <= at,
        at + 4 <= s.len(),
        b0 == s[at],
        b1 == s[at + 1],
        b2 == s[at + 2],
        b3 == s[at + 3],
        v == (b0 as u32) | ((b1 as u32) << 8) | ((b2 as u32) << 16) | ((b3 as u32) << 24),
    ensures
        v == le_value(s, at, 4),
{
    assert(le_value(s, at + 4, 0) == 0);
    assert(le_value(s, at + 3, 1) == b3 as nat);
    assert(le_value(s, at + 2, 2) == b2 as nat + 256 * b3 as nat);
    assert(le_value(s, at + 1, 3) == b1 as nat + 256 * (b2 as nat + 256 * b3 as nat));
    assert(le_value(s, at, 4) == b0 as nat + 256 * (b1 as nat + 256 * (b2 as nat + 256 * b3 as nat)));
    assert(v == b0 as u32 + 256 * (b1 as u32 + 256 * (b2 as u32 + 256 * b3 as u32))) by (bit_vector)
        requires
            v == (b0 as u32) | ((b1 as u32) << 8) | ((b2 as u32) << 16) | ((b3 as u32) << 24),
    ;
}


// ---------------------------------------------------------------------------------------------
// The format, as the encoder writes it.
// ---------------------------------------------------------------------------------------------

/// How far the bytes from `cursor` repeat those from `pos` (read with period `cursor - pos`,
/// so the two runs may overlap), counting on from `len`; at most 256 and never past the end.
pub open spec fn extend_match(s: Seq<u8>, pos: int, cursor: int, len: nat) -> nat
    decreases 256 - len,
{
    if len < 256 && cursor + len < s.len() && s[pos + (len as int) % (cursor - pos)] == s[cursor
        + len] {
        extend_match(s, pos, cursor, len + 1)
    } else {
        len
    }
}

/// Length of the match that the search considers for a candidate position.
pub open spec fn candidate_length(s: Seq<u8>, pos: int, cursor: int) -> nat {
    if cursor - pos > MAX_OFFSET || s[pos] != s[cursor] {
        0
    } else {
        extend_match(s, pos, cursor, 0)
    }
}

/// Length of a match found so far (zero when none is).
pub open spec fn match_len_of(best: Option<(int, nat)>) -> nat {
    match best {
        Some((_, l)) => l,
        None => 0,
    }
}

/// Scan of the candidates `pos..cursor` in order, keeping the first of the longest matches of
/// at least four bytes.
pub open spec fn best_match_from(s: Seq<u8>, cursor: int, pos: int, best: Option<(int, nat)>) -> Option<(int, nat)>
    decreases cursor - pos,
{
    if pos >= cursor {
        best
    } else {
        let len = candidate_length(s, pos, cursor);
        let next = if len >= MIN_MATCH && (best is None || len > match_len_of(best)) {
            Some((pos, len))
        } else {
            best
        };
        best_match_from(s, cursor, pos + 1, next)
    }
}

/// First position of the window of up to 2048 bytes before `cursor`, as `find_match` scans it.
pub open spec fn window_start(cursor: int) -> int {
    if cursor > SEARCH_WINDOW {
        cursor - SEARCH_WINDOW
    } else {
        0
    }
}

/// The match that `find_match` picks at `cursor`: among the window positions, the first one
/// whose match is longest, provided it reaches four bytes.
pub open spec fn find_match_spec(s: Seq<u8>, cursor: int) -> Option<(int, nat)> {
    if cursor + MIN_MATCH > s.len() {
        None
    } else {
        best_match_from(s, cursor, window_start(cursor), None)
    }
}

/// Every byte of a found match repeats the byte one period earlier.
pub open spec fn match_holds(s: Seq<u8>, pos: int, cursor: int, len: nat) -> bool {
    forall|i: int| 0 <= i < len ==> #[trigger] s[cursor + i] == s[pos + i % (cursor - pos)]
}

pub proof fn lemma_extend_match(s: Seq<u8>, pos: int, cursor: int, len: nat)
    requires
        0 <= pos < cursor,
        cursor + len <= s.len(),
        len <= 256,
        match_holds(s, pos, cursor, len),
    ensures
        len <= extend_match(s, pos, cursor, len) <= 256,
        cursor + extend_match(s, pos, cursor, len) <= s.len(),
        match_holds(s, pos, cursor, extend_match(s, pos, cursor, len)),
    decreases 256 - len,
{
    if len < 256 && cursor + len < s.len() && s[pos + (len as int) % (cursor - pos)] == s[cursor
        + len] {
        assert(match_holds(s, pos, cursor, len + 1));
        lemma_extend_match(s, pos, cursor, len + 1);
    }
}

proof fn lemma_best_match_from(s: Seq<u8>, cursor: int, pos: int, best: Option<(int, nat)>)
    requires
        0 <= pos <= cursor,
        cursor + MIN_MATCH <= s.len(),
        best matches Some((p, l)) ==> 0 <= p < cursor && MIN_MATCH <= l <= 256 && cursor + l
            <= s.len() && match_holds(s, p, cursor, l),
    ensures
        best_match_from(s, cursor, pos, best) matches Some((p, l)) ==> 0 <= p < cursor && MIN_MATCH
            <= l <= 256 && cursor + l <= s.len() && match_holds(s, p, cursor, l),
    decreases cursor - pos,
{
    if pos < cursor {
        let len = candidate_length(s, pos, cursor);
        if !(cursor - pos > MAX_OFFSET || s[pos] != s[cursor]) {
            lemma_extend_match(s, pos, cursor, 0);
        }
        let next = if len >= MIN_MATCH && (best is None || len > match_len_of(best)) {
            Some((pos, len))
        } else {
            best
        };
        lemma_best_match_from(s, cursor, pos + 1, next);
    }
}

/// A match found at `cursor` lies in the window, has four to 256 bytes, ends inside `s`, and
/// repeats the bytes one period earlier.
pub proof fn lemma_find_match_spec(s: Seq<u8>, cursor: int)
    requires
        0 <= cursor,
    ensures
        find_match_spec(s, cursor) matches Some((p, l)) ==> window_start(cursor) <= p < cursor
            && MIN_MATCH <= l <= 256 && cursor + l <= s.len() && match_holds(s, p, cursor, l),
{
    if cursor + MIN_MATCH <= s.len() {
        lemma_best_match_from_window(s, cursor, window_start(cursor), None);
        lemma_best_match_from(s, cursor, window_start(cursor), None);
    }
}

proof fn lemma_best_match_from_window(s: Seq<u8>, cursor: int, pos: int, best: Option<(int, nat)>)
    requires
        window_start(cursor) <= pos <= cursor,
        best matches Some((p, l)) ==> window_start(cursor) <= p,
    ensures
        best_match_from(s, cursor, pos, best) matches Some((p, l)) ==> window_start(cursor) <= p,
    decreases cursor - pos,
{
    if pos < cursor {
        let len = candidate_length(s, pos, cursor);
        let next = if len >= MIN_MATCH && (best is None || len > match_len_of(best)) {
            Some((pos, len))
        } else {
            best
        };
        lemma_best_match_from_window(s, cursor, pos + 1, next);
    }
}

/// The tag (and length bytes) of a literal of `len` bytes, `1 <= len`.
pub open spec fn literal_tag(len: nat) -> Seq<u8> {
    if len < 60 {
        seq![((len - 1) * 4) as u8]
    } else {
        let m = (len - 1) as nat;
        let n: nat = if m <= 0xFF {
            1
        } else if m <= 0xFFFF {
            2
        } else if m <= 0xFF_FFFF {
            3
        } else {
            4
        };
        seq![((59 + n) * 4) as u8] + le_bytes(m, n)
    }
}

/// A literal run, in chunks of at most `MAX_LITERAL_CHUNK` bytes, each with its tag.
pub open spec fn encode_literal(lit: Seq<u8>) -> Seq<u8>
    decreases lit.len(),
{
    if lit.len() == 0 {
        Seq::empty()
    } else {
        let k = if lit.len() <= MAX_LITERAL_CHUNK {
            lit.len()
        } else {
            MAX_LITERAL_CHUNK as nat
        };
        literal_tag(k) + lit.take(k as int) + encode_literal(lit.skip(k as int))
    }
}

/// One copy element of `chunk` bytes (4 to 64) from `offset` back: the short form when the
/// offset is below 2048 and the chunk has 4 to 11 bytes, else the two-byte-offset form.
pub open spec fn copy_chunk(offset: nat, chunk: nat) -> Seq<u8> {
    if offset < 2048 && 4 <= chunk <= 11 {
        seq![((chunk - 4) * 4 + (offset / 256) * 32 + 1) as u8, (offset % 256) as u8]
    } else {
        seq![((chunk - 1) * 4 + 2) as u8] + le_bytes(offset, 2)
    }
}

/// A copy of `len` bytes as chunks of 64 bytes and a last one of what remains.
pub open spec fn encode_copy(offset: nat, len: nat) -> Seq<u8>
    decreases len,
{
    if len < MIN_MATCH {
        Seq::empty()
    } else {
        let chunk: nat = if len <= MAX_COPY_LEN {
            len
        } else {
            MAX_COPY_LEN as nat
        };
        copy_chunk(offset, chunk) + encode_copy(offset, (len - chunk) as nat)
    }
}

/// A copy length whose chunks of 64 leave no remainder of one to three bytes (such a
/// remainder would make the encoder subtract four from it).
pub open spec fn copy_length_ok(len: nat) -> bool {
    len % 64 == 0 || len % 64 >= 4
}

/// The copy lengths the encoder refuses are exactly those whose 64-byte chunks leave one to
/// three bytes over: every shorter match (the search finds matches of four bytes or more)
/// and every multiple of 64 is written, and of the lengths up to 256 only 65..=67,
/// 129..=131 and 193..=195 are refused.
pub proof fn lemma_copy_length_ok_exact(len: nat)
    ensures
        copy_length_ok(len) <==> !(1 <= len % 64 && len % 64 <= 3),
        MIN_MATCH <= len <= MAX_COPY_LEN ==> copy_length_ok(len),
        len % MAX_COPY_LEN as nat == 0 ==> copy_length_ok(len),
        MIN_MATCH <= len <= 256 ==> (!copy_length_ok(len) <==> (65 <= len <= 67 || 129 <= len
            <= 131 || 193 <= len <= 195)),
{
}

/// The literal still pending between `from` and `to`, if any.
pub open spec fn pending_literal(s: Seq<u8>, from: int, to: int) -> Seq<u8> {
    if from < to {
        encode_literal(s.subrange(from, to))
    } else {
        Seq::empty()
    }
}

/// The elements that the greedy parse writes from `cursor` on, with a literal pending since
/// `lit_start`.
pub open spec fn compress_body(s: Seq<u8>, cursor: int, lit_start: int) -> Seq<u8>
    decreases s.len() - cursor,
{
    if 0 <= cursor && cursor + MIN_MATCH <= s.len() {
        proof {
            lemma_find_match_spec(s, cursor);
        }
        match find_match_spec(s, cursor) {
            None => compress_body(s, cursor + 1, lit_start),
            Some((p, l)) => pending_literal(s, lit_start, cursor) + encode_copy((cursor - p) as nat, l)
                + compress_body(s, cursor + l, cursor + l),
        }
    } else {
        pending_literal(s, lit_start, s.len() as int)
    }
}

/// Whether every copy that the greedy parse chooses from `cursor` on has a length that the
/// encoder can write.
pub open spec fn compressible_from(s: Seq<u8>, cursor: int) -> bool
    decreases s.len() - cursor,
{
    if 0 <= cursor && cursor + MIN_MATCH <= s.len() {
        proof {
            lemma_find_match_spec(s, cursor);
        }
        match find_match_spec(s, cursor) {
            None => compressible_from(s, cursor + 1),
            Some((p, l)) => copy_length_ok(l) && compressible_from(s, cursor + l),
        }
    } else {
        true
    }
}

/// The inputs that `compress` accepts: on the others its copy encoder would subtract past
/// zero.
pub open spec fn snappy_compressible(s: Seq<u8>) -> bool {
    compressible_from(s, 0)
}

/// What `compress` returns: the length header, then the greedy parse's elements.
pub open spec fn compress_spec(s: Seq<u8>) -> Seq<u8> {
    varint_bytes(s.len() as u32) + compress_body(s, 0, 0)
}

/// An optional match taken by its integer values.
pub open spec fn match_view(m: Option<(usize, usize)>) -> Option<(int, nat)> {
    match m {
        Some((p, l)) => Some((p as int, l as nat)),
        None => None,
    }
}

// ---------------------------------------------------------------------------------------------
// Encoder
// ---------------------------------------------------------------------------------------------

fn find_match(input: &[u8], cursor: usize) -> (r: Option<(usize, usize)>)
    requires
        cursor <= input@.len(),
    ensures
        match_view(r) == find_match_spec(input@, cursor as int),
{
    if MIN_MATCH > input.len() - cursor {
        return None;
    }
    let start = cursor.saturating_sub(SEARCH_WINDOW);
    let mut best: Option<(usize, usize)> = None;
    let mut pos = start;
    while pos < cursor
        invariant
            start <= pos <= cursor,
            cursor + MIN_MATCH <= input@.len(),
            start == window_start(cursor as int),
            find_match_spec(input@, cursor as int) == best_match_from(
                input@,
                cursor as int,
                pos as int,
                match_view(best),
            ),
            best matches Some((bp, bl)) ==> bl <= 256,
        decreases cursor - pos,
    {
        let offset = cursor - pos;
        if offset > MAX_OFFSET || input[pos] != input[cursor] {
            pos += 1;
            continue;
        }
        let mut len = 0usize;
        while len < input.len() - cursor && input[pos + (len % offset)] == input[cursor + len]
            && len < 256
            invariant
                0 < offset == cursor - pos,
                cursor < input@.len(),
                len <= 256,
                extend_match(input@, pos as int, cursor as int, 0) == extend_match(
                    input@,
                    pos as int,
                    cursor as int,
                    len as nat,
                ),
            decreases 256 - len,
        {
            proof {
                vstd::arithmetic::div_mod::lemma_mod_pos_bound(len as int, offset as int);
            }
            len += 1;
        }
        if len >= MIN_MATCH {
            match best {
                Some((_, best_len)) => {
                    if len > best_len {
                        best = Some((pos, len));
                    }
                },
                None => {
                    best = Some((pos, len));
                },
            }
        }
        pos += 1;
    }
    best
}

fn write_literal_tag(len: usize, out: &mut Vec<u8>)
    requires
        1 <= len <= MAX_LITERAL_CHUNK,
    ensures
        final(out)@ == old(out)@ + literal_tag(len as nat),
{
    let len_minus_one = len - 1;
    if len < 60 {
        let t = ((len_minus_one as u8) << 2) | TAG_LITERAL;
        proof {
            lemma_small_shl2(len_minus_one as u8);
        }
        out.push(t);
        return;
    }
    let bytes_needed: usize = if len_minus_one <= 0xFF {
        1
    } else if len_minus_one <= 0xFFFF {
        2
    } else if len_minus_one <= 0xFF_FFFF {
        3
    } else {
        4
    };
    let t = (((59 + bytes_needed) as u8) << 2) | TAG_LITERAL;
    proof {
        lemma_small_shl2((59 + bytes_needed) as u8);
    }
    out.push(t);
    let ghost head = out@;
    let mut i = 0usize;
    while i < bytes_needed
        invariant
            1 <= bytes_needed <= 4,
            i <= bytes_needed,
            len_minus_one < 0x1_0000_0000,
            out@ == head + le_bytes(len_minus_one as nat, bytes_needed as nat).take(i as int),
        decreases bytes_needed - i,
    {
        let sh = i * 8;
        let b = ((len_minus_one >> sh) & 0xFF) as u8;
        proof {
            lemma_le_bytes_len(len_minus_one as nat, bytes_needed as nat);
            lemma_le_bytes_index(len_minus_one as nat, bytes_needed as nat, i as nat);
            lemma_shift_byte(len_minus_one, i as nat, sh, b);
        }
        out.push(b);
        assert(out@ =~= head + le_bytes(len_minus_one as nat, bytes_needed as nat).take(i + 1));
        i += 1;
    }
    proof {
        lemma_le_bytes_len(len_minus_one as nat, bytes_needed as nat);
    }
    assert(out@ =~= old(out)@ + literal_tag(len as nat));
}

pub proof fn lemma_le_bytes_len(m: nat, n: nat)
    ensures
        le_bytes(m, n).len() == n,
    decreases n,
{
    if n > 0 {
        lemma_le_bytes_len(m / 256, (n - 1) as nat);
    }
}

proof fn lemma_le_bytes_index(m: nat, n: nat, i: nat)
    requires
        i < n,
    ensures
        le_bytes(m, n)[i as int] == ((m / pow256(i)) % 256) as u8,
    decreases i,
{
    lemma_le_bytes_len(m, n);
    if i == 0 {
        assert(pow256(0) == 1);
        assert(m / 1 == m);
    } else {
        lemma_le_bytes_index(m / 256, (n - 1) as nat, (i - 1) as nat);
        assert(le_bytes(m, n)[i as int] == le_bytes(m / 256, (n - 1) as nat)[i - 1]);
        lemma_le_bytes_len(m / 256, (n - 1) as nat);
        assert(pow256(i) == 256 * pow256((i - 1) as nat));
        lemma_pow256_pos((i - 1) as nat);
        vstd::arithmetic::div_mod::lemma_div_denominator(m as int, 256, pow256((i - 1) as nat) as int);
    }
}

proof fn lemma_shift_byte(m: usize, i: nat, sh: usize, b: u8)
    requires
        i < 4,
        sh == i * 8,
        m < 0x1_0000_0000,
        b == ((m >> sh) & 0xFF) as u8,
    ensures
        b == ((m as nat / pow256(i)) % 256) as u8,
{
    lemma_pow256_values();
    assert({
        &&& (sh == 0 ==> b == (m % 256) as u8)
        &&& (sh == 8 ==> b == ((m / 256) % 256) as u8)
        &&& (sh == 16 ==> b == ((m / 65536) % 256) as u8)
        &&& (sh == 24 ==> b == ((m / 16777216) % 256) as u8)
    }) by (bit_vector)
        requires
            b == ((m >> sh) & 0xFF) as u8,
    ;
    if i == 0 {
        assert(sh == 0);
        assert(m as nat / pow256(0) == m);
    } else if i == 1 {
        assert(sh == 8);
    } else if i == 2 {
        assert(sh == 16);
    } else {
        assert(sh == 24);
    }
}

fn emit_literal(input: &[u8], from: usize, to: usize, out: &mut Vec<u8>)
    requires
        from < to <= input@.len(),
    ensures
        final(out)@ == old(out)@ + encode_literal(input@.subrange(from as int, to as int)),
{
    let mut start = from;
    while start < to
        invariant
            from <= start <= to <= input@.len(),
            old(out)@ + encode_literal(input@.subrange(from as int, to as int)) == out@
                + encode_literal(input@.subrange(start as int, to as int)),
        decreases to - start,
    {
        let remaining = to - start;
        let chunk_len = if remaining < MAX_LITERAL_CHUNK {
            remaining
        } else {
            MAX_LITERAL_CHUNK
        };
        let ghost before = out@;
        let ghost lit = input@.subrange(start as int, to as int);
        write_literal_tag(chunk_len, out);
        let mut j = 0usize;
        while j < chunk_len
            invariant
                start + chunk_len <= to <= input@.len(),
                j <= chunk_len,
                out@ == before + literal_tag(chunk_len as nat) + input@.subrange(
                    start as int,
                    start + j,
                ),
            decreases chunk_len - j,
        {
            out.push(input[start + j]);
            assert(out@ =~= before + literal_tag(chunk_len as nat) + input@.subrange(
                start as int,
                start + j + 1,
            ));
            j += 1;
        }
        assert(lit.take(chunk_len as int) =~= input@.subrange(start as int, start + chunk_len));
        assert(lit.skip(chunk_len as int) =~= input@.subrange(start + chunk_len, to as int));
        assert(encode_literal(lit) == literal_tag(chunk_len as nat) + lit.take(chunk_len as int)
            + encode_literal(lit.skip(chunk_len as int)));
        assert(out@ + encode_literal(input@.subrange(start + chunk_len, to as int)) =~= before
            + encode_literal(lit));
        start = start + chunk_len;
    }
    assert(input@.subrange(start as int, to as int) =~= Seq::<u8>::empty());
    assert(out@ + encode_literal(input@.subrange(start as int, to as int)) =~= out@);
}

fn emit_copy(offset: usize, len: usize, out: &mut Vec<u8>)
    requires
        1 <= offset <= SEARCH_WINDOW,
        MIN_MATCH <= len,
        copy_length_ok(len as nat),
    ensures
        final(out)@ == old(out)@ + encode_copy(offset as nat, len as nat),
{
    let ghost len0 = len;
    let mut len = len;
    while len > 0
        invariant
            1 <= offset <= SEARCH_WINDOW,
            len == 0 || MIN_MATCH <= len,
            copy_length_ok(len as nat),
            old(out)@ + encode_copy(offset as nat, len0 as nat) == out@ + encode_copy(
                offset as nat,
                len as nat,
            ),
        decreases len,
    {
        let chunk = if len < MAX_COPY_LEN {
            len
        } else {
            MAX_COPY_LEN
        };
        let ghost before = out@;
        if offset < 2048 && 4 <= chunk && chunk <= 11 {
            let tag = (((chunk - 4) as u8) << 2) | (((offset >> 8) as u8) << 5) | TAG_COPY_1;
            let lo = (offset & 0xFF) as u8;
            assert(tag == (chunk - 4) * 4 + (offset / 256) * 32 + 1 && lo == offset % 256)
                by (bit_vector)
                requires
                    4 <= chunk <= 11,
                    offset < 2048,
                    tag == (((chunk - 4) as u8) << 2) | (((offset >> 8) as u8) << 5) | 1u8,
                    lo == (offset & 0xFF) as u8,
            ;
            out.push(tag);
            out.push(lo);
            assert(out@ =~= before + copy_chunk(offset as nat, chunk as nat));
            len -= chunk;
        } else {
            let copy_len = if chunk > MIN_MATCH {
                chunk
            } else {
                MIN_MATCH
            };
            let tag = (((copy_len - 1) as u8) << 2) | TAG_COPY_2;
            let o16 = offset as u16;
            let lo = (o16 & 0xFF) as u8;
            let hi = (o16 >> 8) as u8;
            assert(tag == (copy_len - 1) * 4 + 2 && lo == offset % 256 && hi == (offset / 256) % 256)
                by (bit_vector)
                requires
                    4 <= copy_len <= 64,
                    tag == (((copy_len - 1) as u8) << 2) | 2u8,
                    offset <= 2048,
                    o16 == offset as u16,
                    lo == (o16 & 0xFF) as u8,
                    hi == (o16 >> 8) as u8,
            ;
            out.push(tag);
            out.push(lo);
            out.push(hi);
            assert(le_bytes(offset as nat / 256, 1) == seq![((offset as nat / 256) % 256) as u8]
                + le_bytes(offset as nat / 256 / 256, 0));
            assert(le_bytes(offset as nat, 2) =~= seq![lo, hi]);
            assert(out@ =~= before + copy_chunk(offset as nat, chunk as nat));
            len -= copy_len;
        }
        assert(encode_copy(offset as nat, (len + chunk) as nat) == copy_chunk(offset as nat, chunk as nat)
            + encode_copy(offset as nat, len as nat));
        assert(out@ + encode_copy(offset as nat, len as nat) =~= before + encode_copy(offset as nat, (len + chunk) as nat));
    }
}

/// Whether `compress` can encode `input`: every copy the greedy parse picks has a length whose
/// last chunk keeps four bytes or more.
pub fn is_compressible(input: &[u8]) -> (r: bool)
    ensures
        r == snappy_compressible(input@),
{
    let mut cursor = 0usize;
    while MIN_MATCH <= input.len() - cursor
        invariant
            cursor <= input@.len(),
            snappy_compressible(input@) == compressible_from(input@, cursor as int),
        decreases input.len() - cursor,
    {
        proof {
            lemma_find_match_spec(input@, cursor as int);
        }
        match find_match(input, cursor) {
            None => {
                cursor += 1;
            },
            Some((_, match_len)) => {
                if !(match_len % 64 == 0 || match_len % 64 >= 4) {
                    return false;
                }
                cursor += match_len;
            },
        }
    }
    true
}

/// Encodes `input`: the length as a varint, then a greedy parse in which each position either
/// starts the longest match found in the 2048 bytes before it (four bytes or more, emitted as
/// copies) or joins the pending literal.
pub fn compress(input: &[u8]) -> (out: Vec<u8>)
    requires
        snappy_compressible(input@),
    ensures
        out@ == compress_spec(input@),
{
    let mut out: Vec<u8> = Vec::new();
    write_varint(input.len() as u32, &mut out);
    let mut literal_start = 0usize;
    let mut cursor = 0usize;
    while MIN_MATCH <= input.len() - cursor
        invariant
            literal_start <= cursor <= input@.len(),
            compressible_from(input@, cursor as int),
            compress_spec(input@) == out@ + compress_body(input@, cursor as int, literal_start as int),
        decreases input.len() - cursor,
    {
        proof {
            lemma_find_match_spec(input@, cursor as int);
        }
        let ghost before = out@;
        match find_match(input, cursor) {
            None => {
                cursor += 1;
            },
            Some((match_pos, match_len)) => {
                if literal_start < cursor {
                    emit_literal(input, literal_start, cursor, &mut out);
                }
                emit_copy(cursor - match_pos, match_len, &mut out);
                assert(out@ =~= before + pending_literal(input@, literal_start as int, cursor as int)
                    + encode_copy((cursor - match_pos) as nat, match_len as nat));
                cursor += match_len;
                literal_start = cursor;
            },
        }
    }
    if literal_start < input.len() {
        emit_literal(input, literal_start, input.len(), &mut out);
    }
    assert(out@ =~= compress_spec(input@));
    out
}



// ---------------------------------------------------------------------------------------------
// What one call undoes of the other
// ---------------------------------------------------------------------------------------------

/// `out` extended by `len` bytes copied with period `offset` from `offset` bytes back.
pub open spec fn expand(out: Seq<u8>, offset: nat, len: nat) -> Seq<u8> {
    out + Seq::new(len, |i: int| out[out.len() - offset + i % (offset as int)])
}

proof fn lemma_subrange_split(b: Seq<u8>, at: int, x: Seq<u8>, y: Seq<u8>)
    requires
        0 <= at,
        at + x.len() + y.len() <= b.len(),
        b.subrange(at, at + x.len() + y.len()) == x + y,
    ensures
        b.subrange(at, at + x.len()) == x,
        b.subrange(at + x.len(), at + x.len() + y.len()) == y,
{
    assert(b.subrange(at, at + x.len()) =~= (x + y).subrange(0, x.len() as int));
    assert((x + y).subrange(0, x.len() as int) =~= x);
    assert(b.subrange(at + x.len(), at + x.len() + y.len()) =~= (x + y).subrange(
        x.len() as int,
        (x.len() + y.len()) as int,
    ));
    assert((x + y).subrange(x.len() as int, (x.len() + y.len()) as int) =~= y);
}

proof fn lemma_le_roundtrip(b: Seq<u8>, at: int, m: nat, n: nat)
    requires
        0 <= at,
        at + n <= b.len(),
        m < pow256(n),
        b.subrange(at, at + n) == le_bytes(m, n),
    ensures
        le_value(b, at, n) == m,
    decreases n,
{
    lemma_le_bytes_len(m, n);
    if n == 0 {
        assert(pow256(0) == 1);
    } else {
        let nm = (n - 1) as nat;
        lemma_le_bytes_len(m / 256, nm);
        assert(b[at] == le_bytes(m, n)[0]);
        assert(b.subrange(at + 1, at + 1 + nm) =~= le_bytes(m, n).subrange(1, n as int));
        assert(le_bytes(m, n).subrange(1, n as int) =~= le_bytes(m / 256, nm));
        assert(pow256(n) == 256 * pow256(nm));
        assert(m / 256 < pow256(nm)) by (nonlinear_arith)
            requires
                m < 256 * pow256(nm),
        ;
        lemma_le_roundtrip(b, at + 1, m / 256, nm);
    }
}

proof fn lemma_varint_bits(v: u32, s: u32)
    requires
        s <= 28,
    ensures
        (v >> s) < 128 ==> ((v & (((1u32 << s) - 1) as u32)) | (((v >> s) & 0x7F) << s)) == v,
        s <= 21 ==> ((v & (((1u32 << s) - 1) as u32)) | (((v >> s) & 0x7F) << s)) == (v & (((1u32 << ((s + 7) as u32)) - 1) as u32)),
        s <= 21 ==> (v >> s) / 128 == v >> ((s + 7) as u32),
        s == 28 ==> (v >> s) < 128,
{
    assert({
        &&& (v >> s) < 128 ==> ((v & (((1u32 << s) - 1) as u32)) | (((v >> s) & 0x7F) << s)) == v
        &&& s <= 21 ==> ((v & (((1u32 << s) - 1) as u32)) | (((v >> s) & 0x7F) << s)) == (v & (((1u32
            << ((s + 7) as u32)) - 1) as u32))
        &&& s <= 21 ==> (v >> s) / 128 == v >> ((s + 7) as u32)
        &&& s == 28 ==> (v >> s) < 128
    }) by (bit_vector)
        requires
            s <= 28,
    ;
}

pub proof fn lemma_varint_bytes_len(v: u32)
    ensures
        1 <= varint_bytes(v).len() <= 5,
        v < 0x80 ==> varint_bytes(v).len() == 1,
{
    lemma_varint_len_exact(v);
}

/// Number of bytes of the varint of `v`.
pub open spec fn varint_len(v: nat) -> nat {
    if v < 0x80 {
        1
    } else if v < 0x4000 {
        2
    } else if v < 0x20_0000 {
        3
    } else if v < 0x1000_0000 {
        4
    } else {
        5
    }
}

proof fn lemma_varint_len_exact(v: u32)
    ensures
        varint_bytes(v).len() == varint_len(v as nat),
    decreases v,
{
    if v >= 0x80 {
        lemma_varint_len_exact(v / 128);
        assert(varint_bytes(v).len() == 1 + varint_bytes(v / 128).len());
    }
}

proof fn lemma_varint_step(b: Seq<u8>, at: int, s: u32, v: u32)
    requires
        0 <= at,
        s <= 28,
        s % 7 == 0,
        at + varint_bytes(v >> s).len() <= b.len(),
        b.subrange(at, at + varint_bytes(v >> s).len()) == varint_bytes(v >> s),
    ensures
        varint_from(b, at, s, v & (((1u32 << s) - 1) as u32)) == Ok::<(u32, int), &'static str>(
            (v, at + varint_bytes(v >> s).len()),
        ),
    decreases 28 - s,
{
    let w = v >> s;
    let value = v & (((1u32 << s) - 1) as u32);
    lemma_varint_bits(v, s);
    lemma_varint_bytes_len(w);
    let byte = b[at];
    assert(byte == varint_bytes(w)[0]);
    assert({
        &&& (w < 0x80 && byte == w as u8 ==> (byte & 0x7F) as u32 == w & 0x7F && byte & 0x80 == 0)
        &&& (byte == ((w % 128) + 128) as u8 ==> (byte & 0x7F) as u32 == w & 0x7F && byte & 0x80
            != 0)
    }) by (bit_vector);
    if w < 0x80 {
        assert(byte == w as u8);
    } else {
        assert(byte == ((w % 128) + 128) as u8);
        assert(s <= 21);
        let rest = varint_bytes(w / 128);
        assert(varint_bytes(w) == seq![byte] + rest);
        assert(b.subrange(at + 1, at + 1 + rest.len()) =~= varint_bytes(w).subrange(1, varint_bytes(w).len() as int));
        assert(varint_bytes(w).subrange(1, varint_bytes(w).len() as int) =~= rest);
        lemma_varint_step(b, at + 1, (s + 7) as u32, v);
    }
}

/// The length header reads back the value written.
pub proof fn lemma_varint_roundtrip(b: Seq<u8>, v: u32)
    requires
        varint_bytes(v).len() <= b.len(),
        b.subrange(0, varint_bytes(v).len() as int) == varint_bytes(v),
    ensures
        varint_from(b, 0, 0, 0) == Ok::<(u32, int), &'static str>((v, varint_bytes(v).len() as int)),
{
    assert(v >> 0u32 == v && (v & (((1u32 << 0u32) - 1) as u32)) == 0) by (bit_vector);
    lemma_varint_step(b, 0, 0, v);
}

proof fn lemma_literal_tag_facts(k: nat)
    requires
        1 <= k <= MAX_LITERAL_CHUNK,
    ensures
        literal_tag(k).len() >= 1,
        literal_tag(k).len() <= 5,
        literal_tag(k)[0] % 4 == 0,
        literal_tag(k)[0] / 4 < 60 ==> literal_tag(k).len() == 1 && literal_tag(k)[0] / 4 + 1 == k,
        literal_tag(k)[0] / 4 >= 60 ==> ({
            let n = (literal_tag(k)[0] / 4 - 59) as nat;
            &&& 1 <= n <= 4
            &&& literal_tag(k).len() == 1 + n
            &&& literal_tag(k).subrange(1, 1 + n as int) == le_bytes((k - 1) as nat, n)
            &&& k - 1 < pow256(n)
        }),
{
    lemma_pow256_values();
    if k < 60 {
    } else {
        let m = (k - 1) as nat;
        let n: nat = if m <= 0xFF {
            1
        } else if m <= 0xFFFF {
            2
        } else if m <= 0xFF_FFFF {
            3
        } else {
            4
        };
        lemma_le_bytes_len(m, n);
        assert(literal_tag(k) == seq![((59 + n) * 4) as u8] + le_bytes(m, n));
        assert(literal_tag(k)[0] == ((59 + n) * 4) as u8);
        assert(literal_tag(k).subrange(1, 1 + n as int) =~= le_bytes(m, n));
    }
}

proof fn lemma_literal_chunk_step(b: Seq<u8>, at: int, out: Seq<u8>, lit: Seq<u8>)
    requires
        0 <= at,
        1 <= lit.len() <= MAX_LITERAL_CHUNK,
        at + literal_tag(lit.len()).len() + lit.len() <= b.len(),
        b.subrange(at, at + literal_tag(lit.len()).len() + lit.len()) == literal_tag(lit.len()) + lit,
    ensures
        element_step(b, at, out) == Ok::<(int, Seq<u8>), &'static str>(
            (at + literal_tag(lit.len()).len() + lit.len(), out + lit),
        ),
{
    let k = lit.len();
    let t = literal_tag(k);
    lemma_literal_tag_facts(k);
    lemma_subrange_split(b, at, t, lit);
    assert(b[at] == t[0]);
    let tag = b[at];
    if tag / 4 >= 60 {
        let n = (tag / 4 - 59) as nat;
        assert(b.subrange(at + 1, at + 1 + n) =~= t.subrange(1, 1 + n as int));
        lemma_le_roundtrip(b, at + 1, (k - 1) as nat, n);
    }
}

proof fn lemma_copy1_tag(c: u32, q: u32, t: u32)
    requires
        c < 8,
        q < 8,
        t == c * 4 + q * 32 + 1,
    ensures
        t < 256,
        t % 4 == 1,
        t / 32 == q,
        (t / 4) % 8 == c,
{
    assert(t < 256 && t % 4 == 1 && t / 32 == q && (t / 4) % 8 == c) by (bit_vector)
        requires
            c < 8,
            q < 8,
            t == c * 4 + q * 32 + 1,
    ;
}

proof fn lemma_copy2_tag(c: u32, t: u32)
    requires
        4 <= c <= 64,
        t == (c - 1) * 4 + 2,
    ensures
        t < 256,
        t % 4 == 2,
        1 + t / 4 == c,
{
    assert(t < 256 && t % 4 == 2 && 1 + t / 4 == c) by (bit_vector)
        requires
            4 <= c <= 64,
            t == (c - 1) * 4 + 2,
    ;
}

proof fn lemma_copy_chunk_short(b: Seq<u8>, at: int, out: Seq<u8>, offset: nat, chunk: nat)
    requires
        0 <= at,
        4 <= chunk <= 11,
        1 <= offset < 2048,
        offset <= out.len(),
        at + 2 <= b.len(),
        b.subrange(at, at + 2) == copy_chunk(offset, chunk),
    ensures
        element_step(b, at, out) == Ok::<(int, Seq<u8>), &'static str>((at + 2, expand(out, offset, chunk))),
{
    let cc = copy_chunk(offset, chunk);
    assert(b[at] == cc[0]);
    assert(b[at + 1] == cc[1]);
    let q = offset / 256;
    lemma_copy1_tag((chunk - 4) as u32, q as u32, ((chunk - 4) * 4 + q * 32 + 1) as u32);
    let tag = b[at];
    assert(tag as nat == (chunk - 4) * 4 + q * 32 + 1);
    assert(q * 256 + offset % 256 == offset);
}

proof fn lemma_copy_chunk_long(b: Seq<u8>, at: int, out: Seq<u8>, offset: nat, chunk: nat)
    requires
        0 <= at,
        4 <= chunk <= 64,
        1 <= offset <= SEARCH_WINDOW,
        offset <= out.len(),
        !(offset < 2048 && 4 <= chunk <= 11),
        at + 3 <= b.len(),
        b.subrange(at, at + 3) == copy_chunk(offset, chunk),
    ensures
        element_step(b, at, out) == Ok::<(int, Seq<u8>), &'static str>((at + 3, expand(out, offset, chunk))),
{
    let cc = copy_chunk(offset, chunk);
    lemma_le_bytes_len(offset, 2);
    assert(b[at] == cc[0]);
    lemma_copy2_tag(chunk as u32, ((chunk - 1) * 4 + 2) as u32);
    let tag = b[at];
    assert(tag as nat == (chunk - 1) * 4 + 2);
    assert(b.subrange(at + 1, at + 3) =~= cc.subrange(1, 3));
    assert(cc.subrange(1, 3) =~= le_bytes(offset, 2));
    lemma_pow256_values();
    lemma_le_roundtrip(b, at + 1, offset, 2);
}

proof fn lemma_copy_chunk_step(b: Seq<u8>, at: int, out: Seq<u8>, offset: nat, chunk: nat)
    requires
        0 <= at,
        4 <= chunk <= 64,
        1 <= offset <= SEARCH_WINDOW,
        offset <= out.len(),
        at + copy_chunk(offset, chunk).len() <= b.len(),
        b.subrange(at, at + copy_chunk(offset, chunk).len()) == copy_chunk(offset, chunk),
    ensures
        element_step(b, at, out) == Ok::<(int, Seq<u8>), &'static str>(
            (at + copy_chunk(offset, chunk).len(), expand(out, offset, chunk)),
        ),
{
    lemma_le_bytes_len(offset, 2);
    if offset < 2048 && 4 <= chunk <= 11 {
        lemma_copy_chunk_short(b, at, out, offset, chunk);
    } else {
        lemma_copy_chunk_long(b, at, out, offset, chunk);
    }
}

proof fn lemma_expand_split(o: Seq<u8>, off: nat, a: nat, b: nat)
    requires
        1 <= off <= o.len(),
    ensures
        expand(expand(o, off, a), off, b) == expand(o, off, a + b),
{
    let e = expand(o, off, a);
    let lhs = expand(e, off, b);
    let rhs = expand(o, off, a + b);
    assert(lhs.len() == rhs.len());
    assert forall|i: int| 0 <= i < lhs.len() implies lhs[i] == rhs[i] by {
        if i < o.len() + a {
        } else {
            let j = i - o.len() - a;
            let oi = off as int;
            vstd::arithmetic::div_mod::lemma_mod_pos_bound(j, oi);
            vstd::arithmetic::div_mod::lemma_add_mod_noop_right(a as int, j, oi);
            let t = a + j % oi;
            assert(lhs[i] == e[e.len() - oi + j % oi]);
            assert(rhs[i] == o[o.len() - oi + (a + j) % oi]);
            if t < oi {
                vstd::arithmetic::div_mod::lemma_small_mod(t as nat, off);
                assert(e[e.len() - oi + j % oi] == o[o.len() - oi + t]);
            } else {
                vstd::arithmetic::div_mod::lemma_mod_sub_multiples_vanish(t, oi);
                vstd::arithmetic::div_mod::lemma_mod_pos_bound(t - oi, oi);
                assert(t - oi < a);
                assert(e[e.len() - oi + j % oi] == e[o.len() + (t - oi)]);
                assert(e[o.len() + (t - oi)] == o[o.len() - oi + (t - oi) % oi]);
            }
        }
    }
    assert(lhs =~= rhs);
}

pub proof fn lemma_encode_copy_len(offset: nat, len: nat)
    ensures
        encode_copy(offset, len).len() <= len,
    decreases len,
{
    if len >= MIN_MATCH {
        let chunk: nat = if len <= MAX_COPY_LEN {
            len
        } else {
            MAX_COPY_LEN as nat
        };
        lemma_le_bytes_len(offset, 2);
        lemma_encode_copy_len(offset, (len - chunk) as nat);
    }
}

proof fn lemma_decode_step(b: Seq<u8>, at: int, out: Seq<u8>, n: nat, at2: int, out2: Seq<u8>)
    requires
        0 <= at < b.len(),
        out.len() < n,
        element_step(b, at, out) == Ok::<(int, Seq<u8>), &'static str>((at2, out2)),
    ensures
        decode_elements(b, at, out, n) == decode_elements(b, at2, out2, n),
{
}

proof fn lemma_copy_length_ok_rest(len: nat)
    requires
        len > 64,
        copy_length_ok(len),
    ensures
        len - 64 >= 4,
        copy_length_ok((len - 64) as nat),
{
    assert((len - 64) % 64 == len % 64) by {
        vstd::arithmetic::div_mod::lemma_mod_sub_multiples_vanish(len as int, 64);
    }
}

proof fn lemma_copy_run(b: Seq<u8>, at: int, out: Seq<u8>, n: nat, offset: nat, len: nat)
    requires
        0 <= at,
        MIN_MATCH <= len,
        copy_length_ok(len),
        1 <= offset <= SEARCH_WINDOW,
        offset <= out.len(),
        out.len() + len <= n,
        at + encode_copy(offset, len).len() <= b.len(),
        b.subrange(at, at + encode_copy(offset, len).len()) == encode_copy(offset, len),
    ensures
        decode_elements(b, at, out, n) == decode_elements(
            b,
            at + encode_copy(offset, len).len(),
            expand(out, offset, len),
            n,
        ),
    decreases len,
{
    let chunk: nat = if len <= MAX_COPY_LEN {
        len
    } else {
        MAX_COPY_LEN as nat
    };
    let cc = copy_chunk(offset, chunk);
    let rest = encode_copy(offset, (len - chunk) as nat);
    assert(encode_copy(offset, len) == cc + rest);
    lemma_subrange_split(b, at, cc, rest);
    lemma_copy_chunk_step(b, at, out, offset, chunk);
    let out2 = expand(out, offset, chunk);
    lemma_le_bytes_len(offset, 2);
    assert(cc.len() >= 2);
    lemma_decode_step(b, at, out, n, at + cc.len(), out2);
    if len > chunk {
        lemma_copy_length_ok_rest(len);
        lemma_copy_run(b, at + cc.len(), out2, n, offset, (len - chunk) as nat);
        lemma_expand_split(out, offset, chunk, (len - chunk) as nat);
    }
}

pub proof fn lemma_encode_literal_len(lit: Seq<u8>)
    ensures
        encode_literal(lit).len() >= lit.len(),
    decreases lit.len(),
{
    if lit.len() > 0 {
        let k = if lit.len() <= MAX_LITERAL_CHUNK {
            lit.len()
        } else {
            MAX_LITERAL_CHUNK as nat
        };
        lemma_literal_tag_facts(k);
        lemma_encode_literal_len(lit.skip(k as int));
    }
}

proof fn lemma_literal_run(b: Seq<u8>, at: int, out: Seq<u8>, n: nat, lit: Seq<u8>)
    requires
        0 <= at,
        1 <= lit.len(),
        out.len() + lit.len() <= n,
        at + encode_literal(lit).len() <= b.len(),
        b.subrange(at, at + encode_literal(lit).len()) == encode_literal(lit),
    ensures
        decode_elements(b, at, out, n) == decode_elements(
            b,
            at + encode_literal(lit).len(),
            out + lit,
            n,
        ),
    decreases lit.len(),
{
    let k = if lit.len() <= MAX_LITERAL_CHUNK {
        lit.len()
    } else {
        MAX_LITERAL_CHUNK as nat
    };
    let head = lit.take(k as int);
    let t = literal_tag(k);
    let rest = encode_literal(lit.skip(k as int));
    assert(encode_literal(lit) == t + head + rest);
    lemma_subrange_split(b, at, t + head, rest);
    assert((t + head).len() == t.len() + k);
    lemma_literal_chunk_step(b, at, out, head);
    assert(decode_elements(b, at, out, n) == decode_elements(b, at + t.len() + k, out + head, n));
    if lit.len() > k {
        lemma_literal_run(b, at + t.len() + k, out + head, n, lit.skip(k as int));
        assert(out + head + lit.skip(k as int) =~= out + lit);
    } else {
        assert(head =~= lit);
        assert(rest =~= Seq::<u8>::empty());
    }
}

proof fn lemma_match_expand(s: Seq<u8>, p: int, cursor: int, l: nat)
    requires
        0 <= p < cursor,
        cursor + l <= s.len(),
        match_holds(s, p, cursor, l),
    ensures
        expand(s.take(cursor), (cursor - p) as nat, l) == s.take(cursor + l),
{
    let off = cursor - p;
    let e = expand(s.take(cursor), off as nat, l);
    assert forall|i: int| 0 <= i < cursor + l implies e[i] == s.take(cursor + l)[i] by {
        if i >= cursor {
            let j = i - cursor;
            vstd::arithmetic::div_mod::lemma_mod_pos_bound(j, off);
            assert(s[cursor + j] == s[p + j % off]);
        }
    }
    assert(e =~= s.take(cursor + l));
}

proof fn lemma_body_roundtrip(s: Seq<u8>, b: Seq<u8>, at: int, cursor: int, ls: int)
    requires
        0 <= ls <= cursor <= s.len(),
        0 <= at,
        compressible_from(s, cursor),
        at + compress_body(s, cursor, ls).len() == b.len(),
        b.subrange(at, b.len() as int) == compress_body(s, cursor, ls),
    ensures
        decode_elements(b, at, s.take(ls), s.len()) == Ok::<Seq<u8>, &'static str>(s),
    decreases s.len() - cursor,
{
    let n = s.len();
    if cursor + MIN_MATCH <= n {
        lemma_find_match_spec(s, cursor);
        match find_match_spec(s, cursor) {
            None => {
                lemma_body_roundtrip(s, b, at, cursor + 1, ls);
            },
            Some((p, l)) => {
                let pl = pending_literal(s, ls, cursor);
                let ec = encode_copy((cursor - p) as nat, l);
                let rest = compress_body(s, cursor + l, cursor + l);
                assert(compress_body(s, cursor, ls) == pl + ec + rest);
                assert(b.subrange(at, at + pl.len() + ec.len() + rest.len()) == pl + ec + rest);
                lemma_subrange_split(b, at, pl + ec, rest);
                lemma_subrange_split(b, at, pl, ec);
                let at1 = at + pl.len();
                if ls < cursor {
                    lemma_literal_run(b, at, s.take(ls), n, s.subrange(ls, cursor));
                    assert(s.take(ls) + s.subrange(ls, cursor) =~= s.take(cursor));
                } else {
                    assert(pl.len() == 0);
                }
                assert(decode_elements(b, at, s.take(ls), n) == decode_elements(b, at1, s.take(cursor), n));
                lemma_copy_run(b, at1, s.take(cursor), n, (cursor - p) as nat, l);
                lemma_match_expand(s, p, cursor, l);
                let at2 = at1 + ec.len();
                assert(b.subrange(at2, b.len() as int) == rest);
                lemma_body_roundtrip(s, b, at2, cursor + l, cursor + l);
            },
        }
    } else {
        if ls < n {
            let lit = s.subrange(ls, n as int);
            lemma_literal_run(b, at, s.take(ls), n, lit);
            assert(s.take(ls) + lit =~= s);
        } else {
            assert(s.take(ls) =~= s);
        }
    }
}

/// Decompressing what `compress` returns gives the input back, for every input that it
/// accepts and whose length fits the `u32` header.
pub proof fn lemma_snappy_roundtrip(s: Seq<u8>)
    requires
        snappy_compressible(s),
        s.len() <= u32::MAX,
    ensures
        decompress_spec(compress_spec(s)) == Ok::<Seq<u8>, &'static str>(s),
{
    let h = varint_bytes(s.len() as u32);
    let body = compress_body(s, 0, 0);
    let b = compress_spec(s);
    assert(b.subrange(0, h.len() as int) =~= h);
    lemma_varint_roundtrip(b, s.len() as u32);
    assert(b.subrange(h.len() as int, b.len() as int) =~= body);
    lemma_body_roundtrip(s, b, h.len() as int, 0, 0);
    assert(s.take(0) =~= Seq::<u8>::empty());
}


proof fn lemma_encode_literal_bound(lit: Seq<u8>)
    ensures
        encode_literal(lit).len() <= 6 * lit.len(),
    decreases lit.len(),
{
    if lit.len() > 0 {
        let k = if lit.len() <= MAX_LITERAL_CHUNK {
            lit.len()
        } else {
            MAX_LITERAL_CHUNK as nat
        };
        lemma_literal_tag_facts(k);
        lemma_encode_literal_bound(lit.skip(k as int));
    }
}

proof fn lemma_compress_body_bound(s: Seq<u8>, cursor: int, ls: int)
    requires
        0 <= ls <= cursor <= s.len(),
    ensures
        compress_body(s, cursor, ls).len() <= 6 * (s.len() - ls),
    decreases s.len() - cursor,
{
    if cursor + MIN_MATCH <= s.len() {
        lemma_find_match_spec(s, cursor);
        match find_match_spec(s, cursor) {
            None => {
                lemma_compress_body_bound(s, cursor + 1, ls);
            },
            Some((p, l)) => {
                if ls < cursor {
                    lemma_encode_literal_bound(s.subrange(ls, cursor));
                }
                lemma_encode_copy_len((cursor - p) as nat, l);
                lemma_compress_body_bound(s, cursor + l, cursor + l);
            },
        }
    } else {
        if ls < s.len() {
            lemma_encode_literal_bound(s.subrange(ls, s.len() as int));
        }
    }
}

/// The encoding is at most six bytes per input byte, plus the header's five.
pub proof fn lemma_compress_spec_bound(s: Seq<u8>)
    ensures
        compress_spec(s).len() <= 6 * s.len() + 5,
{
    lemma_varint_bytes_len(s.len() as u32);
    lemma_compress_body_bound(s, 0, 0);
}

/// The length header's law: the varint that `write_varint` writes for `v`, followed by any
/// bytes, reads back as `v` and ends after exactly `varint_len(v)` bytes, which is one byte
/// per started group of seven significant bits (one for zero), so between one and five.
pub proof fn lemma_varint_law(v: u32, rest: Seq<u8>)
    ensures
        varint_bytes(v).len() == varint_len(v as nat),
        1 <= varint_len(v as nat) <= 5,
        varint_from(varint_bytes(v) + rest, 0, 0, 0) == Ok::<(u32, int), &'static str>(
            (v, varint_len(v as nat) as int),
        ),
{
    lemma_varint_len_exact(v);
    let b = varint_bytes(v) + rest;
    assert(b.subrange(0, varint_bytes(v).len() as int) =~= varint_bytes(v));
    lemma_varint_roundtrip(b, v);
}

/// The literal tag's law: the tag that `write_literal_tag` writes for a literal of `len`
/// bytes (at most one chunk), followed by any bytes, marks a literal and gives back `len`,
/// with the data starting right after the tag's one to five bytes; a literal shorter than 60
/// bytes takes a single tag byte.
pub proof fn lemma_literal_tag_law(len: nat, rest: Seq<u8>)
    requires
        1 <= len <= MAX_LITERAL_CHUNK,
    ensures
        ({
            let w = literal_tag(len) + rest;
            &&& w[0] % 4 == 0
            &&& literal_length(w[0], w, 1) == Ok::<(nat, int), &'static str>(
                (len, literal_tag(len).len() as int),
            )
            &&& 1 <= literal_tag(len).len() <= 5
            &&& len < 60 ==> literal_tag(len).len() == 1
        }),
{
    let t = literal_tag(len);
    let w = t + rest;
    lemma_literal_tag_facts(len);
    assert(w[0] == t[0]);
    if t[0] / 4 >= 60 {
        let n = (t[0] / 4 - 59) as nat;
        assert(w.subrange(1, 1 + n as int) =~= t.subrange(1, 1 + n as int));
        lemma_le_roundtrip(w, 1, (len - 1) as nat, n);
    }
}

} // verus!
