use tuff_radical::compression::snappy::{compress, decompress, is_compressible};
use tuff_radical::compression::zram as pool;
use tuff_radical::compression::{Compressor, Lz4Compressor, SnappyCompressor};
use tuff_radical::zram::{
    benchmark_outcome, compress_block, decompress_block, init, patterned_sample, CompressionBackend,
    TRadZram, ZramInit,
};

#[test]
fn empty_input_compresses_to_zero_length_header() {
    assert_eq!(compress(&[]), vec![0u8]);
    assert_eq!(decompress(&[0u8]), Ok(vec![]));
}

#[test]
fn short_literal_decodes() {
    assert_eq!(decompress(&[3, 0x08, b'a', b'b', b'c']), Ok(b"abc".to_vec()));
}

#[test]
fn decompress_reports_each_error() {
    assert_eq!(decompress(&[]), Err("invalid varint"));
    assert_eq!(decompress(&[0x80]), Err("invalid varint"));
    assert_eq!(decompress(&[5, 0x08, b'a']), Err("literal exceeds input"));
    assert_eq!(decompress(&[70, 0xF0]), Err("literal length truncated"));
    assert_eq!(decompress(&[4, 0x01]), Err("copy1 truncated"));
    assert_eq!(decompress(&[4, 0x02, 0x01]), Err("copy2 truncated"));
    assert_eq!(decompress(&[4, 0x03, 0x01, 0x00]), Err("copy4 truncated"));
    assert_eq!(decompress(&[4, 0x01, 0x01]), Err("invalid copy offset"));
    assert_eq!(decompress(&[5, 0x08, b'a', b'b', b'c']), Err("decompressed length mismatch"));
}

#[test]
fn copy_repeats_earlier_output() {
    // one literal byte, then a 1-byte-offset copy of length 5
    assert_eq!(decompress(&[6, 0x00, b'x', 0x05, 0x01]), Ok(b"xxxxxx".to_vec()));
}

#[test]
fn roundtrip_of_text_and_runs() {
    let text = b"TUFF-RADICAL-SNAPPY-TUFF-RADICAL-SNAPPY-TUFF-RADICAL-SNAPPY-TUFF-RADICAL-SNAPPY".repeat(64);
    assert!(is_compressible(&text));
    let c = compress(&text);
    assert!(c.len() < text.len());
    assert_eq!(decompress(&c), Ok(text.clone()));

    let run = vec![0xAAu8; 4096];
    assert!(is_compressible(&run));
    assert_eq!(decompress(&compress(&run)), Ok(run.clone()));

    let patterned = patterned_sample();
    assert_eq!(patterned.len(), 4096);
    assert_eq!(patterned[250], 250);
    assert_eq!(patterned[251], 0);
    assert!(is_compressible(&patterned));
    assert_eq!(decompress(&compress(&patterned)), Ok(patterned.clone()));
}

#[test]
fn run_with_short_tail_copy_is_not_encodable() {
    // a 66-byte run leaves a 65-byte match, whose last 1-byte chunk the copy encoder cannot write
    assert!(!is_compressible(&[7u8; 66]));
    assert!(is_compressible(&[7u8; 65]));
}

#[test]
fn snappy_compressor_writes_into_buffers() {
    let c = SnappyCompressor;
    assert_eq!(c.name(), "snappy");
    let data = b"hello hello hello hello";
    let mut out = vec![0u8; c.max_compressed_len(data.len())];
    let n = c.compress(data, &mut out).unwrap();
    let mut back = vec![0u8; data.len()];
    let m = c.decompress(&out[..n], &mut back).unwrap();
    assert_eq!(&back[..m], &data[..]);
    let mut tiny = [0u8; 1];
    assert_eq!(c.compress(data, &mut tiny), Err("output buffer too small"));
    assert_eq!(c.compress(&[7u8; 66], &mut out), Err("snappy copy length not encodable"));
}

#[test]
fn lz4_compressor_is_not_wired() {
    let c = Lz4Compressor;
    assert_eq!(c.name(), "lz4");
    let mut out = [0u8; 16];
    assert_eq!(c.compress(b"abc", &mut out), Err("lz4 not yet decoupled"));
    assert_eq!(c.decompress(b"abc", &mut out), Err("lz4 not yet decoupled"));
}

#[test]
fn zram_pool_stores_and_loads() {
    let (p, self_test) = pool::init();
    assert!(self_test);
    let mut slot = Some(p);
    let data = vec![0x11u8; 1000];
    let id = pool::store(&mut slot, &data).unwrap();
    assert_eq!(id, 0);
    let mut buf = vec![0u8; 1000];
    assert_eq!(pool::load(&slot, 0, &mut buf), Ok(1000));
    assert_eq!(buf, data);
    assert_eq!(pool::load(&slot, 1, &mut buf), Err("Invalid block ID"));
    let stats = pool::log_stats(&slot).unwrap();
    assert_eq!(stats.0, "snappy");
    assert_eq!(stats.1, 1);
    assert_eq!(stats.2, 1000);
}

#[test]
fn zram_pool_requires_init() {
    let mut slot: Option<pool::ZramPool<SnappyCompressor>> = None;
    assert_eq!(pool::store(&mut slot, b"abc"), Err("ZRAM not initialized"));
    let mut buf = [0u8; 4];
    assert_eq!(pool::load(&slot, 0, &mut buf), Err("ZRAM not initialized"));
    assert!(pool::log_stats(&slot).is_none());
}

#[test]
fn backend_names() {
    assert_eq!(CompressionBackend::Snappy.as_str(), "snappy");
    assert_eq!(CompressionBackend::Lz4.as_str(), "lz4");
}

#[test]
fn lz4_blocks_roundtrip_and_differ_from_input() {
    let data = b"TUFF-RADICAL-LZ4-TUFF-RADICAL-LZ4-TUFF-RADICAL-LZ4".to_vec();
    let c = compress_block(CompressionBackend::Lz4, &data);
    assert_ne!(c, data);
    assert_eq!(&c[..4], &(data.len() as u32).to_le_bytes());
    assert_eq!(decompress_block(CompressionBackend::Lz4, &c), Ok(data.clone()));
    assert_eq!(decompress_block(CompressionBackend::Lz4, &[0xFF, 0xFF]), Err("lz4 decode failed"));
    assert_eq!(decompress_block(CompressionBackend::Snappy, &[]), Err("snappy decode failed"));
}

#[test]
fn trad_zram_stores_with_each_backend() {
    let mut z = TRadZram::new(CompressionBackend::Snappy);
    assert!(z.print_stats().is_none());
    let a = vec![0xAAu8; 4096];
    let id0 = z.store(&a);
    let id1 = z.store_with_backend(&a, CompressionBackend::Lz4);
    assert_eq!((id0, id1), (0, 1));
    assert_eq!(z.load(0), Some(a.clone()));
    assert_eq!(z.load(1), Some(a.clone()));
    assert_eq!(z.load(2), None);
    assert_eq!(z.block_count(), 2);
    let st = z.print_stats().unwrap();
    assert_eq!(st.blocks, 2);
    assert_eq!(st.uncompressed_bytes, 8192);
    z.set_default_backend(CompressionBackend::Lz4);
    assert_eq!(z.default_backend(), CompressionBackend::Lz4);
}

#[test]
fn trad_zram_init_runs_self_test_once() {
    let mut active = false;
    let mut z = TRadZram::new(CompressionBackend::Snappy);
    assert!(matches!(init(&mut active, &mut z), ZramInit::SelfTestStored { id: 0 }));
    assert!(active);
    assert!(matches!(init(&mut active, &mut z), ZramInit::AlreadyActive));
    assert_eq!(z.block_count(), 1);
    assert_eq!(z.load(0), Some(vec![0xAAu8; 4096]));

    let mut active_lz4 = false;
    let mut lz4 = TRadZram::new(CompressionBackend::Lz4);
    assert!(matches!(init(&mut active_lz4, &mut lz4), ZramInit::SelfTestStored { id: 0 }));
    assert_eq!(lz4.load(0), Some(vec![0xAAu8; 4096]));
    assert_eq!(lz4.load(1), None);
}

#[test]
fn benchmark_verdicts() {
    let sample = b"abcabcabc".to_vec();
    let compressed = compress(&sample);
    let ok = benchmark_outcome(&sample, &compressed, Ok(sample.clone()), 10, 20).unwrap();
    assert_eq!(ok.input_bytes, 9);
    assert_eq!(ok.compressed_bytes, compressed.len());
    assert_eq!((ok.compress_cycles, ok.decompress_cycles), (10, 20));
    assert!(matches!(
        benchmark_outcome(&sample, &compressed, Ok(b"abc".to_vec()), 1, 1),
        Err("roundtrip mismatch")
    ));
    assert!(matches!(benchmark_outcome(&sample, &compressed, Err("snappy decode failed"), 1, 1), Err("snappy decode failed")));
}

#[test]
fn long_lz4_blocks_reload() {
    let mut state: u32 = 0x1234_5678;
    let data: Vec<u8> = (0..17_000_000)
        .map(|_| {
            state ^= state << 13;
            state ^= state >> 17;
            state ^= state << 5;
            state as u8
        })
        .collect();
    let mut pool = TRadZram::new(CompressionBackend::Lz4);
    let id = pool.store(&data);
    let (unc, comp) = pool.totals();
    assert_eq!(unc, 17_000_000);
    assert!(comp >= 16_843_009);
    assert_eq!(pool.load(id), Some(data));
}
