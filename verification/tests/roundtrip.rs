use std::io::{Read, Write};

use final_compression::codec::{writer_plan, CompressionType, WriterPlan};
use final_compression::liblz4::Lz4Wrapper;
use final_compression::liblzo::LZOWrapperW;
use final_compression::params::ParamSet;

fn compress_with(ct: CompressionType, options: &str, data: &[u8]) -> Vec<u8> {
    let params = ParamSet::parse(options).unwrap();
    match writer_plan(ct, &params) {
        WriterPlan::Passthrough => data.to_vec(),
        WriterPlan::Zstd { level } => {
            let mut enc = zstd::stream::write::Encoder::new(Vec::new(), level as i32).unwrap();
            enc.write_all(data).unwrap();
            enc.finish().unwrap()
        }
        WriterPlan::Snappy => {
            let mut enc = snap::write::FrameEncoder::new(Vec::new());
            enc.write_all(data).unwrap();
            enc.into_inner().unwrap()
        }
        WriterPlan::Gzip { level } => {
            let mut enc =
                flate2::write::GzEncoder::new(Vec::new(), flate2::Compression::new(level));
            enc.write_all(data).unwrap();
            enc.finish().unwrap()
        }
        WriterPlan::Zlib { level } => {
            let mut enc =
                flate2::write::ZlibEncoder::new(Vec::new(), flate2::Compression::new(level));
            enc.write_all(data).unwrap();
            enc.finish().unwrap()
        }
        WriterPlan::Deflate { level } => {
            let mut enc =
                flate2::write::DeflateEncoder::new(Vec::new(), flate2::Compression::new(level));
            enc.write_all(data).unwrap();
            enc.finish().unwrap()
        }
        WriterPlan::Bzip2 { level } => {
            let mut enc = bzip2::write::BzEncoder::new(Vec::new(), bzip2::Compression::new(level));
            enc.write_all(data).unwrap();
            enc.finish().unwrap()
        }
        WriterPlan::LZ4 { level, linked } => {
            let mut w = Lz4Wrapper::create(Vec::new(), level, linked).unwrap();
            w.write(data).unwrap();
            w.finish().expect("an unfinished adapter yields its sink")
        }
        WriterPlan::XZ { level } => {
            let mut enc = xz2::write::XzEncoder::new(Vec::new(), level);
            enc.write_all(data).unwrap();
            enc.finish().unwrap()
        }
    }
}

fn decompress_with(ct: CompressionType, bytes: &[u8]) -> Vec<u8> {
    let mut out = Vec::new();
    match ct {
        CompressionType::Plain => out.extend_from_slice(bytes),
        CompressionType::Zstd => {
            zstd::stream::read::Decoder::new(bytes)
                .unwrap()
                .read_to_end(&mut out)
                .unwrap();
        }
        CompressionType::Snappy => {
            snap::read::FrameDecoder::new(bytes)
                .read_to_end(&mut out)
                .unwrap();
        }
        CompressionType::Gzip => {
            flate2::read::GzDecoder::new(bytes)
                .read_to_end(&mut out)
                .unwrap();
        }
        CompressionType::Zlib => {
            flate2::read::ZlibDecoder::new(bytes)
                .read_to_end(&mut out)
                .unwrap();
        }
        CompressionType::Deflate => {
            flate2::read::DeflateDecoder::new(bytes)
                .read_to_end(&mut out)
                .unwrap();
        }
        CompressionType::Bzip2 => {
            bzip2::read::BzDecoder::new(bytes)
                .read_to_end(&mut out)
                .unwrap();
        }
        CompressionType::LZ4 => {
            lz4::Decoder::new(bytes).unwrap().read_to_end(&mut out).unwrap();
        }
        CompressionType::XZ => {
            xz2::read::XzDecoder::new(bytes)
                .read_to_end(&mut out)
                .unwrap();
        }
    }
    out
}

fn roundtrip(ct: CompressionType, options: &str, test_data: &str) {
    let compressed = compress_with(ct, options, test_data.as_bytes());
    let decompressed = decompress_with(ct, &compressed);
    assert_eq!(decompressed.len(), test_data.as_bytes().len());
    assert_eq!(&decompressed, test_data.as_bytes());
}

#[test]
fn test_compressed_writer_zstd() {
    let test_data = "hello, world, hello, world, hello, world, hello, world";
    roundtrip(CompressionType::Zstd, "level=0", test_data);
}

#[test]
fn test_compressed_writer_snappy() {
    let test_data = "hello, world, hello, world, hello, world, hello, world";
    roundtrip(CompressionType::Snappy, "level=0", test_data);
}

#[test]
fn test_compressed_writer_gzip() {
    let test_data = "hello, world, hello, world, hello, world, hello, world";
    roundtrip(CompressionType::Gzip, "level=0", test_data);
}

#[test]
fn test_compressed_writer_bz2() {
    let test_data = "hello, world, hello, world, hello, world, hello, world";
    roundtrip(CompressionType::Bzip2, "level=3", test_data);
}

#[test]
fn test_compressed_writer_lz4() {
    let test_data = "hello, world, hello, world, hello, world, hello, world";
    roundtrip(CompressionType::LZ4, "level=3", test_data);
}

#[test]
fn test_compressed_writer_xz() {
    let test_data = "hello, world, hello, world, hello, world, hello, world";
    roundtrip(CompressionType::XZ, "level=3", test_data);
}

#[test]
fn roundtrip_empty_payloads() {
    for ct in [
        CompressionType::Plain,
        CompressionType::Zstd,
        CompressionType::Snappy,
        CompressionType::Gzip,
        CompressionType::Zlib,
        CompressionType::Deflate,
        CompressionType::Bzip2,
        CompressionType::LZ4,
        CompressionType::XZ,
    ] {
        roundtrip(ct, "", "");
    }
}

#[test]
fn roundtrip_all_codecs_defaults() {
    let test_data = "hello, world, hello, world, hello, world, hello, world";
    for ct in [
        CompressionType::Plain,
        CompressionType::Zstd,
        CompressionType::Snappy,
        CompressionType::Gzip,
        CompressionType::Zlib,
        CompressionType::Deflate,
        CompressionType::Bzip2,
        CompressionType::LZ4,
        CompressionType::XZ,
    ] {
        roundtrip(ct, "", test_data);
    }
}

#[test]
fn zstd_default_output_matches_explicit_default_level() {
    let data = b"hello, world, hello, world, hello, world, hello, world";
    let implicit = compress_with(CompressionType::Zstd, "", data);
    let explicit = compress_with(CompressionType::Zstd, "level=3", data);
    assert_eq!(implicit, explicit);
}

#[test]
fn end_to_end_zstd_level_one() {
    let text = "hello, world, hello, world, hello, world, hello, world";
    let params = ParamSet::parse("level=1").unwrap();
    let plan = writer_plan(CompressionType::Zstd, &params);
    assert_eq!(plan, WriterPlan::Zstd { level: 1 });
    let compressed = compress_with(CompressionType::Zstd, "level=1", text.as_bytes());
    let decoded = decompress_with(CompressionType::Zstd, &compressed);
    let bytes_written = text.as_bytes().len();
    let bytes_read = decoded.len();
    assert_eq!(bytes_written, bytes_read);
    assert_eq!(String::from_utf8(decoded).unwrap(), text);
}

#[test]
fn gzip_case_aliases_give_byte_compatible_output() {
    let data = b"hello, world, hello, world, hello, world, hello, world";
    let a = CompressionType::from_name("gz").unwrap();
    let b = CompressionType::from_name("Gzip").unwrap();
    let out_a = compress_with(a, "level=5", data);
    let out_b = compress_with(b, "level=5", data);
    assert_eq!(out_a, out_b);
}

#[test]
fn lz4_discard_without_write_is_valid_empty_stream() {
    let mut w = Lz4Wrapper::create(Vec::new(), 1, true).unwrap();
    let bytes = w.finish().expect("first teardown yields the sink");
    assert!(w.finish().is_none());
    let mut dec = lz4::Decoder::new(&bytes[..]).unwrap();
    let mut out = Vec::new();
    dec.read_to_end(&mut out).unwrap();
    assert!(out.is_empty());
    assert!(w.write(b"x").is_err());
    assert!(w.flush().is_err());
}

#[test]
fn lzo_roundtrip() {
    let data: &[u8] = b"hello, world, hello, world, hello, world, hello, world";
    let mut w = LZOWrapperW::new(Vec::new());
    let n = w.write(data).unwrap();
    let out = w.into_writer();
    assert_eq!(out.len(), n);
    assert!(out.len() < data.len());
    let mut scratch = vec![0u8; data.len() + 64];
    let (dec, err) = rust_lzo::LZOContext::decompress_to_slice(&out, &mut scratch);
    assert!(err == rust_lzo::LZOError::OK);
    assert_eq!(dec, data);
}
