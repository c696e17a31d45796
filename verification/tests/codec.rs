use final_compression::codec::{writer_plan, CompressionType, WriterPlan};
use final_compression::errors::ConfigError;
use final_compression::params::ParamSet;

#[test]
fn alias_case_tolerance() {
    let a = CompressionType::from_name("gz").unwrap();
    let b = CompressionType::from_name("GZIP").unwrap();
    let c = CompressionType::from_name("Gzip").unwrap();
    assert_eq!(a, CompressionType::Gzip);
    assert_eq!(b, CompressionType::Gzip);
    assert_eq!(c, CompressionType::Gzip);
}

#[test]
fn all_known_names_resolve() {
    let cases = [
        ("zstd", CompressionType::Zstd),
        ("ZST", CompressionType::Zstd),
        ("lz4", CompressionType::LZ4),
        ("LZ4", CompressionType::LZ4),
        ("snappy", CompressionType::Snappy),
        ("SNAPPY", CompressionType::Snappy),
        ("xz", CompressionType::XZ),
        ("zlib", CompressionType::Zlib),
        ("bzip2", CompressionType::Bzip2),
        ("BZ2", CompressionType::Bzip2),
        ("deflate", CompressionType::Deflate),
        ("DEFLATE", CompressionType::Deflate),
    ];
    for (name, want) in cases {
        assert_eq!(CompressionType::from_name(name).unwrap(), want);
    }
}

#[test]
fn unknown_codec_rejected() {
    assert_eq!(
        CompressionType::from_name("brotli"),
        Err(ConfigError::UnknownCodec)
    );
    assert_eq!(CompressionType::from_name(""), Err(ConfigError::UnknownCodec));
    assert_eq!(
        CompressionType::from_name("gzipp"),
        Err(ConfigError::UnknownCodec)
    );
}

#[test]
fn plan_defaults() {
    let empty = ParamSet::parse("").unwrap();
    assert_eq!(
        writer_plan(CompressionType::Zstd, &empty),
        WriterPlan::Zstd { level: 3 }
    );
    assert_eq!(
        writer_plan(CompressionType::Gzip, &empty),
        WriterPlan::Gzip { level: 3 }
    );
    assert_eq!(
        writer_plan(CompressionType::Zlib, &empty),
        WriterPlan::Zlib { level: 3 }
    );
    assert_eq!(
        writer_plan(CompressionType::Deflate, &empty),
        WriterPlan::Deflate { level: 3 }
    );
    assert_eq!(
        writer_plan(CompressionType::Bzip2, &empty),
        WriterPlan::Bzip2 { level: 3 }
    );
    assert_eq!(
        writer_plan(CompressionType::XZ, &empty),
        WriterPlan::XZ { level: 6 }
    );
    assert_eq!(
        writer_plan(CompressionType::LZ4, &empty),
        WriterPlan::LZ4 { level: 1, linked: true }
    );
}

#[test]
fn omitting_level_equals_spelling_its_default() {
    let empty = ParamSet::parse("").unwrap();
    let explicit = ParamSet::parse("level=3").unwrap();
    assert_eq!(
        writer_plan(CompressionType::Gzip, &empty),
        writer_plan(CompressionType::Gzip, &explicit)
    );
    let xz_default = ParamSet::parse("level=6").unwrap();
    assert_eq!(
        writer_plan(CompressionType::XZ, &empty),
        writer_plan(CompressionType::XZ, &xz_default)
    );
}

#[test]
fn plan_reads_level_and_block_mode() {
    let p = ParamSet::parse("level=9;block_mode=independent").unwrap();
    assert_eq!(
        writer_plan(CompressionType::Bzip2, &p),
        WriterPlan::Bzip2 { level: 9 }
    );
    assert_eq!(
        writer_plan(CompressionType::LZ4, &p),
        WriterPlan::LZ4 { level: 9, linked: false }
    );
    let q = ParamSet::parse("block_mode=banana").unwrap();
    assert_eq!(
        writer_plan(CompressionType::LZ4, &q),
        WriterPlan::LZ4 { level: 1, linked: true }
    );
}

#[test]
fn out_of_range_level_passes_through() {
    // Range validation belongs to the engine, not to this layer.
    let p = ParamSet::parse("level=999").unwrap();
    assert_eq!(
        writer_plan(CompressionType::Gzip, &p),
        WriterPlan::Gzip { level: 999 }
    );
}

#[test]
fn plan_ignores_unknown_params() {
    let p = ParamSet::parse("level=2;foo=bar").unwrap();
    assert_eq!(
        writer_plan(CompressionType::Zlib, &p),
        WriterPlan::Zlib { level: 2 }
    );
    assert_eq!(writer_plan(CompressionType::Snappy, &p), WriterPlan::Snappy);
    assert_eq!(
        writer_plan(CompressionType::Plain, &p),
        WriterPlan::Passthrough
    );
}
