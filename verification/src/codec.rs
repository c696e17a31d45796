//! The codec registry: case-insensitive, alias-tolerant resolution of codec
//! identifiers, and the dispatch from a codec plus a parameter set to the
//! settings its writer adapter is built with.

use vstd::prelude::*;
use crate::errors::ConfigError;
use crate::params::{get_string_spec, get_u32_spec, ParamSet};
use crate::text::{lower_seq, str_eq, str_eq_ignore_case};

verus! {

/// The closed set of supported compression codecs.
#[derive(Clone, Copy, Debug, PartialEq, Eq, Structural)]
pub enum CompressionType {
    /// No compression: bytes pass through unchanged.
    Plain,
    /// Zstandard. Parameter: `level` (1-22, default 3).
    Zstd,
    /// Snappy frame format. All parameters are ignored.
    Snappy,
    /// Gzip. Parameter: `level` (0-9, default 3).
    Gzip,
    /// Zlib. Parameter: `level` (0-9, default 3).
    Zlib,
    /// Raw deflate. Parameter: `level` (0-9, default 3).
    Deflate,
    /// Bzip2. Parameter: `level` (1-9, default 3).
    Bzip2,
    /// LZ4 frame format. Parameters: `level` (0-16, default 1) and
    /// `block_mode` (`linked` or `independent`, default `linked`).
    LZ4,
    /// XZ. Parameter: `level` (0-9, default 6).
    XZ,
}

/// The codec a (case-insensitively lowered) identifier resolves to.
pub open spec fn codec_of_name(s: Seq<char>) -> Option<CompressionType> {
    let l = lower_seq(s);
    if l == seq!['z', 's', 't', 'd'] || l == seq!['z', 's', 't'] {
        Option::Some(CompressionType::Zstd)
    } else if l == seq!['g', 'z', 'i', 'p'] || l == seq!['g', 'z'] {
        Option::Some(CompressionType::Gzip)
    } else if l == seq!['l', 'z', '4'] {
        Option::Some(CompressionType::LZ4)
    } else if l == seq!['s', 'n', 'a', 'p', 'p', 'y'] {
        Option::Some(CompressionType::Snappy)
    } else if l == seq!['x', 'z'] {
        Option::Some(CompressionType::XZ)
    } else if l == seq!['z', 'l', 'i', 'b'] {
        Option::Some(CompressionType::Zlib)
    } else if l == seq!['b', 'z', 'i', 'p', '2'] || l == seq!['b', 'z', '2'] {
        Option::Some(CompressionType::Bzip2)
    } else if l == seq!['d', 'e', 'f', 'l', 'a', 't', 'e'] {
        Option::Some(CompressionType::Deflate)
    } else {
        Option::None
    }
}

impl CompressionType {
    /// Resolve a free-form codec identifier, case-insensitively and with
    /// aliases (`"gz"`, `"GZIP"`, `"Gzip"` all name gzip). An identifier
    /// outside the recognized set is a fatal configuration error.
    pub fn from_name(name: &str) -> (r: Result<CompressionType, ConfigError>)
        ensures
            r matches Ok(c) ==> codec_of_name(name@) == Some(c),
            r is Err ==> codec_of_name(name@) is None,
            r matches Err(e) ==> e == ConfigError::UnknownCodec,
    {
        proof {
            reveal_strlit("zstd");
            reveal_strlit("zst");
            reveal_strlit("gzip");
            reveal_strlit("gz");
            reveal_strlit("lz4");
            reveal_strlit("snappy");
            reveal_strlit("xz");
            reveal_strlit("zlib");
            reveal_strlit("bzip2");
            reveal_strlit("bz2");
            reveal_strlit("deflate");
            assert(lower_seq("zstd"@) =~= seq!['z', 's', 't', 'd']);
            assert(lower_seq("zst"@) =~= seq!['z', 's', 't']);
            assert(lower_seq("gzip"@) =~= seq!['g', 'z', 'i', 'p']);
            assert(lower_seq("gz"@) =~= seq!['g', 'z']);
            assert(lower_seq("lz4"@) =~= seq!['l', 'z', '4']);
            assert(lower_seq("snappy"@) =~= seq!['s', 'n', 'a', 'p', 'p', 'y']);
            assert(lower_seq("xz"@) =~= seq!['x', 'z']);
            assert(lower_seq("zlib"@) =~= seq!['z', 'l', 'i', 'b']);
            assert(lower_seq("bzip2"@) =~= seq!['b', 'z', 'i', 'p', '2']);
            assert(lower_seq("bz2"@) =~= seq!['b', 'z', '2']);
            assert(lower_seq("deflate"@) =~= seq!['d', 'e', 'f', 'l', 'a', 't', 'e']);
        }
        if str_eq_ignore_case(name, "zstd") || str_eq_ignore_case(name, "zst") {
            Result::Ok(CompressionType::Zstd)
        } else if str_eq_ignore_case(name, "gzip") || str_eq_ignore_case(name, "gz") {
            Result::Ok(CompressionType::Gzip)
        } else if str_eq_ignore_case(name, "lz4") {
            Result::Ok(CompressionType::LZ4)
        } else if str_eq_ignore_case(name, "snappy") {
            Result::Ok(CompressionType::Snappy)
        } else if str_eq_ignore_case(name, "xz") {
            Result::Ok(CompressionType::XZ)
        } else if str_eq_ignore_case(name, "zlib") {
            Result::Ok(CompressionType::Zlib)
        } else if str_eq_ignore_case(name, "bzip2") || str_eq_ignore_case(name, "bz2") {
            Result::Ok(CompressionType::Bzip2)
        } else if str_eq_ignore_case(name, "deflate") {
            Result::Ok(CompressionType::Deflate)
        } else {
            Result::Err(ConfigError::UnknownCodec)
        }
    }
}

/// Codec identifiers resolve up to ASCII case: identifiers with the same
/// lowered form name the same codec.
pub proof fn lemma_name_case_insensitive(a: Seq<char>, b: Seq<char>)
    requires
        lower_seq(a) == lower_seq(b),
    ensures
        codec_of_name(a) == codec_of_name(b),
{
}

/// The parameter name `level`.
pub open spec fn level_key() -> Seq<char> {
    seq!['l', 'e', 'v', 'e', 'l']
}

/// The parameter name `block_mode`.
pub open spec fn block_mode_key() -> Seq<char> {
    seq!['b', 'l', 'o', 'c', 'k', '_', 'm', 'o', 'd', 'e']
}

/// The `block_mode` value `independent`.
pub open spec fn independent_value() -> Seq<char> {
    seq!['i', 'n', 'd', 'e', 'p', 'e', 'n', 'd', 'e', 'n', 't']
}

/// The `block_mode` value `linked`.
pub open spec fn linked_value() -> Seq<char> {
    seq!['l', 'i', 'n', 'k', 'e', 'd']
}

/// The settings a writer adapter is built with, resolved from a codec and a
/// parameter set. Each codec reads only the parameters relevant to it.
#[derive(Clone, Copy, Debug, PartialEq, Eq, Structural)]
pub enum WriterPlan {
    /// Pass bytes through unchanged.
    Passthrough,
    /// Zstandard at the given level.
    Zstd { level: u32 },
    /// Snappy frame format; no settings.
    Snappy,
    /// Gzip at the given level.
    Gzip { level: u32 },
    /// Zlib at the given level.
    Zlib { level: u32 },
    /// Raw deflate at the given level.
    Deflate { level: u32 },
    /// Bzip2 at the given level.
    Bzip2 { level: u32 },
    /// LZ4 at the given level, with linked or independent blocks; auto-flush
    /// and the content checksum are always enabled.
    LZ4 { level: u32, linked: bool },
    /// XZ at the given level.
    XZ { level: u32 },
}

/// The settings resolved for `c` from the parameter map `m`: `level` read
/// with the codec's documented default (zstd 3, gzip/zlib/deflate 3, bzip2 3,
/// lz4 1, xz 6), and for LZ4 a `block_mode` of anything but `independent`
/// falling back to linked blocks.
pub open spec fn plan_spec(c: CompressionType, m: Map<Seq<char>, Seq<char>>) -> WriterPlan {
    match c {
        CompressionType::Plain => WriterPlan::Passthrough,
        CompressionType::Zstd => WriterPlan::Zstd { level: get_u32_spec(m, level_key(), 3) },
        CompressionType::Snappy => WriterPlan::Snappy,
        CompressionType::Gzip => WriterPlan::Gzip { level: get_u32_spec(m, level_key(), 3) },
        CompressionType::Zlib => WriterPlan::Zlib { level: get_u32_spec(m, level_key(), 3) },
        CompressionType::Deflate => WriterPlan::Deflate {
            level: get_u32_spec(m, level_key(), 3),
        },
        CompressionType::Bzip2 => WriterPlan::Bzip2 { level: get_u32_spec(m, level_key(), 3) },
        CompressionType::LZ4 => WriterPlan::LZ4 {
            level: get_u32_spec(m, level_key(), 1),
            linked: get_string_spec(m, block_mode_key(), linked_value()) != independent_value(),
        },
        CompressionType::XZ => WriterPlan::XZ { level: get_u32_spec(m, level_key(), 6) },
    }
}

/// The decimal spelling of the codec's documented default `level`.
pub open spec fn default_level_text(c: CompressionType) -> Seq<char> {
    match c {
        CompressionType::LZ4 => seq!['1'],
        CompressionType::XZ => seq!['6'],
        _ => seq!['3'],
    }
}

/// The parameter-default law for `level`: omitting it resolves to the same
/// writer settings as spelling out the codec's documented default.
pub proof fn lemma_level_default(c: CompressionType, m: Map<Seq<char>, Seq<char>>)
    requires
        !m.contains_key(level_key()),
    ensures
        plan_spec(c, m) == plan_spec(c, m.insert(level_key(), default_level_text(c))),
{
    let d = default_level_text(c);
    assert(d.drop_last() =~= Seq::<char>::empty());
    assert(crate::text::dec_val(Seq::<char>::empty()) == 0);
    assert(crate::text::dec_val(d) == d[0] as u32 - 48);
    assert(level_key() != block_mode_key());
}

/// The parameter-default law for `block_mode`: omitting it resolves to the
/// same writer settings as spelling out its default, `linked`.
pub proof fn lemma_block_mode_default(c: CompressionType, m: Map<Seq<char>, Seq<char>>)
    requires
        !m.contains_key(block_mode_key()),
    ensures
        plan_spec(c, m) == plan_spec(c, m.insert(block_mode_key(), linked_value())),
{
    assert(level_key() != block_mode_key());
    assert(linked_value() != independent_value());
}

/// Resolve the writer settings for `compression_type` from `params`.
/// Parameters of other codecs are ignored, never errors; out-of-range levels
/// are passed through to the engine, whose own failure surfaces later.
pub fn writer_plan(compression_type: CompressionType, params: &ParamSet) -> (r: WriterPlan)
    ensures
        r == plan_spec(compression_type, params@),
{
    proof {
        reveal_strlit("level");
        reveal_strlit("block_mode");
        reveal_strlit("linked");
        reveal_strlit("independent");
        assert("level"@ =~= level_key());
        assert("block_mode"@ =~= block_mode_key());
        assert("linked"@ =~= linked_value());
        assert("independent"@ =~= independent_value());
    }
    match compression_type {
        CompressionType::Plain => WriterPlan::Passthrough,
        CompressionType::Zstd => WriterPlan::Zstd { level: params.get_parse("level", 3) },
        CompressionType::Snappy => WriterPlan::Snappy,
        CompressionType::Gzip => WriterPlan::Gzip { level: params.get_parse("level", 3) },
        CompressionType::Zlib => WriterPlan::Zlib { level: params.get_parse("level", 3) },
        CompressionType::Deflate => WriterPlan::Deflate { level: params.get_parse("level", 3) },
        CompressionType::Bzip2 => WriterPlan::Bzip2 { level: params.get_parse("level", 3) },
        CompressionType::LZ4 => {
            let block_mode = params.get_string("block_mode", "linked");
            let linked = !str_eq(block_mode, "independent");
            WriterPlan::LZ4 { level: params.get_parse("level", 1), linked }
        },
        CompressionType::XZ => WriterPlan::XZ { level: params.get_parse("level", 6) },
    }
}

} // verus!
