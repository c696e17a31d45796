//! The LZ4 writer adapter: two-phase finalization (encoder trailer, then
//! sink) performed exactly once, made safe by an ownership-transfer slot.

use vstd::prelude::*;
use crate::errors::StreamError;

verus! {

#[verifier::external_type_specification]
#[verifier::external_body]
#[verifier::reject_recursive_types(W)]
pub struct ExLz4Encoder<W>(lz4::Encoder<W>);

/// Relies on `lz4::EncoderBuilder`: configures the compression level, the
/// block mode, the always-enabled content checksum and auto-flush, and builds
/// a frame encoder that writes into the sink; `build` fails only when the
/// engine rejects its settings.
#[verifier::external_body]
fn build_encoder(sink: Vec<u8>, level: u32, linked: bool) -> (r: Result<
    lz4::Encoder<Vec<u8>>,
    StreamError,
>) {
    let mut builder = lz4::EncoderBuilder::new();
    builder.auto_flush(true);
    builder.block_mode(
        if linked {
            lz4::BlockMode::Linked
        } else {
            lz4::BlockMode::Independent
        },
    );
    builder.checksum(lz4::ContentChecksum::ChecksumEnabled);
    builder.level(level);
    match builder.build(sink) {
        Result::Ok(enc) => Result::Ok(enc),
        Result::Err(_) => Result::Err(StreamError::Engine),
    }
}

/// Relies on `lz4::Encoder`'s `std::io::Write` impl: on success the whole
/// input has been consumed and `Ok(input.len())` is returned; every engine
/// failure is mapped to `Engine`.
#[verifier::external_body]
fn encoder_write(enc: &mut lz4::Encoder<Vec<u8>>, data: &[u8]) -> (r: Result<usize, StreamError>)
    ensures
        r matches Ok(n) ==> n == data@.len(),
        r matches Err(e) ==> e == StreamError::Engine,
{
    match std::io::Write::write(enc, data) {
        Result::Ok(n) => Result::Ok(n),
        Result::Err(_) => Result::Err(StreamError::Engine),
    }
}

/// Relies on `lz4::Encoder`'s `std::io::Write::flush`: pushes pending
/// compressed bytes into the sink; every engine failure is mapped to
/// `Engine`.
#[verifier::external_body]
fn encoder_flush(enc: &mut lz4::Encoder<Vec<u8>>) -> (r: Result<(), StreamError>)
    ensures
        r matches Err(e) ==> e == StreamError::Engine,
{
    match std::io::Write::flush(enc) {
        Result::Ok(()) => Result::Ok(()),
        Result::Err(_) => Result::Err(StreamError::Engine),
    }
}

/// Relies on `lz4::Encoder::finish`: writes the frame trailer and returns
/// ownership of the sink; the boolean tells whether the trailer write
/// succeeded.
#[verifier::external_body]
fn encoder_finish(enc: lz4::Encoder<Vec<u8>>) -> (r: (Vec<u8>, bool)) {
    let (sink, result) = enc.finish();
    (sink, result.is_ok())
}

/// A writer adapter around an LZ4 frame encoder over an in-memory sink.
///
/// The encoder handle sits in an optional slot: finalization takes it out and
/// leaves the "already finalized" marker behind, so finalizing twice is a
/// no-op by construction and the frame trailer is written exactly once.
pub struct Lz4Wrapper {
    src: Option<lz4::Encoder<Vec<u8>>>,
}

impl Lz4Wrapper {
    /// The encoder has been taken out and the trailer written.
    pub closed spec fn is_finished(&self) -> bool {
        self.src is None
    }

    /// Wrap an already-built LZ4 frame encoder.
    pub fn new(enc: lz4::Encoder<Vec<u8>>) -> (r: Lz4Wrapper)
        ensures
            !r.is_finished(),
    {
        Lz4Wrapper { src: Option::Some(enc) }
    }

    /// Build an LZ4 frame encoder over `sink` and wrap it.
    pub fn create(sink: Vec<u8>, level: u32, linked: bool) -> (r: Result<Lz4Wrapper, StreamError>)
        ensures
            r matches Ok(w) ==> !w.is_finished(),
    {
        match build_encoder(sink, level, linked) {
            Result::Ok(enc) => Result::Ok(Lz4Wrapper::new(enc)),
            Result::Err(e) => Result::Err(e),
        }
    }

    /// Compress `data` into the sink. On a finalized adapter nothing happens
    /// and `Finished` is returned — and `Finished` arises only then; on
    /// success the whole input is consumed.
    pub fn write(&mut self, data: &[u8]) -> (r: Result<usize, StreamError>)
        ensures
            final(self).is_finished() == old(self).is_finished(),
            old(self).is_finished() <==> r == Result::<usize, StreamError>::Err(
                StreamError::Finished,
            ),
            old(self).is_finished() ==> *final(self) == *old(self),
            r matches Ok(n) ==> n == data@.len(),
    {
        match &mut self.src {
            Option::Some(enc) => encoder_write(enc, data),
            Option::None => Result::Err(StreamError::Finished),
        }
    }

    /// Flush pending compressed bytes into the sink. On a finalized adapter
    /// nothing happens and `Finished` is returned — and `Finished` arises
    /// only then.
    pub fn flush(&mut self) -> (r: Result<(), StreamError>)
        ensures
            final(self).is_finished() == old(self).is_finished(),
            old(self).is_finished() <==> r == Result::<(), StreamError>::Err(
                StreamError::Finished,
            ),
            old(self).is_finished() ==> *final(self) == *old(self),
    {
        match &mut self.src {
            Option::Some(enc) => encoder_flush(enc),
            Option::None => Result::Err(StreamError::Finished),
        }
    }

    /// Finalize: write the frame trailer and hand back the sink. The first
    /// call takes the encoder out of its slot; any later call finds the slot
    /// empty, changes nothing and returns nothing, so the trailer is written
    /// exactly once however often teardown runs. A trailer write failure is
    /// swallowed, as no caller is positioned to observe teardown errors.
    pub fn finish(&mut self) -> (r: Option<Vec<u8>>)
        ensures
            final(self).is_finished(),
            old(self).is_finished() ==> r is None && *final(self) == *old(self),
            !old(self).is_finished() ==> r is Some,
    {
        let slot = self.src.take();
        match slot {
            Option::Some(enc) => {
                let (sink, _trailer_ok) = encoder_finish(enc);
                Option::Some(sink)
            },
            Option::None => Option::None,
        }
    }
}

} // verus!
