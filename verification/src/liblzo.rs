//! The LZO writer adapter: per-write compression with a verified three-way
//! outcome protocol — forward the compressed bytes, fall back to the literal
//! payload when the engine deems it not compressible, or grow the scratch
//! budget and retry when the engine reports its output buffer too small.

use vstd::prelude::*;
use vstd::slice::slice_to_vec;
use crate::errors::StreamError;

verus! {

#[verifier::external_type_specification]
#[verifier::external_body]
pub struct ExLZOContext(rust_lzo::LZOContext);

/// Relies on `rust_lzo::LZOContext::new`: allocates the engine's working
/// memory.
pub assume_specification[ rust_lzo::LZOContext::new ]() -> rust_lzo::LZOContext;

/// The engine's possible answers to one compression call.
pub enum LzoOutcome {
    /// The input was compressed; the output holds the compressed form.
    Done,
    /// The engine deems the input not compressible; nothing usable was
    /// produced and the caller should forward the input verbatim.
    NotCompressible,
    /// The output buffer was too small; retry with a larger one.
    TooSmall,
    /// Any other engine error; fatal.
    Fail,
}

/// What the engine produces for `data` when a compression call succeeds: a
/// function of the input bytes alone.
pub uninterp spec fn lzo_compressed(data: Seq<u8>) -> Seq<u8>;

/// The ceiling on the adapter's scratch-buffer growth.
pub const SCRATCH_CEILING: usize = 1073741824;

/// Relies on `rust_lzo::LZOContext::compress` (LZO1X-1). The engine fills the
/// output vector's spare capacity from the start without growing it, so the
/// body allocates at least the caller's requested capacity and at least the
/// crate's documented worst-case bound `worst_compress`, which keeps the call
/// in bounds. The compressed form depends on the input bytes alone.
#[verifier::external_body]
fn compress_step(ctx: &mut rust_lzo::LZOContext, data: &[u8], cap: usize) -> (r: (
    LzoOutcome,
    Vec<u8>,
))
    requires
        data@.len() <= usize::MAX / 4,
    ensures
        r.0 is Done ==> r.1@ == lzo_compressed(data@),
{
    let worst = rust_lzo::worst_compress(data.len());
    let mut out = Vec::with_capacity(if cap > worst { cap } else { worst });
    let err = ctx.compress(data, &mut out);
    let outcome = match err {
        rust_lzo::LZOError::OK => LzoOutcome::Done,
        rust_lzo::LZOError::NOT_COMPRESSIBLE => LzoOutcome::NotCompressible,
        rust_lzo::LZOError::OUTPUT_OVERRUN => LzoOutcome::TooSmall,
        _ => LzoOutcome::Fail,
    };
    (outcome, out)
}

/// A writer adapter around the LZO engine over an in-memory sink.
///
/// Each write hands one payload to the engine and forwards either the
/// compressed form or, when the engine deems the payload not compressible,
/// the original bytes verbatim — round-tripping in that mode is delegated to
/// the codec's self-describing frame format. A too-small-buffer signal
/// doubles the scratch budget and retries, up to a ceiling. There is no
/// trailer, so teardown is a pure no-op.
pub struct LZOWrapperW {
    context: rust_lzo::LZOContext,
    scratch_cap: usize,
    writer: Vec<u8>,
}

impl LZOWrapperW {
    /// The scratch budget stays within its growth range.
    pub closed spec fn wf(&self) -> bool {
        1 <= self.scratch_cap <= SCRATCH_CEILING
    }

    /// The bytes forwarded to the sink so far.
    pub closed spec fn out(&self) -> Seq<u8> {
        self.writer@
    }

    /// Wrap an in-memory sink.
    pub fn new(w: Vec<u8>) -> (r: LZOWrapperW)
        ensures
            r.wf(),
            r.out() == w@,
    {
        LZOWrapperW { context: rust_lzo::LZOContext::new(), scratch_cap: 8192, writer: w }
    }

    /// Compress `data` and forward it to the sink: either its compressed
    /// form, or — when the engine deems it not compressible — the original
    /// bytes verbatim. Returns the number of bytes forwarded. On an error the
    /// sink is unchanged.
    pub fn write(&mut self, data: &[u8]) -> (r: Result<usize, StreamError>)
        requires
            old(self).wf(),
        ensures
            final(self).wf(),
            r matches Ok(n) ==> {
                ||| (final(self).out() == old(self).out() + lzo_compressed(data@) && n
                    == lzo_compressed(data@).len())
                ||| (final(self).out() == old(self).out() + data@ && n == data@.len())
            },
            r is Err ==> final(self).out() == old(self).out(),
    {
        if data.len() > usize::MAX / 4 {
            return Result::Err(StreamError::TooLarge);
        }
        let ghost sink0 = self.writer@;
        loop
            invariant
                self.wf(),
                self.writer@ == sink0,
                sink0 == old(self).out(),
                data@.len() <= usize::MAX / 4,
            decreases SCRATCH_CEILING - self.scratch_cap,
        {
            let (outcome, mut buf) = compress_step(&mut self.context, data, self.scratch_cap);
            match outcome {
                LzoOutcome::Done => {
                    let n = buf.len();
                    self.writer.append(&mut buf);
                    return Result::Ok(n);
                },
                LzoOutcome::NotCompressible => {
                    let mut literal = slice_to_vec(data);
                    let n = literal.len();
                    self.writer.append(&mut literal);
                    return Result::Ok(n);
                },
                LzoOutcome::TooSmall => {
                    if self.scratch_cap >= SCRATCH_CEILING {
                        return Result::Err(StreamError::TooLarge);
                    }
                    if self.scratch_cap > SCRATCH_CEILING / 2 {
                        self.scratch_cap = SCRATCH_CEILING;
                    } else {
                        self.scratch_cap = self.scratch_cap * 2;
                    }
                },
                LzoOutcome::Fail => {
                    return Result::Err(StreamError::Engine);
                },
            }
        }
    }

    /// Flushing forwards nothing: every write already reaches the sink.
    pub fn flush(&mut self) -> (r: Result<(), StreamError>)
        ensures
            *final(self) == *old(self),
            r is Ok,
    {
        Result::Ok(())
    }

    /// Hand back the sink. There is no trailer to write, so teardown changes
    /// nothing about the forwarded bytes.
    pub fn into_writer(self) -> (r: Vec<u8>)
        ensures
            r@ == self.out(),
    {
        self.writer
    }
}

} // verus!
