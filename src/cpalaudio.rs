//! Sizing and errors of the audio device's buffer.
use vstd::prelude::*;

verus! {

/// Ways in which the audio device fails a session.
#[derive(PartialEq, Eq, Structural, Clone, Copy, Debug)]
pub enum AudioOutputError {
    OpenStreamError,
    PlayStreamError,
    StreamClosedError,
}

/// How long the device's ring buffer holds, in milliseconds.
pub const RING_BUFFER_MS: u64 = 200;

/// The number of samples in a ring buffer that holds `RING_BUFFER_MS` of
/// interleaved audio at `sample_rate` frames per second over `channels`.
pub fn ring_buffer_len(sample_rate: u32, channels: u32) -> (r: u64)
    ensures
        r == (RING_BUFFER_MS * sample_rate / 1000) * channels,
{
    let frames: u64 = RING_BUFFER_MS * sample_rate as u64 / 1000;
    assert(frames <= u32::MAX) by (nonlinear_arith)
        requires
            frames == 200 * sample_rate / 1000,
            sample_rate <= u32::MAX,
    ;
    proof {
        vstd::arithmetic::mul::lemma_mul_upper_bound(frames as int, u32::MAX as int, channels as int, u32::MAX as int);
    }
    frames * channels as u64
}

} // verus!
