//! Sizing the output of a resampler that writes whole frames.
use vstd::prelude::*;

verus! {

/// The number of samples that holds `frames` samples in whole frames of
/// `frame_size`: `frames` rounded up to the nearest multiple of
/// `frame_size`.
pub fn round_up_to_frames(frames: usize, frame_size: usize) -> (n: usize)
    requires
        frame_size > 0,
        frames + frame_size <= usize::MAX,
    ensures
        n % frame_size == 0,
        frames <= n < frames + frame_size,
{
    // find the next multiple of frame_size that is no less than frames
    let remainder = frames % frame_size;
    if remainder == 0 {
        frames
    } else {
        let n = frames + frame_size - remainder;
        assert(n % frame_size == 0) by (nonlinear_arith)
            requires
                frame_size > 0,
                remainder == frames % frame_size,
                n == frames + frame_size - remainder,
        ;
        n
    }
}

} // verus!
