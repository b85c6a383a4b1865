//! Test tones: the wave settings and the walk over one buffered period.

use vstd::prelude::*;

verus! {

/// The shape of a test tone.
pub enum WaveKind {
    Sine,
}

/// A test tone: its frequency, phase and shape.
pub struct WaveConfig {
    pub hz: usize,
    pub phase_hz: usize,
    pub kind: WaveKind,
}

/// Position in a tone made of one buffered period, repeated until the
/// total number of samples is played.
pub struct SampleCursor {
    pub buffer_samples: usize,
    pub sample_it: usize,
    pub samples_total: usize,
}

/// The number of samples in `length_millis` milliseconds at `sample_rate`
/// samples per second, truncated to `usize` as `as usize` does.
pub open spec fn total_samples_of(length_millis: u128, sample_rate: u32) -> usize {
    ((length_millis * sample_rate) / 1000) as u128 as usize
}

/// The number of samples to play (see `total_samples_of`).
pub fn total_samples(length_millis: u128, sample_rate: u32) -> (r: usize)
    requires
        length_millis <= u64::MAX as u128 * 1000 + 999,
    ensures
        r == total_samples_of(length_millis, sample_rate),
{
    assert(length_millis * sample_rate <= u128::MAX) by (nonlinear_arith)
        requires
            length_millis <= u64::MAX as u128 * 1000 + 999,
            sample_rate <= u32::MAX,
    ;
    ((length_millis * sample_rate as u128) / 1000) as usize
}

/// The cursor after one call of `next_index`: one sample further, until all
/// are played.
pub open spec fn cursor_step(c: SampleCursor) -> SampleCursor {
    if c.sample_it < c.samples_total {
        SampleCursor {
            buffer_samples: c.buffer_samples,
            sample_it: (c.sample_it + 1) as usize,
            samples_total: c.samples_total,
        }
    } else {
        c
    }
}

/// The cursor after `k` calls of `next_index`.
pub open spec fn cursor_after(c: SampleCursor, k: nat) -> SampleCursor
    decreases k,
{
    if k == 0 {
        c
    } else {
        cursor_step(cursor_after(c, (k - 1) as nat))
    }
}

/// The number of samples left, or `None` once all are played.
pub open spec fn frame_len(c: SampleCursor) -> Option<usize> {
    if c.sample_it < c.samples_total {
        Some((c.samples_total - c.sample_it) as usize)
    } else {
        None
    }
}

/// After `k` calls of `next_index` on a new cursor, `k` samples (at most all
/// of them) are played, and `current_frame_len` is the number still to come,
/// or `None` once none is left.
pub proof fn lemma_frame_len_after(buffer_samples: usize, samples_total: usize, k: nat)
    ensures
        cursor_after(SampleCursor { buffer_samples, sample_it: 0, samples_total }, k).sample_it
            == (if k < samples_total { k } else { samples_total as nat }),
        frame_len(cursor_after(SampleCursor { buffer_samples, sample_it: 0, samples_total }, k))
            == (if k < samples_total { Some((samples_total - k) as usize) } else { None }),
        cursor_after(SampleCursor { buffer_samples, sample_it: 0, samples_total }, k).buffer_samples
            == buffer_samples,
        cursor_after(SampleCursor { buffer_samples, sample_it: 0, samples_total }, k).samples_total
            == samples_total,
    decreases k,
{
    if k > 0 {
        lemma_frame_len_after(buffer_samples, samples_total, (k - 1) as nat);
    }
}

impl SampleCursor {
    /// A cursor at the first sample.
    pub fn new(buffer_samples: usize, samples_total: usize) -> (r: SampleCursor)
        ensures
            r.buffer_samples == buffer_samples,
            r.sample_it == 0,
            r.samples_total == samples_total,
    {
        SampleCursor { buffer_samples, sample_it: 0, samples_total }
    }

    /// The buffer index of the next sample, or `None` once all samples are played.
    pub fn next_index(&mut self) -> (r: Option<usize>)
        requires
            old(self).sample_it < old(self).samples_total ==> old(self).buffer_samples > 0,
        ensures
            *final(self) == cursor_step(*old(self)),
            final(self).buffer_samples == old(self).buffer_samples,
            final(self).samples_total == old(self).samples_total,
            old(self).sample_it < old(self).samples_total ==> r == Some(
                (old(self).sample_it % old(self).buffer_samples) as usize,
            ) && final(self).sample_it == old(self).sample_it + 1,
            old(self).sample_it >= old(self).samples_total ==> r is None && final(self).sample_it
                == old(self).sample_it,
    {
        if self.sample_it < self.samples_total {
            let buf_idx = self.sample_it % self.buffer_samples;
            self.sample_it = self.sample_it + 1;
            Some(buf_idx)
        } else {
            None
        }
    }

    /// The number of samples left, or `None` once all are played.
    pub fn current_frame_len(&self) -> (r: Option<usize>)
        ensures
            r == frame_len(*self),
            self.sample_it < self.samples_total ==> r == Some(
                (self.samples_total - self.sample_it) as usize,
            ),
            self.sample_it >= self.samples_total ==> r is None,
    {
        if self.sample_it < self.samples_total {
            Some(self.samples_total - self.sample_it)
        } else {
            None
        }
    }
}

} // verus!
