use vstd::prelude::*;
use crate::laws::{lemma_fold_empty_window, lemma_fold_monotone};
use crate::peaks::{fold_block_maxima, fold_peaks, ints};

verus! {

/// Rates from this one upward are oversampled twice rather than four times.
pub const TWO_TIMES_FROM: u32 = 96_000;

/// Rates from this one upward are not supported.
pub const UNSUPPORTED_FROM: u32 = 192_000;

/// Filter length of the interpolator, for both tiers.
pub const INTERPOLATOR_TAPS: usize = 49;

/// Number of 100 ms spans the scratch region is sized for: one window may
/// cover up to 400 ms of signal.
pub const WINDOWS_OF_100MS: u64 = 4;

/// Frames in 100 ms at `rate`, rounded to the nearest integer.
pub open spec fn samples_in_100ms(rate: int) -> int {
    (rate + 5) / 10
}

/// The oversampling factor chosen for a supported rate.
pub open spec fn factor_for_rate(rate: int) -> int {
    if rate < TWO_TIMES_FROM as int {
        4
    } else {
        2
    }
}

/// Number of oversampled values the scratch region holds.
pub open spec fn scratch_len_for(rate: int, channels: int) -> int {
    WINDOWS_OF_100MS as int * samples_in_100ms(rate) * channels * factor_for_rate(rate)
}

/// Configuration of a true-peak detector: rate, channel count, oversampling
/// factor and the size of the scratch region, all fixed at construction.
pub struct TruePeak {
    rate: u32,
    channels: u32,
    factor: usize,
    scratch_len: u64,
}

impl TruePeak {
    pub closed spec fn spec_rate(&self) -> int {
        self.rate as int
    }

    pub closed spec fn spec_channels(&self) -> int {
        self.channels as int
    }

    pub closed spec fn spec_factor(&self) -> int {
        self.factor as int
    }

    pub closed spec fn spec_scratch_len(&self) -> int {
        self.scratch_len as int
    }

    /// The fields agree with each other as construction sets them.
    pub closed spec fn wf(&self) -> bool {
        &&& self.channels >= 1
        &&& self.rate < UNSUPPORTED_FROM
        &&& self.factor as int == factor_for_rate(self.rate as int)
        &&& self.scratch_len as int == scratch_len_for(self.rate as int, self.channels as int)
    }

    /// Configures a detector for `rate` Hz and `channels` channels: 4x
    /// oversampling below 96 kHz, 2x below 192 kHz, none from there on.
    pub fn new(rate: u32, channels: u32) -> (r: Option<TruePeak>)
        requires
            channels >= 1,
        ensures
            r.is_none() <==> rate >= UNSUPPORTED_FROM,
            r matches Some(tp) ==> {
                &&& tp.wf()
                &&& tp.spec_rate() == rate
                &&& tp.spec_channels() == channels
                &&& tp.spec_factor() == factor_for_rate(rate as int)
                &&& (rate < TWO_TIMES_FROM ==> tp.spec_factor() == 4)
                &&& (rate >= TWO_TIMES_FROM ==> tp.spec_factor() == 2)
                &&& tp.spec_scratch_len() == scratch_len_for(rate as int, channels as int)
            },
    {
        if rate >= UNSUPPORTED_FROM {
            return None;
        }
        let factor: u64 = if rate < TWO_TIMES_FROM {
            4
        } else {
            2
        };
        let per_100ms: u64 = ((rate + 5) / 10) as u64;
        assert(per_100ms <= 19_200);
        let frames: u64 = WINDOWS_OF_100MS * per_100ms;
        assert(frames * (channels as u64) <= 76_800 * 0xffff_ffffu64) by (nonlinear_arith)
            requires
                frames <= 76_800,
                channels <= 0xffff_ffffu64,
        ;
        let input_len: u64 = frames * channels as u64;
        assert(input_len * factor <= 4 * 76_800 * 0xffff_ffffu64) by (nonlinear_arith)
            requires
                input_len <= 76_800 * 0xffff_ffffu64,
                factor <= 4,
        ;
        let scratch_len: u64 = input_len * factor;
        Some(TruePeak { rate, channels, factor: factor as usize, scratch_len })
    }

    /// Whether a window of `frames` frames from `src_index` on, in a planar
    /// source of `src_len` values, can be processed with `peaks_len`
    /// accumulators: the window lies within one channel's segment, the
    /// segment oversampled fits the scratch region, and so does the
    /// oversampled window of every channel.
    pub open spec fn window_fits(&self, src_len: int, src_index: int, frames: int, peaks_len: int) -> bool {
        let stride = src_len / self.spec_channels();
        &&& src_index + frames <= stride
        &&& stride * self.spec_factor() <= self.spec_scratch_len()
        &&& frames * self.spec_channels() * self.spec_factor() <= self.spec_scratch_len()
        &&& frames * self.spec_channels() * self.spec_factor() <= usize::MAX
        &&& peaks_len == self.spec_channels()
    }

    /// Checks a window as [`TruePeak::window_fits`] describes it, and gives
    /// the number of oversampled values the interpolator writes for it.
    pub fn window_len(&self, src_len: usize, src_index: usize, frames: usize, peaks_len: usize) -> (r: Option<usize>)
        requires
            self.wf(),
        ensures
            r.is_some() <==> self.window_fits(src_len as int, src_index as int, frames as int, peaks_len as int),
            r matches Some(w) ==> w == frames * self.spec_channels() * self.spec_factor(),
    {
        let channels: usize = self.channels as usize;
        let stride: usize = src_len / channels;
        if src_index > stride || frames > stride - src_index {
            return None;
        }
        assert(stride * self.factor <= 0xffff_ffff_ffff_ffffu128 * 4) by (nonlinear_arith)
            requires
                stride <= 0xffff_ffff_ffff_ffffu128,
                self.factor <= 4,
        ;
        if stride as u128 * self.factor as u128 > self.scratch_len as u128 {
            return None;
        }
        assert(frames * channels * self.factor <= 0xffff_ffff_ffff_ffffu128 * 0xffff_ffffu128 * 4) by (nonlinear_arith)
            requires
                frames <= 0xffff_ffff_ffff_ffffu128,
                channels <= 0xffff_ffffu128,
                self.factor <= 4,
        ;
        assert(frames * channels <= 0xffff_ffff_ffff_ffffu128 * 0xffff_ffffu128) by (nonlinear_arith)
            requires
                frames <= 0xffff_ffff_ffff_ffffu128,
                channels <= 0xffff_ffffu128,
        ;
        let written: u128 = frames as u128 * channels as u128 * self.factor as u128;
        if written > self.scratch_len as u128 || written > usize::MAX as u128 {
            return None;
        }
        if peaks_len != channels {
            return None;
        }
        Some(written as usize)
    }

    /// Folds one oversampled window into the per-channel running maxima.
    ///
    /// `oversampled` is what the interpolator wrote for a window of `frames`
    /// frames: one block of `frames * factor` values per channel, in channel
    /// order. Each accumulator is raised to the largest value of its
    /// channel's block, compared as signed values; none is ever lowered.
    pub fn process(&self, frames: usize, oversampled: &[i64], peaks: &mut Vec<i64>)
        requires
            self.wf(),
            old(peaks)@.len() == self.spec_channels(),
            oversampled@.len() == frames * self.spec_channels() * self.spec_factor(),
            oversampled@.len() <= self.spec_scratch_len(),
        ensures
            final(peaks)@.len() == old(peaks)@.len(),
            ints(final(peaks)@) == fold_peaks(
                ints(old(peaks)@),
                ints(oversampled@),
                frames * self.spec_factor(),
            ),
            frames == 0 ==> final(peaks)@ == old(peaks)@,
            forall|c: int| 0 <= c < old(peaks)@.len() ==> #[trigger] final(peaks)@[c] >= old(peaks)@[c],
    {
        proof {
            lemma_fold_monotone(ints(old(peaks)@), ints(oversampled@), frames * self.spec_factor());
        }
        if frames == 0 {
            proof {
                lemma_fold_empty_window(ints(old(peaks)@), ints(oversampled@));
            }
            return;
        }
        let channels: usize = self.channels as usize;
        let total: usize = oversampled.len();
        assert(frames * self.factor <= total && total == channels * (frames * self.factor)) by (nonlinear_arith)
            requires
                channels >= 1,
                total == frames * channels * self.factor,
        ;
        let block: usize = frames * self.factor;
        fold_block_maxima(oversampled, block, peaks);
        proof {
            assert forall|c: int| 0 <= c < old(peaks)@.len() implies #[trigger] peaks@[c] >= old(peaks)@[c] by {
                assert(ints(peaks@)[c] >= ints(old(peaks)@)[c]);
            }
        }
    }

    pub fn rate(&self) -> (r: u32)
        ensures
            r == self.spec_rate(),
    {
        self.rate
    }

    pub fn channels(&self) -> (r: u32)
        ensures
            r == self.spec_channels(),
    {
        self.channels
    }

    pub fn factor(&self) -> (r: usize)
        ensures
            r == self.spec_factor(),
    {
        self.factor
    }

    /// Filter length of the interpolator this detector is paired with.
    pub fn taps(&self) -> (r: usize)
        ensures
            r == INTERPOLATOR_TAPS,
    {
        INTERPOLATOR_TAPS
    }

    pub fn scratch_len(&self) -> (r: u64)
        ensures
            r == self.spec_scratch_len(),
    {
        self.scratch_len
    }
}

} // verus!
