use vstd::prelude::*;
use crate::peaks::{channel_block, fold_peaks, max_int, peak_of};


verus! {

/// A running maximum never ends below where it started.
pub proof fn lemma_peak_of_ge_start(acc: int, s: Seq<int>)
    ensures
        peak_of(acc, s) >= acc,
    decreases s.len(),
{
    if s.len() > 0 {
        lemma_peak_of_ge_start(acc, s.drop_last());
    }
}

/// A running maximum is at least every value it has taken in.
pub proof fn lemma_peak_of_ge_values(acc: int, s: Seq<int>)
    ensures
        forall|i: int| 0 <= i < s.len() ==> peak_of(acc, s) >= #[trigger] s[i],
    decreases s.len(),
{
    if s.len() > 0 {
        lemma_peak_of_ge_values(acc, s.drop_last());
        assert forall|i: int| 0 <= i < s.len() implies peak_of(acc, s) >= #[trigger] s[i] by {
            if i < s.len() - 1 {
                assert(s.drop_last()[i] == s[i]);
            }
        }
    }
}

/// Starting from a value no smaller than any value of `s`, the running
/// maximum stays at that value.
pub proof fn lemma_peak_of_dominated(acc: int, s: Seq<int>)
    requires
        forall|i: int| 0 <= i < s.len() ==> #[trigger] s[i] <= acc,
    ensures
        peak_of(acc, s) == acc,
    decreases s.len(),
{
    if s.len() > 0 {
        assert forall|i: int| 0 <= i < s.drop_last().len() implies #[trigger] s.drop_last()[i] <= acc by {
            assert(s.drop_last()[i] == s[i]);
        }
        lemma_peak_of_dominated(acc, s.drop_last());
    }
}

/// Folding a window never lowers an accumulator.
pub proof fn lemma_fold_monotone(peaks: Seq<int>, data: Seq<int>, block: int)
    ensures
        fold_peaks(peaks, data, block).len() == peaks.len(),
        forall|c: int| 0 <= c < peaks.len() ==> #[trigger] fold_peaks(peaks, data, block)[c] >= peaks[c],
{
    assert forall|c: int| 0 <= c < peaks.len() implies #[trigger] fold_peaks(peaks, data, block)[c] >= peaks[c] by {
        lemma_peak_of_ge_start(peaks[c], channel_block(data, block, c));
    }
}

/// A window of no frames leaves the accumulators exactly as they were.
pub proof fn lemma_fold_empty_window(peaks: Seq<int>, data: Seq<int>)
    ensures
        fold_peaks(peaks, data, 0) == peaks,
{
    assert forall|c: int| 0 <= c < peaks.len() implies #[trigger] fold_peaks(peaks, data, 0)[c] == peaks[c] by {
        assert(channel_block(data, 0, c).len() == 0);
    }
    assert(fold_peaks(peaks, data, 0) =~= peaks);
}

/// Folding the same region a second time changes nothing: the first fold
/// already holds every value of it.
pub proof fn lemma_fold_idempotent(peaks: Seq<int>, data: Seq<int>, block: int)
    ensures
        fold_peaks(fold_peaks(peaks, data, block), data, block) == fold_peaks(peaks, data, block),
{
    let once = fold_peaks(peaks, data, block);
    assert forall|c: int| 0 <= c < peaks.len() implies #[trigger] fold_peaks(once, data, block)[c] == once[c] by {
        let s = channel_block(data, block, c);
        lemma_peak_of_ge_values(peaks[c], s);
        lemma_peak_of_dominated(once[c], s);
    }
    assert(fold_peaks(once, data, block) =~= once);
}

/// Changing only the values in channel `j`'s block leaves the accumulator of
/// every other channel `i` as it would have been.
pub proof fn lemma_fold_channel_isolation(
    peaks: Seq<int>,
    data: Seq<int>,
    changed: Seq<int>,
    block: int,
    i: int,
    j: int,
)
    requires
        block >= 0,
        data.len() == peaks.len() * block,
        changed.len() == data.len(),
        0 <= i < peaks.len(),
        0 <= j < peaks.len(),
        i != j,
        forall|k: int|
            0 <= k < data.len() && !(j * block <= k < j * block + block) ==> #[trigger] changed[k]
                == data[k],
    ensures
        fold_peaks(peaks, changed, block)[i] == fold_peaks(peaks, data, block)[i],
{
    assert(i * block + block <= data.len()) by (nonlinear_arith)
        requires
            0 <= i < peaks.len(),
            block >= 0,
            data.len() == peaks.len() * block,
    ;
    assert(i * block >= 0) by (nonlinear_arith)
        requires
            i >= 0,
            block >= 0,
    ;
    assert(i * block + block <= j * block || j * block + block <= i * block) by (nonlinear_arith)
        requires
            i != j,
            block >= 0,
    ;
    assert(channel_block(changed, block, i) =~= channel_block(data, block, i));
}

/// A window of zero values leaves accumulators that are not negative exactly
/// as they were.
pub proof fn lemma_fold_zero_window(peaks: Seq<int>, data: Seq<int>, block: int)
    requires
        forall|k: int| 0 <= k < data.len() ==> #[trigger] data[k] == 0,
        forall|c: int| 0 <= c < peaks.len() ==> #[trigger] peaks[c] >= 0,
        block >= 0,
        data.len() == peaks.len() * block,
    ensures
        fold_peaks(peaks, data, block) == peaks,
{
    assert forall|c: int| 0 <= c < peaks.len() implies #[trigger] fold_peaks(peaks, data, block)[c] == peaks[c] by {
        assert(c * block + block <= data.len() && c * block >= 0) by (nonlinear_arith)
            requires
                0 <= c < peaks.len(),
                block >= 0,
                data.len() == peaks.len() * block,
        ;
        let s = channel_block(data, block, c);
        assert forall|m: int| 0 <= m < s.len() implies #[trigger] s[m] <= peaks[c] by {
            assert(s[m] == data[c * block + m]);
        }
        lemma_peak_of_dominated(peaks[c], s);
    }
    assert(fold_peaks(peaks, data, block) =~= peaks);
}

/// Every value of `s` multiplied by `k`.
pub open spec fn scaled(s: Seq<int>, k: int) -> Seq<int> {
    s.map_values(|x: int| k * x)
}

/// `n` accumulators at zero.
pub open spec fn zeros(n: nat) -> Seq<int> {
    Seq::new(n, |c: int| 0)
}

/// Scaling every value by a positive `k` scales the running maximum by `k`.
pub proof fn lemma_peak_of_scaled(acc: int, s: Seq<int>, k: int)
    requires
        k > 0,
    ensures
        peak_of(k * acc, scaled(s, k)) == k * peak_of(acc, s),
    decreases s.len(),
{
    if s.len() > 0 {
        assert(scaled(s, k).drop_last() =~= scaled(s.drop_last(), k));
        lemma_peak_of_scaled(acc, s.drop_last(), k);
        let a = peak_of(acc, s.drop_last());
        let x = s.last();
        assert(max_int(k * a, k * x) == k * max_int(a, x)) by (nonlinear_arith)
            requires
                k > 0,
        ;
    }
}

/// From accumulators at zero, scaling every value of a window by a positive
/// `k` scales each channel's peak by `k`.
pub proof fn lemma_fold_scaling(n: nat, data: Seq<int>, block: int, k: int)
    requires
        k > 0,
        block >= 0,
        data.len() == n * block,
    ensures
        fold_peaks(zeros(n), scaled(data, k), block) == scaled(fold_peaks(zeros(n), data, block), k),
{
    let lhs = fold_peaks(zeros(n), scaled(data, k), block);
    let rhs = scaled(fold_peaks(zeros(n), data, block), k);
    assert forall|c: int| 0 <= c < n implies #[trigger] lhs[c] == rhs[c] by {
        assert(c * block + block <= data.len() && c * block >= 0) by (nonlinear_arith)
            requires
                0 <= c < n,
                block >= 0,
                data.len() == n * block,
        ;
        assert(channel_block(scaled(data, k), block, c) =~= scaled(channel_block(data, block, c), k));
        lemma_peak_of_scaled(0, channel_block(data, block, c), k);
        assert(k * 0 == 0);
    }
    assert(lhs =~= rhs);
}

/// The accumulators after folding each window of `windows` in turn; a window
/// is its region of values and its block length.
pub open spec fn fold_windows(peaks: Seq<int>, windows: Seq<(Seq<int>, int)>) -> Seq<int>
    decreases windows.len(),
{
    if windows.len() == 0 {
        peaks
    } else {
        let last = windows.last();
        fold_peaks(fold_windows(peaks, windows.drop_last()), last.0, last.1)
    }
}

/// Over any sequence of windows, an accumulator after `later` calls is at
/// least what it was after `earlier` calls.
pub proof fn lemma_fold_windows_monotone(
    peaks: Seq<int>,
    windows: Seq<(Seq<int>, int)>,
    earlier: int,
    later: int,
)
    requires
        0 <= earlier <= later <= windows.len(),
    ensures
        fold_windows(peaks, windows.take(later)).len() == peaks.len(),
        forall|c: int|
            0 <= c < peaks.len() ==> #[trigger] fold_windows(peaks, windows.take(later))[c]
                >= fold_windows(peaks, windows.take(earlier))[c],
    decreases later - earlier,
{
    lemma_fold_windows_len(peaks, windows.take(later));
    if later > earlier {
        lemma_fold_windows_monotone(peaks, windows, earlier, later - 1);
        let before = windows.take(later - 1);
        assert(windows.take(later).drop_last() =~= before);
        let last = windows.take(later).last();
        lemma_fold_monotone(fold_windows(peaks, before), last.0, last.1);
    }
}

/// Folding windows keeps the number of accumulators.
pub proof fn lemma_fold_windows_len(peaks: Seq<int>, windows: Seq<(Seq<int>, int)>)
    ensures
        fold_windows(peaks, windows).len() == peaks.len(),
    decreases windows.len(),
{
    if windows.len() > 0 {
        lemma_fold_windows_len(peaks, windows.drop_last());
    }
}

} // verus!
