use vstd::prelude::*;

verus! {

/// The mathematical values of a sequence of samples.
pub open spec fn ints(s: Seq<i64>) -> Seq<int> {
    s.map_values(|x: i64| x as int)
}

/// The larger of two values; `b` wins only where it is strictly greater.
pub open spec fn max_int(a: int, b: int) -> int {
    if b > a {
        b
    } else {
        a
    }
}

/// The running maximum that starts at `acc` and takes in every value of `s`,
/// comparing signed values.
pub open spec fn peak_of(acc: int, s: Seq<int>) -> int
    decreases s.len(),
{
    if s.len() == 0 {
        acc
    } else {
        max_int(peak_of(acc, s.drop_last()), s.last())
    }
}

/// The `block` values of channel `c` in a region laid out as one block per
/// channel, in channel order.
pub open spec fn channel_block(data: Seq<int>, block: int, c: int) -> Seq<int> {
    data.subrange(c * block, c * block + block)
}

/// Each accumulator raised to the largest value of its channel's block.
pub open spec fn fold_peaks(peaks: Seq<int>, data: Seq<int>, block: int) -> Seq<int> {
    Seq::new(peaks.len(), |c: int| peak_of(peaks[c], channel_block(data, block, c)))
}

/// Folds a region of per-channel blocks, `block` values each, into the
/// running maxima `peaks`, one accumulator per channel.
pub fn fold_block_maxima(data: &[i64], block: usize, peaks: &mut Vec<i64>)
    requires
        data@.len() == old(peaks)@.len() * block,
    ensures
        final(peaks)@.len() == old(peaks)@.len(),
        ints(final(peaks)@) == fold_peaks(ints(old(peaks)@), ints(data@), block as int),
{
    let n: usize = peaks.len();
    let len: usize = data.len();
    let ghost d = ints(data@);
    let ghost p0 = ints(old(peaks)@);
    let mut c: usize = 0;
    let mut base: usize = 0;
    while c < n
        invariant
            n == peaks@.len(),
            n == old(peaks)@.len(),
            d == ints(data@),
            p0 == ints(old(peaks)@),
            data@.len() == n * block,
            len == data@.len(),
            p0.len() == n,
            c <= n,
            base == c * block,
            forall|i: int| 0 <= i < c ==> peaks@[i] as int == peak_of(p0[i], channel_block(d, block as int, i)),
            forall|i: int| c <= i < n ==> peaks@[i] == old(peaks)@[i],
        decreases n - c,
    {
        assert(base + block <= n * block) by (nonlinear_arith)
            requires
                base == c * block,
                c < n,
        ;
        let mut acc: i64 = peaks[c];
        let mut j: usize = 0;
        while j < block
            invariant
                n == peaks@.len(),
                d == ints(data@),
                p0 == ints(old(peaks)@),
                data@.len() == n * block,
                len == data@.len(),
                p0.len() == n,
                c < n,
                base + block <= n * block,
                j <= block,
                acc as int == peak_of(p0[c as int], d.subrange(base as int, base + j)),
            decreases block - j,
        {
            let v: i64 = data[base + j];
            assert(d.subrange(base as int, base + j + 1).drop_last() =~= d.subrange(base as int, base + j));
            if v > acc {
                acc = v;
            }
            j += 1;
        }
        assert(d.subrange(base as int, base + block) =~= channel_block(d, block as int, c as int));
        peaks.set(c, acc);
        assert((c + 1) * block == c * block + block) by (nonlinear_arith);
        base = base + block;
        c += 1;
    }
    assert(ints(peaks@) =~= fold_peaks(p0, d, block as int));
}

} // verus!
