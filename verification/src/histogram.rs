//! Per-channel intensity histograms of a pixel buffer.

use vstd::prelude::*;

use crate::buffer::PixelBuffer;

verus! {

/// Number of pixels among the first `n` (in raster order) whose channel `c`
/// holds the value `v`, in a byte sequence laid out `channels` bytes per
/// pixel.
pub open spec fn count_value(data: Seq<u8>, channels: int, c: int, v: u8, n: int) -> int
    decreases n,
{
    if n <= 0 {
        0
    } else {
        count_value(data, channels, c, v, n - 1) + if data[(n - 1) * channels + c] == v {
            1int
        } else {
            0int
        }
    }
}

/// The histogram entry that a buffer determines: how many of its pixels hold
/// the value `v` on channel `c`.
pub open spec fn spec_histogram_entry(buf: PixelBuffer, c: int, v: u8) -> int {
    count_value(buf.spec_data(), buf.spec_channels() as int, c, v, buf.spec_pixel_count())
}

/// Sum of all entries of a frequency table.
pub open spec fn table_sum(s: Seq<u32>) -> int
    decreases s.len(),
{
    if s.len() == 0 {
        0
    } else {
        table_sum(s.drop_last()) + s.last()
    }
}

/// Sum of `count_value` over all values below `vmax`.
pub open spec fn count_values_below(data: Seq<u8>, channels: int, c: int, vmax: int, n: int) -> int
    decreases vmax,
{
    if vmax <= 0 {
        0
    } else {
        count_values_below(data, channels, c, vmax - 1, n) + count_value(
            data,
            channels,
            c,
            (vmax - 1) as u8,
            n,
        )
    }
}

/// A per-value count never exceeds the number of pixels it was taken over.
pub proof fn lemma_count_value_le(data: Seq<u8>, channels: int, c: int, v: u8, n: int)
    requires
        n >= 0,
    ensures
        0 <= count_value(data, channels, c, v, n) <= n,
    decreases n,
{
    if n > 0 {
        lemma_count_value_le(data, channels, c, v, n - 1);
    }
}

proof fn lemma_count_values_below_empty(data: Seq<u8>, channels: int, c: int, vmax: int)
    ensures
        count_values_below(data, channels, c, vmax, 0) == 0,
    decreases vmax,
{
    if vmax > 0 {
        lemma_count_values_below_empty(data, channels, c, vmax - 1);
    }
}

proof fn lemma_count_values_below_step(data: Seq<u8>, channels: int, c: int, vmax: int, n: int)
    requires
        n >= 1,
        0 <= vmax <= 256,
    ensures
        count_values_below(data, channels, c, vmax, n) == count_values_below(
            data,
            channels,
            c,
            vmax,
            n - 1,
        ) + if (data[(n - 1) * channels + c] as int) < vmax {
            1int
        } else {
            0int
        },
    decreases vmax,
{
    if vmax > 0 {
        lemma_count_values_below_step(data, channels, c, vmax - 1, n);
        let d = data[(n - 1) * channels + c];
        assert(d == (vmax - 1) as u8 <==> d as int == vmax - 1);
    }
}

/// Every pixel contributes to exactly one of the 256 per-value counts, so
/// over all 256 values the counts sum to the number of pixels.
pub proof fn lemma_count_values_total(data: Seq<u8>, channels: int, c: int, n: int)
    requires
        n >= 0,
    ensures
        count_values_below(data, channels, c, 256, n) == n,
    decreases n,
{
    if n == 0 {
        lemma_count_values_below_empty(data, channels, c, 256);
    } else {
        lemma_count_values_total(data, channels, c, n - 1);
        lemma_count_values_below_step(data, channels, c, 256, n);
    }
}

/// A table whose entries are the per-value counts sums to the sum of those
/// counts.
proof fn lemma_table_sum_matches(s: Seq<u32>, data: Seq<u8>, channels: int, c: int, n: int)
    requires
        s.len() <= 256,
        forall|v: int| 0 <= v < s.len() ==> s[v] == count_value(data, channels, c, v as u8, n),
    ensures
        table_sum(s) == count_values_below(data, channels, c, s.len() as int, n),
    decreases s.len(),
{
    if s.len() > 0 {
        let t = s.drop_last();
        assert(forall|v: int|
            0 <= v < t.len() ==> t[v] == count_value(data, channels, c, v as u8, n));
        lemma_table_sum_matches(t, data, channels, c, n);
        assert(s.last() == s[s.len() - 1]);
    }
}

/// The histogram of given pixel data is unique: any two histogram sets whose
/// entries both record the per-value pixel counts of the same data are equal.
/// In particular, two runs of the computation over one unchanged buffer give
/// identical tables.
pub proof fn lemma_histograms_deterministic(
    h1: Seq<Seq<u32>>,
    h2: Seq<Seq<u32>>,
    data: Seq<u8>,
    channels: int,
    n: int,
)
    requires
        h1.len() == channels,
        h2.len() == channels,
        forall|c: int| 0 <= c < channels ==> #[trigger] h1[c].len() == 256,
        forall|c: int| 0 <= c < channels ==> #[trigger] h2[c].len() == 256,
        forall|c: int, v: int|
            0 <= c < channels && 0 <= v < 256 ==> #[trigger] h1[c][v] == count_value(
                data,
                channels,
                c,
                v as u8,
                n,
            ),
        forall|c: int, v: int|
            0 <= c < channels && 0 <= v < 256 ==> #[trigger] h2[c][v] == count_value(
                data,
                channels,
                c,
                v as u8,
                n,
            ),
    ensures
        h1 == h2,
{
    assert forall|c: int| 0 <= c < channels implies h1[c] =~= h2[c] by {
        assert(forall|v: int| 0 <= v < 256 ==> h1[c][v] == h2[c][v]);
    }
    assert(h1 =~~= h2);
}

/// Computes one frequency table per channel of the buffer: entry `v` of
/// table `c` is the number of pixels whose channel `c` holds the value `v`.
/// Every table has 256 entries, sums to the buffer's pixel count, and no
/// entry exceeds that count.
pub fn compute_histograms(buf: &PixelBuffer) -> (r: Vec<Vec<u32>>)
    requires
        buf.well_formed(),
    ensures
        r@.len() == buf.spec_channels(),
        forall|c: int| 0 <= c < r@.len() ==> (#[trigger] r@[c])@.len() == 256,
        forall|c: int, v: int|
            0 <= c < r@.len() && 0 <= v < 256 ==> (#[trigger] r@[c]@[v]) == spec_histogram_entry(
                *buf,
                c,
                v as u8,
            ),
        forall|c: int| 0 <= c < r@.len() ==> table_sum((#[trigger] r@[c])@) == buf.spec_pixel_count(),
        forall|c: int, v: int|
            0 <= c < r@.len() && 0 <= v < 256 ==> (#[trigger] r@[c]@[v]) <= buf.spec_pixel_count(),
{
    let ghost data = buf.spec_data();
    let ghost chs: int = buf.spec_channels() as int;
    let channels: usize = buf.channels() as usize;
    let n: usize = buf.pixel_count() as usize;
    let mut tables: Vec<Vec<u32>> = Vec::new();
    let mut c: usize = 0;
    while c < channels
        invariant
            buf.well_formed(),
            data == buf.spec_data(),
            chs == buf.spec_channels() as int,
            channels == chs,
            n == buf.spec_pixel_count(),
            c <= channels,
            tables@.len() == c,
            forall|i: int| 0 <= i < c ==> (#[trigger] tables@[i])@.len() == 256,
            forall|i: int, v: int|
                0 <= i < c && 0 <= v < 256 ==> (#[trigger] tables@[i]@[v]) == count_value(
                    data,
                    chs,
                    i,
                    v as u8,
                    n as int,
                ),
        decreases channels - c,
    {
        let mut table: Vec<u32> = Vec::new();
        let mut v: usize = 0;
        while v < 256
            invariant
                v <= 256,
                table@.len() == v,
                forall|k: int| 0 <= k < v ==> table@[k] == 0,
            decreases 256 - v,
        {
            table.push(0);
            v = v + 1;
        }
        let mut p: usize = 0;
        while p < n
            invariant
                buf.well_formed(),
                data == buf.spec_data(),
                chs == buf.spec_channels() as int,
                channels == chs,
                n == buf.spec_pixel_count(),
                c < channels,
                p <= n,
                table@.len() == 256,
                forall|k: int|
                    0 <= k < 256 ==> (#[trigger] table@[k]) == count_value(
                        data,
                        chs,
                        c as int,
                        k as u8,
                        p as int,
                    ),
            decreases n - p,
        {
            let val: u8 = buf.value_at(p, c);
            let vi: usize = val as usize;
            proof {
                lemma_count_value_le(data, chs, c as int, val, p as int);
            }
            let cur: u32 = table[vi];
            table[vi] = cur + 1;
            assert forall|k: int| 0 <= k < 256 implies (#[trigger] table@[k]) == count_value(
                data,
                chs,
                c as int,
                k as u8,
                p + 1,
            ) by {
                assert(data[(p as int) * chs + (c as int)] == val);
            }
            p = p + 1;
        }
        tables.push(table);
        c = c + 1;
    }
    proof {
        assert forall|i: int| 0 <= i < tables@.len() implies table_sum(
            (#[trigger] tables@[i])@,
        ) == buf.spec_pixel_count() by {
            assert(forall|v: int|
                0 <= v < 256 ==> tables@[i]@[v] == count_value(data, chs, i, v as u8, n as int));
            lemma_table_sum_matches(tables@[i]@, data, chs, i, n as int);
            lemma_count_values_total(data, chs, i, n as int);
        }
        assert forall|i: int, v: int|
            0 <= i < tables@.len() && 0 <= v < 256 implies (#[trigger] tables@[i]@[v])
            <= buf.spec_pixel_count() by {
            lemma_count_value_le(data, chs, i, v as u8, n as int);
        }
    }
    tables
}

} // verus!
