use vstd::prelude::*;
use vstd::arithmetic::div_mod::{lemma_div_by_multiple, lemma_div_is_ordered, lemma_fundamental_div_mod};
use vstd::arithmetic::mul::lemma_mul_inequality;
use crate::config::{band_win_len, NessStruct};

verus! {

/// Input read position of analysis frame `k`, relative to the chunk start:
/// the frame slides by the fixed-point hop and sits centred in the chunk
/// for its window length.
pub open spec fn stretch_point_of(
    chunk_point: int,
    hop_q16: int,
    k: int,
    max_win_size: int,
    win_len: int,
) -> int {
    chunk_point + (k * hop_q16) / 65536 + (max_win_size / 2 - win_len / 2)
}

/// The positions one band reads its analysis frames from.  Every frame,
/// window included, stays inside the `2 · max_win_size` input chunk: the
/// hop is at most half a window because the duration multiplier is at
/// least one.
pub fn stretch_points(chunk_point: usize, hop_q16: u64, win_len: usize, max_win_size: usize) -> (r:
    Vec<usize>)
    requires
        2 <= win_len <= max_win_size,
        win_len % 2 == 0,
        max_win_size <= 0x40_0000,
        chunk_point + 2 * max_win_size <= 0xFFFF_FFFF,
        hop_q16 <= (win_len as int / 2) * 65536,
    ensures
        r.len() == max_win_size as int / (win_len as int / 2),
        forall|k: int|
            0 <= k < r.len() ==> #[trigger] r[k] == stretch_point_of(
                chunk_point as int,
                hop_q16 as int,
                k,
                max_win_size as int,
                win_len as int,
            ),
        forall|k: int|
            0 <= k < r.len() ==> #[trigger] r[k] + win_len <= chunk_point + 2 * max_win_size,
{
    let half: usize = win_len / 2;
    let count: usize = max_win_size / half;
    let center_off: usize = max_win_size / 2 - half;
    let mut r: Vec<usize> = Vec::new();
    let mut k: usize = 0;
    while k < count
        invariant
            k <= count,
            2 <= win_len <= max_win_size,
            win_len % 2 == 0,
            max_win_size <= 0x40_0000,
            chunk_point + 2 * max_win_size <= 0xFFFF_FFFF,
            hop_q16 <= (win_len as int / 2) * 65536,
            half == win_len / 2,
            count == max_win_size as int / (win_len as int / 2),
            center_off == max_win_size / 2 - half,
            r.len() == k,
            forall|i: int|
                0 <= i < k ==> #[trigger] r[i] == stretch_point_of(
                    chunk_point as int,
                    hop_q16 as int,
                    i,
                    max_win_size as int,
                    win_len as int,
                ),
            forall|i: int|
                0 <= i < k ==> #[trigger] r[i] + win_len <= chunk_point + 2 * max_win_size,
        decreases count - k,
    {
        proof {
            let ki = k as int;
            let h = half as int;
            let hop = hop_q16 as int;
            // the product fits comfortably in 64 bits
            assert(ki * hop <= 0x40_0000 * (0x20_0000 * 65536)) by (nonlinear_arith)
                requires
                    0 <= ki <= 0x40_0000,
                    0 <= hop <= 0x20_0000 * 65536,
            ;
            // the scaled offset never exceeds k whole half-windows
            assert(ki * hop <= (ki * h) * 65536) by (nonlinear_arith)
                requires
                    0 <= ki,
                    0 <= hop <= h * 65536,
            ;
            lemma_div_is_ordered(ki * hop, (ki * h) * 65536, 65536);
            lemma_div_by_multiple(ki * h, 65536);
            // k half-windows stay short of the chunk: count * half <= max_win_size
            lemma_mul_inequality(ki, count - 1, h);
            lemma_fundamental_div_mod(max_win_size as int, h);
            assert((count as int) * h == h * (count as int)) by (nonlinear_arith);
            assert((count - 1) * h == count as int * h - h) by (nonlinear_arith);
            assert((ki * hop) / 65536 <= max_win_size - h);
        }
        let scaled: u64 = ((k as u64) * hop_q16) / 65536;
        let p: usize = chunk_point + (scaled as usize) + center_off;
        r.push(p);
        k = k + 1;
    }
    r
}

/// The positions one band overlap-adds its fade regions at: frame `k`
/// writes at `k` half-windows into the synthesis buffer, and every write,
/// fade region included, stays inside the first `count · half_win_len`
/// samples.
pub fn out_points(count: usize, half_win_len: usize) -> (r: Vec<usize>)
    requires
        count * half_win_len <= 0xFFFF_FFFF,
    ensures
        r.len() == count,
        forall|k: int| 0 <= k < count ==> #[trigger] r[k] == k * half_win_len,
        forall|k: int|
            0 <= k < count ==> #[trigger] r[k] + half_win_len <= count * half_win_len,
{
    let mut r: Vec<usize> = Vec::new();
    let mut k: usize = 0;
    while k < count
        invariant
            k <= count,
            count * half_win_len <= 0xFFFF_FFFF,
            r.len() == k,
            forall|i: int| 0 <= i < k ==> #[trigger] r[i] == i * half_win_len,
            forall|i: int|
                0 <= i < k ==> #[trigger] r[i] + half_win_len <= count * half_win_len,
        decreases count - k,
    {
        proof {
            lemma_mul_inequality(k as int + 1, count as int, half_win_len as int);
            assert((k as int + 1) * half_win_len == k as int * half_win_len + half_win_len)
                by (nonlinear_arith);
        }
        r.push(k * half_win_len);
        k = k + 1;
    }
    r
}

/// Analysis frames are read in non-decreasing input order: within a band,
/// frame `k2` never starts before frame `k1` when `k1 <= k2`, so
/// overlap-add proceeds strictly forward through the chunk.
pub proof fn lemma_stretch_points_ordered(
    chunk_point: int,
    hop_q16: int,
    k1: int,
    k2: int,
    max_win_size: int,
    win_len: int,
)
    requires
        0 <= k1 <= k2,
        hop_q16 >= 0,
    ensures
        stretch_point_of(chunk_point, hop_q16, k1, max_win_size, win_len) <= stretch_point_of(
            chunk_point,
            hop_q16,
            k2,
            max_win_size,
            win_len,
        ),
{
    lemma_mul_inequality(k1, k2, hop_q16);
    lemma_div_is_ordered(k1 * hop_q16, k2 * hop_q16, 65536);
}

/// A band writes at most `max_win_size` synthesis samples per chunk: the
/// overlap-add region of the full frame plan ends at or before the chunk
/// boundary.
pub proof fn lemma_out_region_in_chunk(max_win_size: int, half_win_len: int)
    requires
        half_win_len >= 1,
        max_win_size >= 0,
    ensures
        (max_win_size / half_win_len) * half_win_len <= max_win_size,
{
    lemma_fundamental_div_mod(max_win_size, half_win_len);
    assert((max_win_size / half_win_len) * half_win_len == half_win_len * (max_win_size
        / half_win_len)) by (nonlinear_arith);
}

/// A well-formed configuration hands every usable band a valid frame
/// plan: bands below the active slice count, and the three single-band
/// window slots, all have an even window that fits the chunk and a hop of
/// at most half a window.
pub proof fn lemma_band_fits(cfg: &NessStruct, b: int)
    requires
        cfg.well_formed(),
        0 <= b < 10,
        b < cfg.num_slices || b <= 7,
    ensures
        2 <= cfg.win_lens[b] <= cfg.max_win_size,
        cfg.win_lens[b] % 2 == 0,
        cfg.hops_q16[b] <= (cfg.win_lens[b] as int / 2) * 65536,
{
    if b < cfg.num_slices {
        assert(band_win_len(b) <= band_win_len(cfg.num_slices - 1));
    } else {
        assert(band_win_len(b) <= 32768);
    }
}

/// The full frame plan of one band for one chunk: where each analysis
/// frame reads in the input chunk, and where its fade region is
/// overlap-added in the synthesis buffer.  Reads stay inside the
/// `2 · max_win_size` input chunk and writes inside the first
/// `max_win_size` output samples.
pub fn band_frame_plan(cfg: &NessStruct, b: usize) -> (r: (Vec<usize>, Vec<usize>))
    requires
        cfg.well_formed(),
        b < 10,
        b < cfg.num_slices || b <= 7,
    ensures
        ({
            let w = band_win_len(b as int);
            let half = w / 2;
            let count = cfg.max_win_size as int / half;
            &&& r.0.len() == count
            &&& r.1.len() == count
            &&& (forall|k: int|
                0 <= k < count ==> #[trigger] r.0[k] == stretch_point_of(
                    0,
                    cfg.hops_q16[b as int] as int,
                    k,
                    cfg.max_win_size as int,
                    w,
                ))
            &&& (forall|k: int|
                0 <= k < count ==> #[trigger] r.0[k] + w <= 2 * cfg.max_win_size)
            &&& (forall|k: int| 0 <= k < count ==> #[trigger] r.1[k] == k * half)
            &&& (forall|k: int|
                0 <= k < count ==> #[trigger] r.1[k] + half <= cfg.max_win_size)
        }),
{
    proof {
        lemma_band_fits(cfg, b as int);
    }
    let win_len = cfg.win_lens[b];
    let half: usize = win_len / 2;
    let reads = stretch_points(0, cfg.hops_q16[b], win_len, cfg.max_win_size);
    proof {
        lemma_out_region_in_chunk(cfg.max_win_size as int, half as int);
    }
    let writes = out_points(cfg.max_win_size / half, half);
    (reads, writes)
}

/// Start of sub-band loop `i`'s tail slice for channel `chan` inside a
/// band's tail buffer, which packs `2 · win_len` samples per channel.
pub open spec fn tail_slice_start_of(chan: int, win_len: int, i: int) -> int {
    chan * (win_len * 2) + i * (win_len / 2)
}

/// Where a sub-band loop's tail slice begins in the band's tail buffer.
pub fn tail_slice_start(chan: usize, win_len: usize, i: usize) -> (r: usize)
    requires
        chan <= 4096,
        win_len <= 0x2_0000,
        i <= 4,
    ensures
        r == tail_slice_start_of(chan as int, win_len as int, i as int),
{
    proof {
        lemma_mul_inequality(chan as int, 4096, (win_len * 2) as int);
        lemma_mul_inequality(i as int, 4, (win_len / 2) as int);
    }
    chan * (win_len * 2) + i * (win_len / 2)
}

/// Each tail slice lies inside the band's tail buffer of
/// `num_channels · 2 · win_len` samples.
pub proof fn lemma_tail_slice_in_bounds(chan: int, win_len: int, i: int, num_channels: int)
    requires
        0 <= chan < num_channels,
        0 <= i < 4,
        win_len >= 2,
        win_len % 2 == 0,
    ensures
        tail_slice_start_of(chan, win_len, i) >= 0,
        tail_slice_start_of(chan, win_len, i) + win_len / 2 <= num_channels * (win_len * 2),
{
    let h = win_len / 2;
    assert(win_len == 2 * h);
    assert(chan * (win_len * 2) + i * h + h <= chan * (win_len * 2) + 4 * h) by (nonlinear_arith)
        requires
            i < 4,
            h >= 0,
            0 <= chan,
            win_len >= 0,
    ;
    assert(chan * (win_len * 2) + 4 * h <= num_channels * (win_len * 2)) by (nonlinear_arith)
        requires
            chan < num_channels,
            win_len == 2 * h,
            h >= 1,
    ;
    assert(chan * (win_len * 2) >= 0) by (nonlinear_arith)
        requires
            chan >= 0,
            win_len >= 0,
    ;
    assert(i * h >= 0) by (nonlinear_arith)
        requires
            i >= 0,
            h >= 0,
    ;
}

/// Tail slices of distinct (channel, sub-band loop) pairs never overlap:
/// the slice that comes earlier in the buffer ends at or before the point
/// where the later one begins.  With each band owning its own buffer, this
/// is why the per-chunk tasks share no memory.
pub proof fn lemma_tail_slices_disjoint(c1: int, i1: int, c2: int, i2: int, win_len: int)
    requires
        0 <= i1 < 4,
        0 <= i2 < 4,
        0 <= c1,
        0 <= c2,
        win_len >= 2,
        win_len % 2 == 0,
        c1 < c2 || (c1 == c2 && i1 < i2),
    ensures
        tail_slice_start_of(c1, win_len, i1) + win_len / 2 <= tail_slice_start_of(c2, win_len, i2),
{
    let h = win_len / 2;
    assert(win_len == 2 * h);
    if c1 == c2 {
        assert(c1 * (win_len * 2) + i1 * h + h <= c1 * (win_len * 2) + i2 * h)
            by (nonlinear_arith)
            requires
                i1 + 1 <= i2,
                h >= 0,
        ;
    } else {
        assert(c1 * (win_len * 2) + i1 * h + h <= c2 * (win_len * 2) + i2 * h)
            by (nonlinear_arith)
            requires
                c1 + 1 <= c2,
                0 <= i1 < 4,
                0 <= i2,
                h >= 1,
                win_len == 2 * h,
        ;
    }
}

} // verus!
