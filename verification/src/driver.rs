use vstd::prelude::*;
use vstd::arithmetic::div_mod::{
    lemma_basic_div, lemma_div_denominator, lemma_div_is_ordered, lemma_div_multiples_vanish_fancy,
    lemma_div_nonincreasing, lemma_div_plus_one, lemma_div_pos_is_pos, lemma_fundamental_div_mod,
    lemma_mod_bound, lemma_mod_multiples_basic, lemma_multiply_divide_lt,
};
use vstd::arithmetic::mul::lemma_mul_inequality;
use crate::config::{band_win_len, hop_q16_of, loops_of, NessStruct};

verus! {

/// Integer division rounded towards positive infinity.
pub open spec fn ceil_div(a: int, b: int) -> int {
    (a + b - 1) / b
}

/// Number of output chunks of a run: the input length stretched by the
/// duration multiplier, in whole chunks of `max_win_size` samples, rounded
/// up — unless the caller caps the count.
pub open spec fn num_chunks_of(
    input_len: int,
    max_win_size: int,
    dur_q16: int,
    num_output_blocks: int,
) -> int {
    if num_output_blocks > 0 {
        num_output_blocks
    } else {
        ceil_div(input_len * dur_q16, max_win_size * 65536)
    }
}

/// Input position chunk `n` starts reading from: `n` chunks scaled down by
/// the duration multiplier, rounded to the nearest sample.
pub open spec fn chunk_point_of(n: int, max_win_size: int, dur_q16: int) -> int {
    (2 * n * max_win_size * 65536 + dur_q16) / (2 * dur_q16)
}

/// The largest analysis window a sample rate gets: one 65536-sample chunk
/// per 44.1 kHz of rate.
pub open spec fn max_win_of(sample_rate: int) -> int {
    65536 * (sample_rate / 44100)
}

/// The slice clamp: requests above nine fall to nine below 88.2 kHz and to
/// ten at or above it.
pub open spec fn clamped_slices_of(sample_rate: int, num_slices: int) -> int {
    if num_slices > 9 {
        if sample_rate < 88200 {
            9
        } else {
            10
        }
    } else {
        num_slices
    }
}

/// Clamps the requested number of spectral slices to what the sample rate
/// allows.
pub fn clamp_num_slices(sample_rate: usize, num_slices: usize) -> (r: usize)
    ensures
        r == clamped_slices_of(sample_rate as int, num_slices as int),
{
    if sample_rate < 88200 && num_slices > 9 {
        9
    } else if sample_rate >= 88200 && num_slices > 9 {
        10
    } else {
        num_slices
    }
}

/// The chunk size a sample rate gets.
pub fn max_win_for_rate(sample_rate: usize) -> (r: usize)
    requires
        44100 <= sample_rate <= 2822400,
    ensures
        r == max_win_of(sample_rate as int),
        65536 <= r <= 0x40_0000,
        r % 65536 == 0,
{
    proof {
        lemma_div_is_ordered(44100, sample_rate as int, 44100);
        lemma_div_is_ordered(sample_rate as int, 2822400, 44100);
        lemma_mod_multiples_basic(sample_rate as int / 44100, 65536);
    }
    65536 * (sample_rate / 44100)
}

/// The driver's slice clamp is what makes the engine configuration sound:
/// after clamping, the largest active band's analysis window fits inside
/// the chunk size derived from the same sample rate.
pub proof fn lemma_clamped_slices_fit(sample_rate: int, num_slices: int)
    requires
        sample_rate >= 44100,
        num_slices >= 1,
    ensures
        1 <= clamped_slices_of(sample_rate, num_slices) <= 10,
        band_win_len(clamped_slices_of(sample_rate, num_slices) - 1) <= max_win_of(sample_rate),
{
    let n = clamped_slices_of(sample_rate, num_slices);
    if n == 10 {
        lemma_div_is_ordered(88200, sample_rate, 44100);
        assert(sample_rate / 44100 >= 2);
    } else {
        lemma_div_is_ordered(44100, sample_rate, 44100);
        assert(sample_rate / 44100 >= 1);
    }
}

/// The configuration a run gets from its sample rate: the chunk size
/// derived from the rate, the slice count clamped to it — which is what
/// makes the engine invariant hold — and the per-band parameters built
/// from both.
pub fn config_for_rate(
    dur_q16: u64,
    sample_rate: usize,
    num_slices: usize,
    num_channels: usize,
    filter_on: usize,
    extreme: usize,
    paulstretch_win_size: usize,
) -> (r: NessStruct)
    requires
        dur_q16 >= 65536,
        44100 <= sample_rate <= 2822400,
        num_slices >= 1,
        1 <= num_channels <= 4096,
        filter_on <= 1,
    ensures
        r.well_formed(),
        r.max_win_size == max_win_of(sample_rate as int),
        r.num_slices == clamped_slices_of(sample_rate as int, num_slices as int),
        r.num_channels == num_channels,
        r.win_size_divisor == 1,
        r.filter_on == filter_on,
        r.extreme == extreme,
        r.paulstretch_win_size == paulstretch_win_size,
        r.loops == loops_of(extreme as int),
        forall|b: int|
            0 <= b < 10 ==> #[trigger] r.hops_q16[b] == hop_q16_of(
                band_win_len(b),
                dur_q16 as int,
            ),
{
    let max_win = max_win_for_rate(sample_rate);
    let slices = clamp_num_slices(sample_rate, num_slices);
    proof {
        lemma_clamped_slices_fit(sample_rate as int, num_slices as int);
    }
    NessStruct::new(
        dur_q16,
        max_win,
        1,
        num_channels,
        slices,
        filter_on,
        extreme,
        paulstretch_win_size,
    )
}

/// The number of chunks the run will produce.
pub fn num_chunks(input_len: u64, max_win_size: u64, dur_q16: u64, num_output_blocks: u64) -> (r:
    u64)
    requires
        65536 <= max_win_size <= 0x40_0000,
        dur_q16 >= 65536,
        input_len * dur_q16 <= u64::MAX,
    ensures
        r == num_chunks_of(
            input_len as int,
            max_win_size as int,
            dur_q16 as int,
            num_output_blocks as int,
        ),
{
    if num_output_blocks > 0 {
        num_output_blocks
    } else if input_len == 0 {
        proof {
            lemma_basic_div(max_win_size as int * 65536 - 1, max_win_size as int * 65536);
        }
        0
    } else {
        let denom: u64 = max_win_size * 65536;
        proof {
            let a = input_len as int * dur_q16 as int;
            assert(a >= 65536) by (nonlinear_arith)
                requires
                    input_len as int >= 1,
                    dur_q16 as int >= 65536,
                    a == input_len as int * dur_q16 as int,
            ;
            lemma_div_plus_one(a - 1, denom as int);
            lemma_div_nonincreasing(a - 1, denom as int);
        }
        (input_len * dur_q16 - 1) / denom + 1
    }
}

/// The read origins of all chunks.
pub fn chunk_points(num_chunks: u64, max_win_size: u64, dur_q16: u64) -> (r: Vec<u64>)
    requires
        65536 <= max_win_size <= 0x40_0000,
        65536 <= dur_q16 <= 0x1_0000_0000,
        num_chunks * max_win_size <= 0x1000_0000_0000,
    ensures
        r.len() == num_chunks,
        forall|n: int|
            0 <= n < num_chunks ==> #[trigger] r[n] == chunk_point_of(
                n,
                max_win_size as int,
                dur_q16 as int,
            ),
{
    let mut r: Vec<u64> = Vec::new();
    let mut n: u64 = 0;
    while n < num_chunks
        invariant
            n <= num_chunks,
            65536 <= max_win_size <= 0x40_0000,
            65536 <= dur_q16 <= 0x1_0000_0000,
            num_chunks * max_win_size <= 0x1000_0000_0000,
            r.len() == n,
            forall|i: int|
                0 <= i < n ==> #[trigger] r[i] == chunk_point_of(
                    i,
                    max_win_size as int,
                    dur_q16 as int,
                ),
        decreases num_chunks - n,
    {
        proof {
            let ni = n as int;
            let m = max_win_size as int;
            lemma_mul_inequality(ni, num_chunks as int, m);
            assert(ni * m >= 0) by (nonlinear_arith)
                requires
                    ni >= 0,
                    m >= 0,
            ;
            assert(num_chunks as int * m <= 0x1000_0000_0000);
            assert(ni <= ni * m) by (nonlinear_arith)
                requires
                    ni >= 0,
                    m >= 1,
            ;
            assert((2 * ni) * m == 2 * (ni * m)) by (nonlinear_arith);
            assert(2 * ni * m * 65536 == ((2 * ni) * m) * 65536);
        }
        let point: u64 = (2 * n * max_win_size * 65536 + dur_q16) / (2 * dur_q16);
        r.push(point);
        n = n + 1;
    }
    r
}

/// Chunk origins never outrun the input: with a duration multiplier of at
/// least one, chunk `n` starts reading at or before sample
/// `n · max_win_size`, so consecutive chunks overlap the input instead of
/// skipping past it.
pub proof fn lemma_chunk_origin_bound(n: int, max_win_size: int, dur_q16: int)
    requires
        n >= 0,
        max_win_size >= 0,
        dur_q16 >= 65536,
    ensures
        0 <= chunk_point_of(n, max_win_size, dur_q16) <= n * max_win_size,
{
    let a = n * max_win_size;
    assert(a >= 0) by (nonlinear_arith)
        requires
            n >= 0,
            max_win_size >= 0,
            a == n * max_win_size,
    ;
    assert(2 * n * max_win_size * 65536 == (2 * a) * 65536) by (nonlinear_arith)
        requires
            a == n * max_win_size,
    ;
    // the numerator stays below (2 · dur_q16) · (a + 1)
    assert((2 * a) * 65536 <= (2 * dur_q16) * a) by (nonlinear_arith)
        requires
            a >= 0,
            dur_q16 >= 65536,
    ;
    assert((2 * dur_q16) * (a + 1) == (2 * dur_q16) * a + 2 * dur_q16) by (nonlinear_arith);
    lemma_multiply_divide_lt((2 * a) * 65536 + dur_q16, 2 * dur_q16, a + 1);
    lemma_div_pos_is_pos((2 * a) * 65536 + dur_q16, 2 * dur_q16);
}

/// With a unit duration multiplier and no cap, the run reproduces the
/// input length, rounded up to a whole number of chunks: the output,
/// `max_win_size` samples per chunk, is never shorter than the input and
/// overshoots by less than one chunk.
pub proof fn lemma_unity_duration_output_len(input_len: int, max_win_size: int)
    requires
        max_win_size >= 1,
        input_len >= 0,
    ensures
        input_len == 0 ==> num_chunks_of(input_len, max_win_size, 65536, 0) == 0,
        input_len > 0 ==> input_len <= num_chunks_of(input_len, max_win_size, 65536, 0)
            * max_win_size < input_len + max_win_size,
{
    let m = max_win_size;
    let a = input_len * 65536 + m * 65536 - 1;
    if input_len == 0 {
        lemma_basic_div(m * 65536 - 1, m * 65536);
    } else {
        // the Q16 scale cancels: the count is ceil_div(input_len, max_win_size)
        lemma_div_denominator(a, 65536, m);
        assert(a == 65536 * (input_len + m - 1) + 65535);
        lemma_div_multiples_vanish_fancy(input_len + m - 1, 65535, 65536);
        assert(a / 65536 == input_len + m - 1);
        assert(65536 * m == m * 65536) by (nonlinear_arith);
        assert(num_chunks_of(input_len, max_win_size, 65536, 0) == (input_len + m - 1) / m);
        // a count q with q * m == input_len + m - 1 - remainder pins both bounds
        let q = (input_len + m - 1) / m;
        lemma_fundamental_div_mod(input_len + m - 1, m);
        lemma_mod_bound(input_len + m - 1, m);
        assert(m * q == q * m) by (nonlinear_arith);
    }
}

/// The chunk count never cuts the stretch short: the output length in
/// samples, scaled back up by the Q16 duration multiplier, covers the
/// stretched input.
pub proof fn lemma_output_covers_stretch(input_len: int, max_win_size: int, dur_q16: int)
    requires
        max_win_size >= 1,
        dur_q16 >= 65536,
        input_len >= 0,
    ensures
        num_chunks_of(input_len, max_win_size, dur_q16, 0) * (max_win_size * 65536) >= input_len
            * dur_q16,
{
    let a = input_len * dur_q16;
    let b = max_win_size * 65536;
    let q = (a + b - 1) / b;
    assert(b >= 65536);
    lemma_fundamental_div_mod(a + b - 1, b);
    lemma_mod_bound(a + b - 1, b);
    assert(b * q == q * b) by (nonlinear_arith);
}

} // verus!
