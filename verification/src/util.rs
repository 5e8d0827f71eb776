use vstd::prelude::*;
use vstd::arithmetic::mul::lemma_mul_inequality;

verus! {

/// Flips a rectangular table of interleaved sample clusters into one row
/// per channel: row `i` of the result collects element `i` of every input
/// row.
pub fn transpose<T: Copy>(v: Vec<Vec<T>>) -> (r: Vec<Vec<T>>)
    requires
        v.len() > 0,
        forall|j: int| 0 <= j < v.len() ==> #[trigger] v[j].len() >= v[0].len(),
    ensures
        r.len() == v[0].len(),
        forall|i: int| 0 <= i < r.len() ==> #[trigger] r[i].len() == v.len(),
        forall|i: int, j: int|
            0 <= i < r.len() && 0 <= j < v.len() ==> r[i][j] == #[trigger] v[j][i],
{
    let cols: usize = v[0].len();
    let mut r: Vec<Vec<T>> = Vec::new();
    let mut i: usize = 0;
    while i < cols
        invariant
            i <= cols,
            v.len() > 0,
            cols == v[0].len(),
            forall|j: int| 0 <= j < v.len() ==> #[trigger] v[j].len() >= cols,
            r.len() == i,
            forall|p: int| 0 <= p < i ==> #[trigger] r[p].len() == v.len(),
            forall|p: int, j: int|
                0 <= p < i && 0 <= j < v.len() ==> r[p][j] == #[trigger] v[j][p],
        decreases cols - i,
    {
        let mut row: Vec<T> = Vec::new();
        let mut j: usize = 0;
        while j < v.len()
            invariant
                j <= v.len(),
                i < cols,
                cols == v[0].len(),
                forall|q: int| 0 <= q < v.len() ==> #[trigger] v[q].len() >= cols,
                row.len() == j,
                forall|q: int| 0 <= q < j ==> row[q] == #[trigger] v[q][i as int],
            decreases v.len() - j,
        {
            proof {
                assert(v[j as int].len() >= cols);
            }
            row.push(v[j][i]);
            j = j + 1;
        }
        r.push(row);
        i = i + 1;
    }
    r
}

/// Copies `len` samples of a channel starting at `start`, reading `fill`
/// (silence, for audio data) at every position past the end of the input.
pub fn gather_chunk<T: Copy>(indata: &Vec<T>, start: usize, len: usize, fill: T) -> (r: Vec<T>)
    requires
        start + len <= usize::MAX,
    ensures
        r.len() == len,
        forall|i: int|
            0 <= i < len ==> #[trigger] r[i] == (if start + i < indata.len() {
                indata[start + i]
            } else {
                fill
            }),
{
    let mut r: Vec<T> = Vec::new();
    let mut i: usize = 0;
    while i < len
        invariant
            i <= len,
            start + len <= usize::MAX,
            r.len() == i,
            forall|p: int|
                0 <= p < i ==> #[trigger] r[p] == (if start + p < indata.len() {
                    indata[start + p]
                } else {
                    fill
                }),
        decreases len - i,
    {
        if start + i < indata.len() {
            r.push(indata[start + i]);
        } else {
            r.push(fill);
        }
        i = i + 1;
    }
    r
}

/// Copies `len` elements of `src` starting at `src_start` into `dst`
/// starting at `dst_start`, leaving every other element of `dst`
/// unchanged.  This is the stitching that moves synthesis frames into
/// their channel's region of a flat buffer and tails in and out of the
/// per-band carry-over state.
pub fn copy_region<T: Copy>(
    dst: &mut Vec<T>,
    dst_start: usize,
    src: &Vec<T>,
    src_start: usize,
    len: usize,
)
    requires
        old(dst).len() >= dst_start + len,
        src.len() >= src_start + len,
    ensures
        final(dst).len() == old(dst).len(),
        forall|i: int|
            dst_start <= i < dst_start + len ==> #[trigger] final(dst)[i] == src[
                i - dst_start + src_start
            ],
        forall|i: int|
            0 <= i < final(dst).len() && !(dst_start <= i < dst_start + len)
                ==> #[trigger] final(dst)[i] == old(dst)[i],
{
    let mut k: usize = 0;
    while k < len
        invariant
            k <= len,
            dst.len() == old(dst).len(),
            dst.len() >= dst_start + len,
            src.len() >= src_start + len,
            forall|i: int|
                dst_start <= i < dst_start + k ==> #[trigger] dst[i] == src[
                    i - dst_start + src_start
                ],
            forall|i: int|
                0 <= i < dst.len() && !(dst_start <= i < dst_start + k) ==> #[trigger] dst[i]
                    == old(dst)[i],
        decreases len - k,
    {
        let value = src[src_start + k];
        dst.set(dst_start + k, value);
        k = k + 1;
    }
}

/// Flattens planar channel buffers into one interleaved vector: frame `f`
/// of channel `c` lands at index `f · channels + c`, the order a PCM
/// writer expects.
pub fn interleave<T: Copy>(channels: &Vec<Vec<T>>, frames: usize) -> (r: Vec<T>)
    requires
        frames * channels.len() <= 0xFFFF_FFFF,
        forall|c: int| 0 <= c < channels.len() ==> #[trigger] channels[c].len() >= frames,
    ensures
        r.len() == frames * channels.len(),
        forall|f: int, c: int|
            0 <= f < frames && 0 <= c < channels.len() ==> r[f * channels.len() + c]
                == #[trigger] channels[c][f],
{
    let num = channels.len();
    let mut r: Vec<T> = Vec::new();
    let mut f: usize = 0;
    while f < frames
        invariant
            f <= frames,
            num == channels.len(),
            frames * num <= 0xFFFF_FFFF,
            forall|c: int| 0 <= c < num ==> #[trigger] channels[c].len() >= frames,
            r.len() == f * num,
            forall|p: int, c: int|
                0 <= p < f && 0 <= c < num ==> r[p * num + c] == #[trigger] channels[c][p],
        decreases frames - f,
    {
        let mut c: usize = 0;
        while c < num
            invariant
                c <= num,
                f < frames,
                num == channels.len(),
                forall|cc: int| 0 <= cc < num ==> #[trigger] channels[cc].len() >= frames,
                r.len() == f * num + c,
                forall|p: int, cc: int|
                    0 <= p < f && 0 <= cc < num ==> r[p * num + cc] == #[trigger] channels[cc][p],
                forall|cc: int|
                    0 <= cc < c ==> r[f * num + cc] == #[trigger] channels[cc][f as int],
            decreases num - c,
        {
            proof {
                assert(channels[c as int].len() >= frames);
            }
            r.push(channels[c][f]);
            proof {
                assert forall|p: int, cc: int|
                    0 <= p < f && 0 <= cc < num implies r[p * num + cc] == channels[cc][p] by {
                    lemma_mul_inequality(p + 1, f as int, num as int);
                    assert((p + 1) * num == p * num + num) by (nonlinear_arith);
                }
            }
            c = c + 1;
        }
        proof {
            assert((f + 1) * num == f * num + num) by (nonlinear_arith);
        }
        f = f + 1;
    }
    r
}

} // verus!
