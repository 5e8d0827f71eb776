use vstd::prelude::*;
use vstd::arithmetic::div_mod::{lemma_div_by_multiple, lemma_div_is_ordered_by_denominator};

verus! {

/// Number of per-band slots the engine always allocates; only the first
/// `num_slices` of them are active in a run.
pub const MAX_SLICES: usize = 10;

/// Fixed-point scale for duration multipliers and hop sizes: values carry
/// sixteen fractional bits, so `Q16` stands for a multiplier of 1.
pub const Q16: u64 = 65536;

/// Analysis window length of band `b`: 256 samples for the highest band,
/// doubling per band down to 131072 for the lowest.
pub open spec fn band_win_len(b: int) -> int {
    if b <= 0 {
        256
    } else if b == 1 {
        512
    } else if b == 2 {
        1024
    } else if b == 3 {
        2048
    } else if b == 4 {
        4096
    } else if b == 5 {
        8192
    } else if b == 6 {
        16384
    } else if b == 7 {
        32768
    } else if b == 8 {
        65536
    } else {
        131072
    }
}

/// Hop of a band in Q16 fixed point: half the analysis window divided by
/// the duration multiplier.
pub open spec fn hop_q16_of(win_len: int, dur_q16: int) -> int {
    ((win_len / 2) * 0x1_0000_0000) / dur_q16
}

/// Sub-band cutoff bins of one band before the extreme-mode rewrite, over
/// `C = max_win_size / 512`.  The bottom band spans everything up to `C`;
/// the other bands cover the top half of that range.  A single-slice run
/// gives every band the bottom-band layout.
pub open spec fn base_cutoffs(max_win_size: int, band: int, num_slices: int) -> Seq<int> {
    let c = max_win_size / 512;
    if band == num_slices - 1 || num_slices == 1 {
        seq![1, c / 4, c / 2, 3 * c / 4, c]
    } else {
        seq![c / 2, 5 * c / 8, 3 * c / 4, 7 * c / 8, c]
    }
}

/// The extreme-mode rewrite of a cutoff vector: modes 0 and 1 collapse it
/// to a single sub-band, mode 2 keeps all five cutoffs, mode 3 re-pairs
/// them into two sub-bands, and modes above 3 collapse like mode 0.
pub open spec fn rewritten_cutoffs(c: Seq<int>, extreme: int) -> Seq<int> {
    if extreme == 2 {
        c
    } else if extreme == 3 {
        c.update(1, c[2]).update(2, c[4])
    } else {
        c.update(1, c[4])
    }
}

/// The cutoff bins a band ends up with: the base layout rewritten for the
/// extreme mode.
pub open spec fn band_cutoffs_of(max_win_size: int, band: int, num_slices: int, extreme: int) -> Seq<
    int,
> {
    rewritten_cutoffs(base_cutoffs(max_win_size, band, num_slices), extreme)
}

/// How many sub-band loops each analysis frame runs: four in extreme mode
/// 2, two in mode 3, one otherwise.
pub open spec fn loops_of(extreme: int) -> int {
    if extreme == 2 {
        4
    } else if extreme == 3 {
        2
    } else {
        1
    }
}

/// How many phase-randomization trials one micro-frame draws.
pub open spec fn trial_count_of(extreme: int) -> int {
    if extreme == 1 {
        10
    } else if extreme == 3 {
        3
    } else if extreme > 3 {
        extreme
    } else {
        1
    }
}

/// With a unit duration multiplier the hop is exactly half the window:
/// analysis frames tile the input back to back and the stretch is
/// identity-paced.
pub proof fn lemma_unit_duration_hop(win_len: int)
    requires
        win_len >= 0,
    ensures
        hop_q16_of(win_len, 65536) == (win_len / 2) * 65536,
{
    let h = win_len / 2;
    assert(h * 0x1_0000_0000 == (h * 65536) * 65536) by (nonlinear_arith);
    lemma_div_by_multiple(h * 65536, 65536);
}

/// Immutable engine configuration: everything the per-chunk pipeline reads
/// but never writes.  Windows and filter masks are derived from these
/// integer parameters by the rendering layer.
pub struct NessStruct {
    pub max_win_size: usize,
    pub win_size_divisor: usize,
    pub num_channels: usize,
    pub out_frame_size: usize,
    pub num_slices: usize,
    pub win_lens: Vec<usize>,
    pub hops_q16: Vec<u64>,
    pub loops: usize,
    pub cut_offs: Vec<Vec<u64>>,
    pub filter_on: usize,
    pub extreme: usize,
    pub paulstretch_win_size: usize,
}

impl NessStruct {
    /// The configuration invariant: ten per-band slots, window lengths from
    /// the fixed doubling ladder, hops no larger than half a window (the
    /// duration multiplier is at least one), and every active band's window
    /// fitting inside one chunk.
    pub open spec fn well_formed(&self) -> bool {
        &&& self.win_lens.len() == 10
        &&& (forall|b: int| 0 <= b < 10 ==> self.win_lens[b] == band_win_len(b))
        &&& self.hops_q16.len() == 10
        &&& (forall|b: int|
            0 <= b < 10 ==> self.hops_q16[b] <= (band_win_len(b) / 2) * 65536)
        &&& self.cut_offs.len() == 10
        &&& (forall|b: int| 0 <= b < 10 ==> #[trigger] self.cut_offs[b].len() == 5)
        &&& 1 <= self.num_slices <= 10
        &&& band_win_len(self.num_slices - 1) <= self.max_win_size
        &&& 65536 <= self.max_win_size <= 0x40_0000
        &&& self.max_win_size % 65536 == 0
        &&& self.out_frame_size == 3 * self.max_win_size
        &&& 1 <= self.num_channels <= 4096
        &&& self.win_size_divisor >= 1
        &&& self.filter_on <= 1
        &&& self.loops == loops_of(self.extreme as int)
    }

    /// Builds the engine configuration: the ten window lengths, the Q16 hop
    /// of each band, the loop count for the extreme mode, and each band's
    /// rewritten cutoff bins.
    pub fn new(
        dur_q16: u64,
        max_win_size: usize,
        win_size_divisor: usize,
        num_channels: usize,
        num_slices: usize,
        filter_on: usize,
        extreme: usize,
        paulstretch_win_size: usize,
    ) -> (r: NessStruct)
        requires
            dur_q16 >= 65536,
            65536 <= max_win_size <= 0x40_0000,
            max_win_size % 65536 == 0,
            1 <= num_slices <= 10,
            band_win_len(num_slices - 1) <= max_win_size,
            1 <= num_channels <= 4096,
            win_size_divisor >= 1,
            filter_on <= 1,
        ensures
            r.well_formed(),
            r.max_win_size == max_win_size,
            r.win_size_divisor == win_size_divisor,
            r.num_channels == num_channels,
            r.out_frame_size == 3 * max_win_size,
            r.num_slices == num_slices,
            r.filter_on == filter_on,
            r.extreme == extreme,
            r.paulstretch_win_size == paulstretch_win_size,
            r.loops == loops_of(extreme as int),
            forall|b: int|
                0 <= b < 10 ==> #[trigger] r.hops_q16[b] == hop_q16_of(
                    band_win_len(b),
                    dur_q16 as int,
                ),
            forall|b: int, j: int|
                0 <= b < 10 && 0 <= j < 5 ==> #[trigger] r.cut_offs[b][j] == band_cutoffs_of(
                    max_win_size as int,
                    b,
                    num_slices as int,
                    extreme as int,
                )[j],
    {
        let mut win_lens: Vec<usize> = Vec::new();
        let mut hops_q16: Vec<u64> = Vec::new();
        let mut size: usize = 256;
        let mut iter: usize = 0;
        while iter < MAX_SLICES
            invariant
                iter <= 10,
                dur_q16 >= 65536,
                win_lens.len() == iter,
                hops_q16.len() == iter,
                iter < 10 ==> size == band_win_len(iter as int),
                forall|b: int| 0 <= b < iter ==> win_lens[b] == band_win_len(b),
                forall|b: int|
                    0 <= b < iter ==> #[trigger] hops_q16[b] == hop_q16_of(
                        band_win_len(b),
                        dur_q16 as int,
                    ),
                forall|b: int|
                    0 <= b < iter ==> hops_q16[b] <= (band_win_len(b) / 2) * 65536,
            decreases 10 - iter,
        {
            win_lens.push(size);
            let half: u64 = (size / 2) as u64;
            let hop: u64 = (half * 0x1_0000_0000) / dur_q16;
            proof {
                let h = half as int;
                assert(h * 0x1_0000_0000 == (h * 65536) * 65536) by (nonlinear_arith);
                lemma_div_by_multiple(h * 65536, 65536);
                lemma_div_is_ordered_by_denominator(h * 0x1_0000_0000, 65536, dur_q16 as int);
            }
            hops_q16.push(hop);
            if iter < 9 {
                size = size * 2;
            }
            iter = iter + 1;
        }

        let mut cut_offs: Vec<Vec<u64>> = Vec::new();
        let mut b: usize = 0;
        while b < MAX_SLICES
            invariant
                b <= 10,
                65536 <= max_win_size <= 0x40_0000,
                max_win_size % 65536 == 0,
                1 <= num_slices <= 10,
                cut_offs.len() == b,
                forall|bb: int| 0 <= bb < b ==> #[trigger] cut_offs[bb].len() == 5,
                forall|bb: int, j: int|
                    0 <= bb < b && 0 <= j < 5 ==> #[trigger] cut_offs[bb][j] == band_cutoffs_of(
                        max_win_size as int,
                        bb,
                        num_slices as int,
                        extreme as int,
                    )[j],
            decreases 10 - b,
        {
            let cuts = band_cutoffs(max_win_size, b, num_slices, extreme);
            cut_offs.push(cuts);
            b = b + 1;
        }

        let loops: usize = if extreme == 2 {
            4
        } else if extreme == 3 {
            2
        } else {
            1
        };

        NessStruct {
            max_win_size,
            win_size_divisor,
            num_channels,
            out_frame_size: 3 * max_win_size,
            num_slices,
            win_lens,
            hops_q16,
            loops,
            cut_offs,
            filter_on,
            extreme,
            paulstretch_win_size,
        }
    }
}

/// One band's cutoff bins: the base layout for its position in the band
/// stack, rewritten in place for the extreme mode.
pub fn band_cutoffs(max_win_size: usize, band: usize, num_slices: usize, extreme: usize) -> (r:
    Vec<u64>)
    requires
        65536 <= max_win_size <= 0x40_0000,
        max_win_size % 65536 == 0,
        num_slices >= 1,
    ensures
        r.len() == 5,
        forall|j: int|
            0 <= j < 5 ==> #[trigger] r[j] == band_cutoffs_of(
                max_win_size as int,
                band as int,
                num_slices as int,
                extreme as int,
            )[j],
{
    let c: u64 = (max_win_size / 512) as u64;
    let mut r: Vec<u64> = Vec::new();
    if band == num_slices - 1 || num_slices == 1 {
        r.push(1);
        r.push(c / 4);
        r.push(c / 2);
        r.push(3 * c / 4);
        r.push(c);
    } else {
        r.push(c / 2);
        r.push(5 * c / 8);
        r.push(3 * c / 4);
        r.push(7 * c / 8);
        r.push(c);
    }
    if extreme == 2 {
        // all five cutoffs stay
    } else if extreme == 3 {
        let mid = r[2];
        r.set(1, mid);
        let top = r[4];
        r.set(2, top);
    } else {
        let top = r[4];
        r.set(1, top);
    }
    r
}

/// Window-slot index the single-band fast path uses: the user's window
/// selector 1, 2 or 3 picks band 5, 6 or 7 (8192, 16384 or 32768 samples).
pub fn paul_win_index(paulstretch_win_size: usize) -> (r: usize)
    ensures
        r == (if paulstretch_win_size == 2 {
            6int
        } else if paulstretch_win_size == 3 {
            7int
        } else {
            5int
        }),
        5 <= r <= 7,
{
    if paulstretch_win_size == 2 {
        6
    } else if paulstretch_win_size == 3 {
        7
    } else {
        5
    }
}

/// How many phase-randomization trials a micro-frame runs for this extreme
/// mode.
pub fn trial_count(extreme: usize) -> (r: usize)
    ensures
        r == trial_count_of(extreme as int),
        r >= 1,
{
    if extreme == 1 {
        10
    } else if extreme == 3 {
        3
    } else if extreme > 3 {
        extreme
    } else {
        1
    }
}

} // verus!
