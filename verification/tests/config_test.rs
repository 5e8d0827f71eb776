use nessstretch::config::{band_cutoffs, paul_win_index, trial_count, NessStruct, MAX_SLICES, Q16};

#[test]
fn win_lens_follow_doubling_ladder() {
    let cfg = NessStruct::new(8 * Q16, 65536, 1, 2, 4, 1, 0, 1);
    assert_eq!(cfg.win_lens.len(), MAX_SLICES);
    assert_eq!(
        cfg.win_lens,
        vec![256, 512, 1024, 2048, 4096, 8192, 16384, 32768, 65536, 131072]
    );
    assert_eq!(cfg.out_frame_size, 3 * 65536);
    assert_eq!(cfg.num_channels, 2);
    assert_eq!(cfg.num_slices, 4);
}

#[test]
fn hops_scale_with_duration() {
    // duration 8: band 0 hops by 128 / 8 = 16 samples, i.e. 16 * 65536 in Q16
    let cfg = NessStruct::new(8 * Q16, 65536, 1, 1, 4, 0, 0, 1);
    assert_eq!(cfg.hops_q16[0], 1048576);
    assert_eq!(cfg.hops_q16[9], 536870912);
    // duration 1: each band hops by exactly half its window
    let unit = NessStruct::new(Q16, 65536, 1, 1, 4, 0, 0, 1);
    for b in 0..10 {
        assert_eq!(unit.hops_q16[b], (unit.win_lens[b] as u64 / 2) * Q16);
    }
    // a fractional duration of 1.5
    let frac = NessStruct::new(98304, 65536, 1, 1, 4, 0, 0, 1);
    assert_eq!(frac.hops_q16[0], 5592405);
}

#[test]
fn loop_counts_per_extreme_mode() {
    assert_eq!(NessStruct::new(Q16, 65536, 1, 1, 4, 0, 0, 1).loops, 1);
    assert_eq!(NessStruct::new(Q16, 65536, 1, 1, 4, 0, 1, 1).loops, 1);
    assert_eq!(NessStruct::new(Q16, 65536, 1, 1, 4, 0, 2, 1).loops, 4);
    assert_eq!(NessStruct::new(Q16, 65536, 1, 1, 4, 0, 3, 1).loops, 2);
    assert_eq!(NessStruct::new(Q16, 65536, 1, 1, 4, 0, 7, 1).loops, 1);
}

#[test]
fn bottom_band_gets_full_range_cutoffs() {
    // max window 65536 puts the cutoff ceiling at C = 128
    let cuts = band_cutoffs(65536, 3, 4, 2);
    assert_eq!(cuts, vec![1, 32, 64, 96, 128]);
}

#[test]
fn upper_bands_cover_top_half() {
    let cuts = band_cutoffs(65536, 0, 4, 2);
    assert_eq!(cuts, vec![64, 80, 96, 112, 128]);
}

#[test]
fn extreme_zero_collapses_to_one_sub_band() {
    let cuts = band_cutoffs(65536, 0, 4, 0);
    assert_eq!(cuts, vec![64, 128, 96, 112, 128]);
    let high = band_cutoffs(65536, 0, 4, 9);
    assert_eq!(high, vec![64, 128, 96, 112, 128]);
}

#[test]
fn extreme_three_re_pairs_cutoffs() {
    let cuts = band_cutoffs(65536, 0, 4, 3);
    assert_eq!(cuts, vec![64, 96, 128, 112, 128]);
}

#[test]
fn single_slice_uses_bottom_layout_everywhere() {
    let cfg = NessStruct::new(Q16, 65536, 1, 1, 1, 0, 2, 1);
    for b in 0..10 {
        assert_eq!(cfg.cut_offs[b], vec![1, 32, 64, 96, 128]);
    }
}

#[test]
fn larger_chunks_scale_the_cutoff_ceiling() {
    let cuts = band_cutoffs(131072, 9, 10, 2);
    assert_eq!(cuts, vec![1, 64, 128, 192, 256]);
}

#[test]
fn paul_window_slot_from_selector() {
    assert_eq!(paul_win_index(1), 5);
    assert_eq!(paul_win_index(2), 6);
    assert_eq!(paul_win_index(3), 7);
    assert_eq!(paul_win_index(0), 5);
}

#[test]
fn trial_counts_per_extreme_mode() {
    assert_eq!(trial_count(0), 1);
    assert_eq!(trial_count(1), 10);
    assert_eq!(trial_count(2), 1);
    assert_eq!(trial_count(3), 3);
    assert_eq!(trial_count(4), 4);
    assert_eq!(trial_count(9), 9);
}
